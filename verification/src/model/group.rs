//! Folders of the session tree.

use vstd::prelude::*;
use vstd::string::*;

use crate::ids;
use crate::ids::{new_id, Id};

verus! {

/// A folder in the session tree. Groups can nest via `parent_id`.
#[derive(Debug, PartialEq, Eq)]
pub struct Group {
    pub id: Id,
    pub name: String,
    pub parent_id: Option<Id>,
}

impl Clone for Group {
    fn clone(&self) -> (r: Self)
        ensures
            r == *self,
    {
        Group { id: self.id, name: self.name.clone(), parent_id: self.parent_id }
    }
}

impl Group {
    pub fn new(name: &str) -> (r: Group)
        ensures
            ids::is_random_id(r.id),
            r.name@ == name@,
            r.parent_id is None,
    {
        Group { id: new_id(), name: name.to_string(), parent_id: None }
    }
}

} // verus!
