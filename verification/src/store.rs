//! Persistence of profiles and groups.
//!
//! The [`ProfileStore`] trait abstracts storage so that a JSON file and a future
//! database slot in behind the same interface. **No secrets are ever stored
//! here**: profiles only carry `CredentialRef`s.

use vstd::prelude::*;
use vstd::string::*;
use vstd::utf8::*;

use crate::error::{read_or_default, CoreError, ReadOutcome};
use crate::ids::Id;
use crate::model::group::Group;
use crate::model::profile::ConnectionProfile;
use crate::platform;
use crate::platform::{data_dir, join};
use crate::text::bytes_of;

verus! {

/// Something that is stored under an id of its own.
pub trait Keyed: Sized {
    /// The id.
    spec fn key_of(self) -> Id;

    fn key(&self) -> (r: Id)
        ensures
            r == self.key_of(),
    ;
}

impl Keyed for ConnectionProfile {
    open spec fn key_of(self) -> Id {
        self.id
    }

    fn key(&self) -> (r: Id) {
        self.id
    }
}

impl Keyed for Group {
    open spec fn key_of(self) -> Id {
        self.id
    }

    fn key(&self) -> (r: Id) {
        self.id
    }
}

/// Where the first item with this id stands.
pub open spec fn position_of<T: Keyed>(items: Seq<T>, id: Id) -> Option<int>
    decreases items.len(),
{
    if items.len() == 0 {
        None
    } else {
        match position_of(items.drop_last(), id) {
            Some(at) => Some(at),
            None => if items.last().key_of() == id {
                Some(items.len() - 1)
            } else {
                None
            },
        }
    }
}

/// The items after one has been put in: in place of the first one with the same
/// id, or else at the end.
pub open spec fn upserted<T: Keyed>(items: Seq<T>, item: T) -> Seq<T> {
    match position_of(items, item.key_of()) {
        Some(at) => items.update(at, item),
        None => items.push(item),
    }
}

/// The items without those that have this id.
pub open spec fn without<T: Keyed>(items: Seq<T>, id: Id) -> Seq<T>
    decreases items.len(),
{
    if items.len() == 0 {
        Seq::empty()
    } else if items.last().key_of() == id {
        without(items.drop_last(), id)
    } else {
        without(items.drop_last(), id).push(items.last())
    }
}

proof fn lemma_position<T: Keyed>(items: Seq<T>, id: Id)
    ensures
        match position_of(items, id) {
            Some(at) => {
                &&& 0 <= at < items.len()
                &&& items[at].key_of() == id
                &&& forall|i: int| 0 <= i < at ==> (#[trigger] items[i]).key_of() != id
            },
            None => forall|i: int| 0 <= i < items.len() ==> (#[trigger] items[i]).key_of() != id,
        },
    decreases items.len(),
{
    if items.len() > 0 {
        let shorter = items.drop_last();
        lemma_position(shorter, id);
        match position_of(shorter, id) {
            Some(at) => {
                assert forall|i: int| 0 <= i < at implies (#[trigger] items[i]).key_of() != id by {
                    assert(shorter[i].key_of() != id);
                }
            },
            None => {
                assert forall|i: int| 0 <= i < shorter.len() implies (#[trigger] items[i]).key_of()
                    != id by {
                    assert(shorter[i].key_of() != id);
                }
            },
        }
    }
}

proof fn lemma_position_unique<T: Keyed>(items: Seq<T>, id: Id, at: int)
    requires
        0 <= at < items.len(),
        items[at].key_of() == id,
        forall|i: int| 0 <= i < at ==> (#[trigger] items[i]).key_of() != id,
    ensures
        position_of(items, id) == Some(at),
{
    lemma_position(items, id);
    let found = position_of(items, id)->0;
    assert(items[found].key_of() == id);
}

fn position<T: Keyed>(items: &Vec<T>, id: Id) -> (r: Option<usize>)
    ensures
        match r {
            Some(at) => position_of(items@, id) == Some(at as int) && at < items@.len(),
            None => position_of(items@, id) is None,
        },
{
    for k in 0..items.len()
        invariant
            forall|i: int| 0 <= i < k ==> (#[trigger] items@[i]).key_of() != id,
    {
        if items[k].key() == id {
            proof {
                lemma_position_unique(items@, id, k as int);
            }
            return Some(k);
        }
    }
    proof {
        lemma_position(items@, id);
    }
    None
}

fn upsert<T: Keyed>(items: &mut Vec<T>, item: T)
    ensures
        final(items)@ == upserted(old(items)@, item),
{
    match position(items, item.key()) {
        Some(at) => {
            items.set(at, item);
        },
        None => {
            items.push(item);
        },
    }
}

proof fn lemma_without_split<T: Keyed>(items: Seq<T>, id: Id, at: int)
    requires
        0 <= at < items.len(),
        items[at].key_of() == id,
    ensures
        without(items, id) == without(items.remove(at), id),
    decreases items.len(),
{
    if at == items.len() - 1 {
        assert(items.remove(at) =~= items.drop_last());
    } else {
        lemma_without_split(items.drop_last(), id, at);
        assert(items.remove(at).drop_last() =~= items.drop_last().remove(at));
        assert(items.remove(at).last() == items.last());
    }
}

proof fn lemma_without_none<T: Keyed>(items: Seq<T>, id: Id)
    requires
        forall|i: int| 0 <= i < items.len() ==> (#[trigger] items[i]).key_of() != id,
    ensures
        without(items, id) == items,
    decreases items.len(),
{
    if items.len() > 0 {
        let shorter = items.drop_last();
        assert forall|i: int| 0 <= i < shorter.len() implies (#[trigger] shorter[i]).key_of()
            != id by {
            assert(items[i].key_of() != id);
        }
        assert(items[items.len() - 1].key_of() != id);
        lemma_without_none(shorter, id);
        assert(shorter.push(items.last()) =~= items);
    }
}

fn retain_others<T: Keyed>(items: &mut Vec<T>, id: Id)
    ensures
        final(items)@ == without(old(items)@, id),
{
    let mut k: usize = 0;
    while k < items.len()
        invariant
            k <= items@.len(),
            forall|i: int| 0 <= i < k ==> (#[trigger] items@[i]).key_of() != id,
            without(items@, id) == without(old(items)@, id),
        decreases items@.len() - k,
    {
        if items[k].key() == id {
            proof {
                lemma_without_split(items@, id, k as int);
            }
            let _dropped: T = items.remove(k);
        } else {
            k = k + 1;
        }
    }
    proof {
        lemma_without_none(items@, id);
    }
}

/// What a store of profiles and groups offers.
pub trait ProfileStore {
    fn list_profiles(&self) -> (r: Result<Vec<ConnectionProfile>, CoreError>);

    fn get_profile(&self, id: Id) -> (r: Result<Option<ConnectionProfile>, CoreError>);

    fn upsert_profile(&mut self, profile: ConnectionProfile) -> (r: Result<(), CoreError>);

    fn delete_profile(&mut self, id: Id) -> (r: Result<(), CoreError>);

    fn list_groups(&self) -> (r: Result<Vec<Group>, CoreError>);

    fn upsert_group(&mut self, group: Group) -> (r: Result<(), CoreError>);

    fn delete_group(&mut self, id: Id) -> (r: Result<(), CoreError>);
}

/// The contents of the profile database (secret-free).
#[derive(Debug, Default)]
pub struct StoreData {
    pub profiles: Vec<ConnectionProfile>,
    pub groups: Vec<Group>,
}

/// The item that a lookup finds: the first with this id.
pub open spec fn found<T: Keyed>(items: Seq<T>, id: Id) -> Option<T> {
    match position_of(items, id) {
        Some(at) => Some(items[at]),
        None => None,
    }
}

/// Whether two lists of profiles are alike, item by item.
pub open spec fn alike(a: Seq<ConnectionProfile>, b: Seq<ConnectionProfile>) -> bool {
    a.len() == b.len() && forall|i: int| 0 <= i < a.len() ==> (#[trigger] a[i])@ == b[i]@
}

impl StoreData {
    /// An empty database.
    pub fn new() -> (r: StoreData)
        ensures
            r.profiles@ == Seq::<ConnectionProfile>::empty(),
            r.groups@ == Seq::<Group>::empty(),
    {
        StoreData { profiles: Vec::new(), groups: Vec::new() }
    }
}

impl ProfileStore for StoreData {
    fn list_profiles(&self) -> (r: Result<Vec<ConnectionProfile>, CoreError>)
        ensures
            r matches Ok(profiles) && alike(profiles@, self.profiles@),
    {
        let mut r: Vec<ConnectionProfile> = Vec::new();
        for k in 0..self.profiles.len()
            invariant
                alike(r@, self.profiles@.take(k as int)),
        {
            r.push(self.profiles[k].clone());
        }
        assert(self.profiles@.take(self.profiles@.len() as int) =~= self.profiles@);
        Ok(r)
    }

    fn get_profile(&self, id: Id) -> (r: Result<Option<ConnectionProfile>, CoreError>)
        ensures
            match r {
                Ok(Some(profile)) => found(self.profiles@, id) matches Some(p) && p@ == profile@,
                Ok(None) => found(self.profiles@, id) is None,
                Err(_) => false,
            },
    {
        match position(&self.profiles, id) {
            Some(at) => Ok(Some(self.profiles[at].clone())),
            None => Ok(None),
        }
    }

    fn upsert_profile(&mut self, profile: ConnectionProfile) -> (r: Result<(), CoreError>)
        ensures
            r is Ok,
            final(self).profiles@ == upserted(old(self).profiles@, profile),
            final(self).groups == old(self).groups,
    {
        upsert(&mut self.profiles, profile);
        Ok(())
    }

    fn delete_profile(&mut self, id: Id) -> (r: Result<(), CoreError>)
        ensures
            r is Ok,
            final(self).profiles@ == without(old(self).profiles@, id),
            final(self).groups == old(self).groups,
    {
        retain_others(&mut self.profiles, id);
        Ok(())
    }

    fn list_groups(&self) -> (r: Result<Vec<Group>, CoreError>)
        ensures
            r matches Ok(groups) && groups@ == self.groups@,
    {
        let groups = self.groups.clone();
        assert(groups@ =~= self.groups@);
        Ok(groups)
    }

    fn upsert_group(&mut self, group: Group) -> (r: Result<(), CoreError>)
        ensures
            r is Ok,
            final(self).groups@ == upserted(old(self).groups@, group),
            final(self).profiles == old(self).profiles,
    {
        upsert(&mut self.groups, group);
        Ok(())
    }

    fn delete_group(&mut self, id: Id) -> (r: Result<(), CoreError>)
        ensures
            r is Ok,
            final(self).groups@ == without(old(self).groups@, id),
            final(self).profiles == old(self).profiles,
    {
        retain_others(&mut self.groups, id);
        Ok(())
    }
}

/// Where a JSON-file backed [`ProfileStore`] keeps its data.
#[derive(Debug)]
pub struct FileProfileStore {
    path: Vec<u8>,
}

impl View for FileProfileStore {
    type V = Seq<u8>;

    /// The path of the file.
    closed spec fn view(&self) -> Seq<u8> {
        self.path@
    }
}

impl FileProfileStore {
    pub fn new(path: Vec<u8>) -> (r: FileProfileStore)
        ensures
            r@ == path@,
    {
        FileProfileStore { path }
    }

    /// Default location: `<data_dir>/profiles.json`, below the user's data
    /// directory.
    pub fn default_store(base: Option<Vec<u8>>) -> (r: FileProfileStore)
        ensures
            r@ == platform::joined(platform::app_dir(base), encode_utf8("profiles.json"@)),
    {
        FileProfileStore { path: join(&data_dir(base), "profiles.json") }
    }

    /// The path of the file.
    pub fn path(&self) -> (r: &Vec<u8>)
        ensures
            r@ == self@,
    {
        &self.path
    }

    /// The file that is written first, and then renamed for atomicity.
    pub fn tmp_path(&self) -> (r: Vec<u8>)
        ensures
            r@ == self@ + encode_utf8(".tmp"@),
    {
        let mut r: Vec<u8> = bytes_of(self.path.as_slice());
        let tail: Vec<u8> = bytes_of(".tmp".as_bytes());
        r.extend_from_slice(tail.as_slice());
        assert(r@ =~= self@ + encode_utf8(".tmp"@));
        r
    }

    /// What the file holds; an absent file is an empty database.
    pub fn read_data(outcome: ReadOutcome<StoreData>) -> (r: Result<StoreData, CoreError>)
        ensures
            match outcome {
                ReadOutcome::Parsed(data) => r == Ok::<StoreData, CoreError>(data),
                ReadOutcome::Malformed(why) => r == Err::<StoreData, CoreError>(
                    CoreError::Serde(why),
                ),
                ReadOutcome::Missing => {
                    &&& r matches Ok(data)
                    &&& data.profiles@ == Seq::<ConnectionProfile>::empty()
                    &&& data.groups@ == Seq::<Group>::empty()
                },
                ReadOutcome::Failed(why) => r == Err::<StoreData, CoreError>(CoreError::Io(why)),
            },
    {
        read_or_default(outcome, StoreData::new())
    }
}

// ---------------------------------------------------------------------------
// Laws
// ---------------------------------------------------------------------------

/// The file that is written first is never the database itself: until it is
/// renamed, the database stays as it was.
pub proof fn law_tmp_file_is_another_file(path: Seq<u8>)
    ensures
        path + encode_utf8(".tmp"@) != path,
{
    reveal_strlit(".tmp");
    encode_utf8_decode_utf8(".tmp"@);
    if encode_utf8(".tmp"@).len() == 0 {
        assert(encode_utf8(".tmp"@) =~= encode_utf8(Seq::<char>::empty()));
        encode_utf8_decode_utf8(Seq::<char>::empty());
        assert(".tmp"@.len() == 4);
    }
    assert((path + encode_utf8(".tmp"@)).len() == path.len() + encode_utf8(".tmp"@).len());
}

/// What was put in is what a lookup finds, and lookups of other ids are not
/// affected.
pub proof fn law_upserted_is_found<T: Keyed>(items: Seq<T>, item: T, other: Id)
    requires
        other != item.key_of(),
    ensures
        found(upserted(items, item), item.key_of()) == Some(item),
        found(upserted(items, item), other) == found(items, other),
{
    let after = upserted(items, item);
    lemma_position(items, item.key_of());
    lemma_position(items, other);
    let at = match position_of(items, item.key_of()) {
        Some(at) => at,
        None => items.len() as int,
    };
    assert(after[at] == item);
    assert forall|i: int| 0 <= i < at implies (#[trigger] after[i]).key_of() != item.key_of() by {
        assert(after[i] == items[i]);
    }
    lemma_position_unique(after, item.key_of(), at);
    match position_of(items, other) {
        Some(o) => {
            assert(after[o] == items[o]);
            assert forall|i: int| 0 <= i < o implies (#[trigger] after[i]).key_of() != other by {
                if i != at {
                    assert(after[i] == items[i]);
                }
            }
            lemma_position_unique(after, other, o);
        },
        None => {
            lemma_position(after, other);
            if position_of(after, other) is Some {
                let o = position_of(after, other)->0;
                if o != at {
                    assert(after[o] == items[o]);
                }
            }
        },
    }
}

proof fn lemma_without_members<T: Keyed>(items: Seq<T>, id: Id)
    ensures
        forall|i: int|
            0 <= i < without(items, id).len() ==> (#[trigger] without(items, id)[i]).key_of() != id,
    decreases items.len(),
{
    if items.len() > 0 {
        let rest = without(items.drop_last(), id);
        lemma_without_members(items.drop_last(), id);
        assert forall|i: int| 0 <= i < without(items, id).len() implies (
        #[trigger] without(items, id)[i]).key_of() != id by {
            if i < rest.len() {
                assert(rest[i].key_of() != id);
            }
        }
    }
}

proof fn lemma_without_keeps_others<T: Keyed>(items: Seq<T>, id: Id, other: Id)
    requires
        other != id,
    ensures
        found(without(items, id), other) == found(items, other),
    decreases items.len(),
{
    if items.len() > 0 {
        let shorter = items.drop_last();
        lemma_without_keeps_others(shorter, id, other);
        lemma_position(shorter, other);
        lemma_position(without(shorter, id), other);
        if items.last().key_of() != id {
            assert(without(items, id).drop_last() =~= without(shorter, id));
        }
    }
}

/// What was deleted is not found any more, and lookups of other ids are not
/// affected.
pub proof fn law_deleted_is_not_found<T: Keyed>(items: Seq<T>, id: Id, other: Id)
    requires
        other != id,
    ensures
        found(without(items, id), id) is None,
        found(without(items, id), other) == found(items, other),
{
    lemma_without_members(items, id);
    lemma_position(without(items, id), id);
    lemma_without_keeps_others(items, id, other);
}

/// Whether no two items share an id.
pub open spec fn ids_are_unique<T: Keyed>(items: Seq<T>) -> bool {
    forall|i: int, j: int|
        0 <= i < j < items.len() ==> (#[trigger] items[i]).key_of() != (
        #[trigger] items[j]).key_of()
}

/// Ids stay unique: putting in replaces an item of the same id, and deleting
/// adds nothing.
pub proof fn law_ids_stay_unique<T: Keyed>(items: Seq<T>, item: T, id: Id)
    requires
        ids_are_unique(items),
    ensures
        ids_are_unique(upserted(items, item)),
        ids_are_unique(without(items, id)),
    decreases items.len(),
{
    lemma_position(items, item.key_of());
    let after = upserted(items, item);
    let at = match position_of(items, item.key_of()) {
        Some(at) => at,
        None => items.len() as int,
    };
    assert forall|i: int, j: int| 0 <= i < j < after.len() implies (#[trigger] after[i]).key_of()
        != (#[trigger] after[j]).key_of() by {
        if i == at {
            assert(after[j] == items[j]);
            assert(items[at].key_of() != items[j].key_of());
        } else if j == at {
            assert(after[i] == items[i]);
            if at < items.len() {
                assert(items[i].key_of() != items[at].key_of());
            }
        } else {
            assert(items[i].key_of() != items[j].key_of());
        }
    }
    if items.len() > 0 {
        let shorter = items.drop_last();
        assert(ids_are_unique(shorter)) by {
            assert forall|i: int, j: int| 0 <= i < j < shorter.len() implies (
            #[trigger] shorter[i]).key_of() != (#[trigger] shorter[j]).key_of() by {
                assert(items[i].key_of() != items[j].key_of());
            }
        }
        law_ids_stay_unique(shorter, item, id);
        let rest = without(shorter, id);
        lemma_without_subset(shorter, id);
        if items.last().key_of() != id {
            let w = without(items, id);
            assert forall|i: int, j: int| 0 <= i < j < w.len() implies (#[trigger] w[i]).key_of()
                != (#[trigger] w[j]).key_of() by {
                assert(w[i] == rest[i]);
                if j < rest.len() {
                    assert(w[j] == rest[j]);
                } else {
                    assert(shorter.contains(rest[i]));
                    let k = choose|k: int| 0 <= k < shorter.len() && shorter[k] == rest[i];
                    assert(items[k].key_of() != items[items.len() - 1].key_of());
                }
            }
        }
    }
}

proof fn lemma_without_subset<T: Keyed>(items: Seq<T>, id: Id)
    ensures
        forall|i: int|
            0 <= i < without(items, id).len() ==> items.contains(#[trigger] without(items, id)[i]),
    decreases items.len(),
{
    if items.len() > 0 {
        let shorter = items.drop_last();
        lemma_without_subset(shorter, id);
        let rest = without(shorter, id);
        let w = without(items, id);
        assert forall|i: int| 0 <= i < w.len() implies items.contains(#[trigger] w[i]) by {
            if i < rest.len() {
                assert(w[i] == rest[i]);
                assert(shorter.contains(rest[i]));
                let k = choose|k: int| 0 <= k < shorter.len() && shorter[k] == rest[i];
                assert(items[k] == w[i]);
            } else {
                assert(items[items.len() - 1] == w[i]);
            }
        }
    }
}

/// A lookup finds the first item with the id, and nothing where there is none.
pub proof fn law_lookup_finds_the_first<T: Keyed>(items: Seq<T>, id: Id, at: int)
    ensures
        0 <= at < items.len() && items[at].key_of() == id && (forall|i: int|
            0 <= i < at ==> (#[trigger] items[i]).key_of() != id) ==> found(items, id) == Some(
            items[at],
        ),
        (forall|i: int| 0 <= i < items.len() ==> (#[trigger] items[i]).key_of() != id) ==> found(
            items,
            id,
        ) is None,
{
    if 0 <= at < items.len() && items[at].key_of() == id && (forall|i: int|
        0 <= i < at ==> (#[trigger] items[i]).key_of() != id) {
        lemma_position_unique(items, id, at);
    }
    lemma_position(items, id);
}

/// Profiles and groups stand under their own ids.
pub proof fn law_items_stand_under_their_ids(profile: ConnectionProfile, group: Group)
    ensures
        profile.key_of() == profile.id,
        group.key_of() == group.id,
{
}

/// Putting an item in replaces the first one with its id and moves nothing, or
/// adds it at the end where there is none.
pub proof fn law_upsert_by_position<T: Keyed>(items: Seq<T>, item: T, at: int)
    ensures
        0 <= at < items.len() && items[at].key_of() == item.key_of() && (forall|i: int|
            0 <= i < at ==> (#[trigger] items[i]).key_of() != item.key_of()) ==> upserted(
            items,
            item,
        ) == items.update(at, item),
        (forall|i: int| 0 <= i < items.len() ==> (#[trigger] items[i]).key_of() != item.key_of())
            ==> upserted(items, item) == items.push(item),
{
    if 0 <= at < items.len() && items[at].key_of() == item.key_of() && (forall|i: int|
        0 <= i < at ==> (#[trigger] items[i]).key_of() != item.key_of()) {
        lemma_position_unique(items, item.key_of(), at);
    }
    lemma_position(items, item.key_of());
}

/// Deleting keeps exactly the items with other ids, in their order.
pub proof fn law_delete_keeps_the_others<T: Keyed>(items: Seq<T>, id: Id)
    ensures
        without(items, id) == items.filter(|item: T| item.key_of() != id),
    decreases items.len(),
{
    reveal(Seq::filter);
    let others = |item: T| item.key_of() != id;
    if items.len() > 0 {
        law_delete_keeps_the_others(items.drop_last(), id);
    }
    assert(without(items, id) =~= items.filter(others));
}

/// Two lists that are alike have the same profiles at the same places.
pub proof fn law_alike_lists(a: Seq<ConnectionProfile>, b: Seq<ConnectionProfile>, i: int)
    requires
        alike(a, b),
        0 <= i < b.len(),
    ensures
        a.len() == b.len(),
        a[i]@ == b[i]@,
{
}

} // verus!
