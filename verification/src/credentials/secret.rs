//! Secrets that are wiped on drop and never show their value.

use vstd::prelude::*;
use vstd::string::*;

verus! {

/// Overwrites a string with zeros and empties it, by the `zeroize::Zeroize` impl
/// for `String`. That the memory is overwritten cannot be seen in the value, so
/// only that the string is empty afterwards is stated.
#[verifier::external_body]
fn wipe(value: &mut String)
    ensures
        final(value)@ == Seq::<char>::empty(),
    opens_invariants none
    no_unwind
{
    zeroize::Zeroize::zeroize(value);
}

/// A secret string (password, passphrase, token) that is wiped on drop and
/// never shows its contents.
///
/// There is intentionally no `Debug` and no way to serialize one: secrets must
/// not flow into logs, UIs, or config files by accident.
pub struct Secret {
    value: String,
}

impl View for Secret {
    type V = Seq<char>;

    closed spec fn view(&self) -> Seq<char> {
        self.value@
    }
}

impl Clone for Secret {
    fn clone(&self) -> (r: Self)
        ensures
            r@ == self@,
    {
        Secret { value: self.value.clone() }
    }
}

impl Drop for Secret {
    /// Wipes the secret.
    fn drop(&mut self)
        ensures
            final(self)@ == Seq::<char>::empty(),
        opens_invariants none
        no_unwind
    {
        wipe(&mut self.value);
    }
}

impl Secret {
    pub fn new(value: String) -> (r: Secret)
        ensures
            r@ == value@,
    {
        Secret { value }
    }

    /// Borrow the secret. Callers must not log or persist the result.
    pub fn expose(&self) -> (r: &str)
        ensures
            r@ == self@,
    {
        self.value.as_str()
    }

    pub fn is_empty(&self) -> (r: bool)
        ensures
            r == (self@.len() == 0),
    {
        self.value.as_str().is_empty()
    }

    /// Wipes the secret ahead of its end.
    pub fn zeroize(&mut self)
        ensures
            final(self)@ == Seq::<char>::empty(),
    {
        wipe(&mut self.value);
    }

    /// What stands for a secret in logs: the same text for every secret.
    pub fn debug_text(&self) -> (r: &'static str)
        ensures
            r@ == "Secret(***)"@,
    {
        "Secret(***)"
    }
}

} // verus!
