//! Terminal macro model: record input steps with optional delays, replay them,
//! and warn before persisting anything that looks like a secret.

use vstd::prelude::*;
use vstd::string::*;

use crate::ids;
use crate::ids::{new_id, Id};
use crate::ui::safety;
use crate::ui::safety::looks_like_secret;

verus! {

/// A single step in a macro.
#[derive(Debug, PartialEq, Eq)]
pub enum MacroStep {
    /// Send literal input (e.g. a command plus newline).
    Input { text: String },
    /// Pause before the next step.
    Delay { millis: u64 },
    /// Wait until this substring is seen in the output (best-effort).
    WaitFor { needle: String },
}

impl Clone for MacroStep {
    fn clone(&self) -> (r: Self)
        ensures
            r == *self,
    {
        match self {
            MacroStep::Input { text } => MacroStep::Input { text: text.clone() },
            MacroStep::Delay { millis } => MacroStep::Delay { millis: *millis },
            MacroStep::WaitFor { needle } => MacroStep::WaitFor { needle: needle.clone() },
        }
    }
}

impl MacroStep {
    /// A pause of so many seconds and nanoseconds, in whole milliseconds. What
    /// does not fit wraps around.
    pub fn from_duration(secs: u64, nanos: u32) -> (r: MacroStep)
        requires
            nanos < 1_000_000_000,
        ensures
            r == (MacroStep::Delay {
                millis: ((secs * 1000 + nanos as int / 1_000_000) % 0x1_0000_0000_0000_0000) as u64,
            }),
    {
        let millis: u128 = secs as u128 * 1000 + (nanos / 1_000_000) as u128;
        let low: u128 = millis % 0x1_0000_0000_0000_0000;
        MacroStep::Delay { millis: low as u64 }
    }
}

/// A named, editable macro.
#[derive(Debug, PartialEq, Eq)]
pub struct Macro {
    pub id: Id,
    pub name: String,
    pub steps: Vec<MacroStep>,
}

impl Clone for Macro {
    fn clone(&self) -> (r: Self)
        ensures
            r.id == self.id,
            r.name == self.name,
            r.steps@ == self.steps@,
    {
        let steps = self.steps.clone();
        assert(steps@ =~= self.steps@);
        Macro { id: self.id, name: self.name.clone(), steps }
    }
}

/// The input that a step sends, if it sends any.
pub open spec fn input_of(step: MacroStep) -> Option<Seq<char>> {
    match step {
        MacroStep::Input { text } => Some(text@),
        _ => None,
    }
}

/// The indices, in order, at which `flags` is set.
pub open spec fn flagged(flags: Seq<bool>) -> Seq<usize>
    decreases flags.len(),
{
    if flags.len() == 0 {
        Seq::empty()
    } else if flags.last() {
        flagged(flags.drop_last()).push((flags.len() - 1) as usize)
    } else {
        flagged(flags.drop_last())
    }
}

/// Which steps send input that looks like a secret.
pub open spec fn secret_flags(steps: Seq<MacroStep>) -> Seq<bool> {
    Seq::new(
        steps.len(),
        |i: int|
            match input_of(steps[i]) {
                Some(text) => safety::secret_like(text),
                None => false,
            },
    )
}

/// The indices at which `flags` is set.
pub fn flagged_indices(flags: &Vec<bool>) -> (r: Vec<usize>)
    ensures
        r@ == flagged(flags@),
{
    let mut r: Vec<usize> = Vec::new();
    for k in 0..flags.len()
        invariant
            r@ == flagged(flags@.take(k as int)),
    {
        assert(flags@.take(k + 1).drop_last() =~= flags@.take(k as int));
        if flags[k] {
            r.push(k);
        }
    }
    assert(flags@.take(flags@.len() as int) =~= flags@);
    r
}

impl Macro {
    pub fn new(name: &str) -> (r: Macro)
        ensures
            ids::is_random_id(r.id),
            r.name@ == name@,
            r.steps@ == Seq::<MacroStep>::empty(),
    {
        Macro { id: new_id(), name: name.to_string(), steps: Vec::new() }
    }

    /// Indices of steps whose input looks like a secret. The UI should warn
    /// (and offer to redact) before saving when this is non-empty.
    pub fn suspicious_steps(&self) -> (r: Vec<usize>)
        ensures
            r@ == flagged(secret_flags(self.steps@)),
            forall|k: int|
                0 <= k < self.steps@.len() ==> (r@.contains(k as usize) <==> ((
                #[trigger] self.steps@[k]) matches MacroStep::Input { text } && safety::secret_like(
                    text@,
                ))),
            forall|i: int| 0 <= i < r@.len() ==> (#[trigger] r@[i]) < self.steps@.len(),
            forall|i: int, j: int| 0 <= i < j < r@.len() ==> r@[i] < r@[j],
    {
        let mut flags: Vec<bool> = Vec::new();
        for k in 0..self.steps.len()
            invariant
                flags@ == secret_flags(self.steps@).take(k as int),
        {
            let flag: bool = match &self.steps[k] {
                MacroStep::Input { text } => looks_like_secret(text.as_str()),
                _ => false,
            };
            flags.push(flag);
            assert(flags@ =~= secret_flags(self.steps@).take(k + 1));
        }
        assert(flags@ =~= secret_flags(self.steps@));
        let r = flagged_indices(&flags);
        proof {
            law_flagged_indices(flags@);
            assert forall|k: int| 0 <= k < self.steps@.len() implies (r@.contains(k as usize)
                <==> ((#[trigger] self.steps@[k]) matches MacroStep::Input { text }
                && safety::secret_like(text@))) by {
                assert(flags@[k] == secret_flags(self.steps@)[k]);
                if r@.contains(k as usize) {
                    let i = choose|i: int| 0 <= i < r@.len() && r@[i] == k as usize;
                    assert(flags@[r@[i] as int]);
                }
            }
        }
        r
    }
}

/// The flagged indices are exactly those that are set, and they come in order.
pub proof fn law_flagged_indices(flags: Seq<bool>)
    requires
        flags.len() <= usize::MAX,
    ensures
        forall|i: int|
            0 <= i < flagged(flags).len() ==> (#[trigger] flagged(flags)[i]) < flags.len()
                && flags[flagged(flags)[i] as int],
        forall|k: int|
            0 <= k < flags.len() && #[trigger] flags[k] ==> flagged(flags).contains(k as usize),
        forall|i: int, j: int|
            0 <= i < j < flagged(flags).len() ==> flagged(flags)[i] < flagged(flags)[j],
    decreases flags.len(),
{
    if flags.len() > 0 {
        let fewer = flags.drop_last();
        let earlier = flagged(fewer);
        law_flagged_indices(fewer);
        assert forall|i: int| 0 <= i < flagged(flags).len() implies (#[trigger] flagged(flags)[i])
            < flags.len() && flags[flagged(flags)[i] as int] by {
            if i < earlier.len() {
                assert(flagged(flags)[i] == earlier[i]);
                assert(fewer[earlier[i] as int]);
            }
        }
        assert forall|k: int| 0 <= k < flags.len() && #[trigger] flags[k] implies flagged(
            flags,
        ).contains(k as usize) by {
            if k < fewer.len() {
                assert(fewer[k]);
                assert(earlier.contains(k as usize));
                let i = choose|i: int| 0 <= i < earlier.len() && earlier[i] == k as usize;
                assert(flagged(flags)[i] == k as usize);
            } else {
                assert(flagged(flags)[earlier.len() as int] == k as usize);
            }
        }
        assert forall|i: int, j: int| 0 <= i < j < flagged(flags).len() implies flagged(flags)[i]
            < flagged(flags)[j] by {
            assert(flagged(flags)[i] == earlier[i]);
            if j < earlier.len() {
                assert(flagged(flags)[j] == earlier[j]);
            }
        }
    }
}

} // verus!
