//! Multi-execution: fan one input out to several sessions, with per-session
//! exclusions and a danger gate.

use std::collections::HashSet;

use vstd::prelude::*;

use crate::ids::Id;
use crate::table::members_of;
use crate::ui::safety;
use crate::ui::safety::{scan_dangerous, DangerWarning};

verus! {

/// The members of a group, and the sessions excluded for the time being.
pub struct GroupModel {
    pub members: Set<Id>,
    pub excluded: Set<Id>,
}

/// The sessions that should currently receive input.
pub open spec fn targets_of(group: GroupModel) -> Set<Id> {
    group.members.difference(group.excluded)
}

/// A set of sessions that receive master input, minus any excluded ones.
#[derive(Debug, Default)]
pub struct MultiExecGroup {
    members: HashSet<Id>,
    excluded: HashSet<Id>,
}

impl View for MultiExecGroup {
    type V = GroupModel;

    closed spec fn view(&self) -> GroupModel {
        GroupModel { members: self.members@, excluded: self.excluded@ }
    }
}

fn copy_of(s: &HashSet<Id>) -> (r: HashSet<Id>)
    ensures
        r@ == s@,
{
    broadcast use vstd::std_specs::hash::group_hash_axioms;

    let ids: Vec<Id> = members_of(s);
    let mut r: HashSet<Id> = HashSet::new();
    for k in 0..ids.len()
        invariant
            r@ == ids@.take(k as int).to_set(),
    {
        broadcast use vstd::std_specs::hash::group_hash_axioms;

        let ghost before = ids@.take(k as int);
        let ghost now = ids@.take(k + 1);
        assert(now =~= before.push(ids@[k as int]));
        r.insert(ids[k]);
        assert forall|id: Id| now.contains(id) <==> before.contains(id) || id == ids@[k as int] by {
            if before.contains(id) {
                let i = choose|i: int| 0 <= i < before.len() && before[i] == id;
                assert(now[i] == id);
            }
            assert(now[k as int] == ids@[k as int]);
        }
        assert(r@ =~= now.to_set());
    }
    assert(ids@.take(ids@.len() as int) =~= ids@);
    r
}

impl Clone for MultiExecGroup {
    fn clone(&self) -> (r: Self)
        ensures
            r@ == self@,
    {
        MultiExecGroup { members: copy_of(&self.members), excluded: copy_of(&self.excluded) }
    }
}

impl MultiExecGroup {
    pub fn new() -> (r: MultiExecGroup)
        ensures
            r@.members == Set::<Id>::empty(),
            r@.excluded == Set::<Id>::empty(),
    {
        broadcast use vstd::std_specs::hash::group_hash_axioms;

        MultiExecGroup { members: HashSet::new(), excluded: HashSet::new() }
    }

    /// Puts a session into the group.
    pub fn add(&mut self, id: Id)
        ensures
            final(self)@.members == old(self)@.members.insert(id),
            final(self)@.excluded == old(self)@.excluded,
    {
        broadcast use vstd::std_specs::hash::group_hash_axioms;

        self.members.insert(id);
    }

    /// Takes a session out of the group, and forgets its exclusion.
    pub fn remove(&mut self, id: Id)
        ensures
            final(self)@.members == old(self)@.members.remove(id),
            final(self)@.excluded == old(self)@.excluded.remove(id),
    {
        broadcast use vstd::std_specs::hash::group_hash_axioms;

        self.members.remove(&id);
        self.excluded.remove(&id);
    }

    /// Temporarily exclude a session without removing it from the group.
    pub fn set_excluded(&mut self, id: Id, excluded: bool)
        ensures
            final(self)@.members == old(self)@.members,
            final(self)@.excluded == (if excluded {
                old(self)@.excluded.insert(id)
            } else {
                old(self)@.excluded.remove(id)
            }),
    {
        broadcast use vstd::std_specs::hash::group_hash_axioms;

        if excluded {
            self.excluded.insert(id);
        } else {
            self.excluded.remove(&id);
        }
    }

    /// Sessions that should currently receive input, each once and in no
    /// particular order.
    pub fn active_targets(&self) -> (r: Vec<Id>)
        ensures
            r@.no_duplicates(),
            r@.to_set() == targets_of(self@),
            forall|id: Id| #[trigger]
                r@.contains(id) <==> self@.members.contains(id) && !self@.excluded.contains(id),
    {
        broadcast use vstd::std_specs::hash::group_hash_axioms;

        let ids: Vec<Id> = members_of(&self.members);
        let mut r: Vec<Id> = Vec::new();
        for k in 0..ids.len()
            invariant
                ids@.no_duplicates(),
                r@.no_duplicates(),
                forall|id: Id| #[trigger]
                    r@.contains(id) <==> ids@.take(k as int).contains(id)
                        && !self@.excluded.contains(id),
        {
            broadcast use vstd::std_specs::hash::group_hash_axioms;

            let id: Id = ids[k];
            let ghost before = ids@.take(k as int);
            let ghost now = ids@.take(k + 1);
            let ghost targets_before = r@;
            assert(now =~= before.push(id));
            assert(!before.contains(id));
            assert(!r@.contains(id));
            if !self.excluded.contains(&id) {
                r.push(id);
            }
            assert forall|other: Id| #[trigger] r@.contains(other) <==> now.contains(other)
                && !self@.excluded.contains(other) by {
                assert(now.contains(other) <==> before.contains(other) || other == id) by {
                    if before.contains(other) {
                        let i = choose|i: int| 0 <= i < before.len() && before[i] == other;
                        assert(now[i] == other);
                    }
                    assert(now[k as int] == id);
                }
                assert(targets_before.contains(other) <==> before.contains(other)
                    && !self@.excluded.contains(other));
                if r@.len() > targets_before.len() {
                    assert(r@[targets_before.len() as int] == id);
                    if targets_before.contains(other) {
                        let i = choose|i: int|
                            0 <= i < targets_before.len() && targets_before[i] == other;
                        assert(r@[i] == other);
                    }
                }
            }
        }
        assert(ids@.take(ids@.len() as int) =~= ids@);
        assert forall|id: Id| r@.to_set().contains(id) <==> targets_of(self@).contains(id) by {
            assert(r@.contains(id) <==> ids@.contains(id) && !self@.excluded.contains(id));
            assert(ids@.to_set().contains(id) <==> self@.members.contains(id));
        }
        assert(r@.to_set() =~= targets_of(self@));
        r
    }
}

/// Outcome of preparing a multi-exec broadcast.
#[derive(Debug)]
pub enum BroadcastDecision {
    /// Safe to send to these targets.
    Ready { targets: Vec<Id> },
    /// Flagged; the UI must confirm before proceeding.
    NeedsConfirmation { targets: Vec<Id>, warnings: Vec<DangerWarning> },
}

/// The sessions that a decision is about.
pub open spec fn decided_targets(decision: BroadcastDecision) -> Seq<Id> {
    match decision {
        BroadcastDecision::Ready { targets } => targets@,
        BroadcastDecision::NeedsConfirmation { targets, warnings: _ } => targets@,
    }
}

/// Decide from the warnings that a command has raised.
pub fn decide_broadcast(
    targets: Vec<Id>,
    warnings: Vec<DangerWarning>,
    confirm_dangerous: bool,
) -> (r: BroadcastDecision)
    ensures
        r == (if confirm_dangerous && warnings@.len() > 0 {
            BroadcastDecision::NeedsConfirmation { targets, warnings }
        } else {
            BroadcastDecision::Ready { targets }
        }),
{
    if confirm_dangerous && warnings.len() > 0 {
        BroadcastDecision::NeedsConfirmation { targets, warnings }
    } else {
        BroadcastDecision::Ready { targets }
    }
}

/// The warnings that an input raises.
pub open spec fn warnings_on(input: Seq<char>) -> Seq<safety::WarningModel> {
    safety::warnings_of(safety::danger_table(), safety::hits_on(input))
}

/// Decide whether `input` can be broadcast immediately or needs confirmation.
///
/// `confirm_dangerous` mirrors the user setting; when true, flagged commands
/// require explicit confirmation in the UI before they are sent anywhere.
pub fn prepare_broadcast(group: &MultiExecGroup, input: &str, confirm_dangerous: bool) -> (r:
    BroadcastDecision)
    ensures
        decided_targets(r).no_duplicates(),
        decided_targets(r).to_set() == targets_of(group@),
        r is NeedsConfirmation <==> confirm_dangerous && warnings_on(input@).len() > 0,
        r matches BroadcastDecision::NeedsConfirmation { targets: _, warnings }
            ==> safety::warning_views(warnings@) == warnings_on(input@),
        forall|id: Id| #[trigger]
            decided_targets(r).contains(id) <==> group@.members.contains(id)
                && !group@.excluded.contains(id),
        r matches BroadcastDecision::Ready { targets } ==> forall|id: Id| #[trigger]
            targets@.contains(id) <==> group@.members.contains(id) && !group@.excluded.contains(id),
        r matches BroadcastDecision::NeedsConfirmation { targets, warnings: _ } ==> forall|id: Id|
            #[trigger] targets@.contains(id) <==> group@.members.contains(id)
                && !group@.excluded.contains(id),
        r is NeedsConfirmation <==> confirm_dangerous && ({
            ||| safety::hit_of(r"(?i)\brm\s+-[a-z]*r[a-z]*f"@, input@) is Some
            ||| safety::hit_of(r"(?i)\bmkfs\b"@, input@) is Some
            ||| safety::hit_of(r"(?i)\bdd\b\s+if="@, input@) is Some
            ||| safety::hit_of(r"(?i)\b(reboot|shutdown|poweroff|halt)\b"@, input@) is Some
            ||| safety::hit_of(r"(?i)\bsystemctl\s+(restart|stop|disable)\b"@, input@) is Some
            ||| safety::hit_of(r":\(\)\s*\{.*\};\s*:"@, input@) is Some
            ||| safety::hit_of(r"(?i)>\s*/dev/sd"@, input@) is Some
            ||| safety::hit_of(r"(?i)\bchmod\s+-R\s+777\b"@, input@) is Some
        }),
        r matches BroadcastDecision::NeedsConfirmation { targets: _, warnings } ==> {
            &&& safety::warned(
                safety::warning_views(warnings@),
                safety::hit_of(r"(?i)\brm\s+-[a-z]*r[a-z]*f"@, input@),
                "recursive force delete"@,
            )
            &&& safety::warned(
                safety::warning_views(warnings@),
                safety::hit_of(r"(?i)\bmkfs\b"@, input@),
                "filesystem format"@,
            )
            &&& safety::warned(
                safety::warning_views(warnings@),
                safety::hit_of(r"(?i)\bdd\b\s+if="@, input@),
                "raw disk write"@,
            )
            &&& safety::warned(
                safety::warning_views(warnings@),
                safety::hit_of(r"(?i)\b(reboot|shutdown|poweroff|halt)\b"@, input@),
                "power state change"@,
            )
            &&& safety::warned(
                safety::warning_views(warnings@),
                safety::hit_of(r"(?i)\bsystemctl\s+(restart|stop|disable)\b"@, input@),
                "service disruption"@,
            )
            &&& safety::warned(
                safety::warning_views(warnings@),
                safety::hit_of(r":\(\)\s*\{.*\};\s*:"@, input@),
                "fork bomb"@,
            )
            &&& safety::warned(
                safety::warning_views(warnings@),
                safety::hit_of(r"(?i)>\s*/dev/sd"@, input@),
                "write to block device"@,
            )
            &&& safety::warned(
                safety::warning_views(warnings@),
                safety::hit_of(r"(?i)\bchmod\s+-R\s+777\b"@, input@),
                "world-writable recursive chmod"@,
            )
        },
{
    let targets = group.active_targets();
    let warnings = scan_dangerous(input);
    assert(safety::warning_views(warnings@).len() == warnings@.len());
    proof {
        safety::law_commands_that_are_warned_of(input@);
    }
    decide_broadcast(targets, warnings, confirm_dangerous)
}

/// A removed session receives nothing, and once it is put back it receives
/// input again: an exclusion from before is forgotten.
pub proof fn law_removed_session_starts_afresh(group: GroupModel, id: Id)
    ensures
        ({
            let removed = GroupModel {
                members: group.members.remove(id),
                excluded: group.excluded.remove(id),
            };
            let back = GroupModel {
                members: removed.members.insert(id),
                excluded: removed.excluded,
            };
            !targets_of(removed).contains(id) && targets_of(back).contains(id)
        }),
{
}

/// Excluding a session and taking it back leaves the targets as they were,
/// where it was not excluded before.
pub proof fn law_exclusion_is_undone(group: GroupModel, id: Id)
    requires
        !group.excluded.contains(id),
    ensures
        !targets_of(
            (GroupModel { members: group.members, excluded: group.excluded.insert(id) }),
        ).contains(id),
        group.excluded.insert(id).remove(id) == group.excluded,
{
    assert(group.excluded.insert(id).remove(id) =~= group.excluded);
}

/// A session receives input exactly when it is in the group and not excluded.
pub proof fn law_targets_are_members_that_are_not_excluded(group: GroupModel, id: Id)
    ensures
        targets_of(group).contains(id) <==> group.members.contains(id) && !group.excluded.contains(
            id,
        ),
{
}

} // verus!
