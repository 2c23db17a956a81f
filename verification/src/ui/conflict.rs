//! Remote file edit conflict detection.
//!
//! When a remote file is opened in an external editor, the local copy can go
//! stale if the file changes on the server before the edit is uploaded. We
//! snapshot (size, mtime) at download and check again before upload: the
//! race-condition guard for "edit remote file in $EDITOR".

use vstd::prelude::*;

verus! {

/// Snapshot of a remote file's identity at download time.
#[derive(Debug, Clone, Copy, PartialEq, Eq, Structural)]
pub struct RemoteSnapshot {
    pub size: u64,
    pub modified_unix: Option<i64>,
}

/// Result of comparing the current remote state to the snapshot.
#[derive(Debug, Clone, Copy, PartialEq, Eq, Structural)]
pub enum ConflictCheck {
    /// Remote is unchanged; safe to upload.
    Safe,
    /// Remote changed since download; the UI must ask how to proceed.
    Conflict { snapshot: RemoteSnapshot, current: RemoteSnapshot },
}

/// Compare the snapshot taken at download against the current remote stat.
pub fn check_conflict(snapshot: &RemoteSnapshot, current: &RemoteSnapshot) -> (r: ConflictCheck)
    ensures
        r == (if *snapshot == *current {
            ConflictCheck::Safe
        } else {
            ConflictCheck::Conflict { snapshot: *snapshot, current: *current }
        }),
{
    let same_time: bool = match (snapshot.modified_unix, current.modified_unix) {
        (Some(a), Some(b)) => a == b,
        (None, None) => true,
        _ => false,
    };
    if snapshot.size == current.size && same_time {
        ConflictCheck::Safe
    } else {
        ConflictCheck::Conflict { snapshot: *snapshot, current: *current }
    }
}

} // verus!
