//! One commit of the history.

use crate::date::{day_of_timestamp, Date};
use crate::git::diff::DiffStats;
use vstd::prelude::*;

verus! {

/// A commit as the repository reader extracted it.
#[derive(Debug)]
pub struct CommitInfo {
    /// Short hash of the commit.
    pub id: String,
    /// Commit time: seconds since 1970-01-01 00:00:00 UTC.
    pub timestamp: i64,
    /// Whether the commit has more than one parent.
    pub is_merge: bool,
    /// What the commit changed.
    pub diff: DiffStats,
}

impl Clone for CommitInfo {
    fn clone(&self) -> (r: Self)
        ensures
            r.id == self.id,
            r.timestamp == self.timestamp,
            r.is_merge == self.is_merge,
            r.diff.additions == self.diff.additions,
            r.diff.deletions == self.diff.deletions,
            r.diff.files_changed == self.diff.files_changed,
            r.diff.files@ == self.diff.files@,
    {
        CommitInfo {
            id: self.id.clone(),
            timestamp: self.timestamp,
            is_merge: self.is_merge,
            diff: self.diff.clone(),
        }
    }
}

impl CommitInfo {
    /// Whether the commit's day can be represented as a [`Date`].
    pub open spec fn dated(self) -> bool {
        day_of_timestamp(self.timestamp as int) is Some
    }

    /// Day number of the UTC date of the commit.
    pub open spec fn day(self) -> int {
        day_of_timestamp(self.timestamp as int)->0
    }

    pub fn new(id: String, timestamp: i64, is_merge: bool, diff: DiffStats) -> (r: CommitInfo)
        ensures
            r.id == id,
            r.timestamp == timestamp,
            r.is_merge == is_merge,
            r.diff == diff,
    {
        CommitInfo { id, timestamp, is_merge, diff }
    }

    /// Whether the commit's day can be represented as a [`Date`].
    pub fn is_dated(&self) -> (r: bool)
        ensures
            r == self.dated(),
    {
        Date::from_timestamp(self.timestamp).is_some()
    }

    /// The UTC date of the commit.
    pub fn date(&self) -> (r: Date)
        requires
            self.dated(),
        ensures
            r@ == self.day(),
    {
        match Date::from_timestamp(self.timestamp) {
            Some(d) => d,
            None => {
                // left out by the precondition
                assert(false);
                Date::default()
            },
        }
    }
}

} // verus!
