//! Commit records as the repository reader hands them over.

pub mod commit;
pub mod diff;

pub use commit::CommitInfo;
pub use diff::{DiffStats, FileChange};
