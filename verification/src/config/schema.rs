//! The shape of a configuration.

use vstd::prelude::*;

verus! {

/// The days analysed where the configuration names none.
pub fn default_days() -> (r: u32)
    ensures
        r == 7,
{
    7
}

/// Merge commits are left out where the configuration does not say.
pub fn default_true() -> (r: bool)
    ensures
        r,
{
    true
}

/// A whole configuration.
#[derive(Debug)]
pub struct Config {
    /// Reference to the JSON schema of the file, for editors.
    pub schema: Option<String>,
    /// The repositories to analyse.
    pub repositories: Vec<RepoConfig>,
    /// Settings that hold where the command line gives none.
    pub defaults: Defaults,
}

/// One repository.
#[derive(Debug)]
pub struct RepoConfig {
    /// Display name.
    pub name: String,
    /// Path of the repository; a leading `~` stands for the home directory.
    pub path: String,
    /// Branch to analyse, if not the checked-out one.
    pub branch: Option<String>,
}

impl Clone for RepoConfig {
    fn clone(&self) -> (r: Self)
        ensures
            r == *self,
    {
        RepoConfig { name: self.name.clone(), path: self.path.clone(), branch: self.branch.clone() }
    }
}

/// Settings that hold where the command line gives none.
#[derive(Debug, Clone, Copy, PartialEq, Eq, Structural)]
pub struct Defaults {
    /// Number of days to analyse.
    pub days: u32,
    /// Whether merge commits are left out.
    pub exclude_merges: bool,
}

impl Default for Defaults {
    /// Seven days, without merge commits.
    fn default() -> (r: Defaults)
        ensures
            r.days == 7,
            r.exclude_merges,
    {
        Defaults { days: default_days(), exclude_merges: default_true() }
    }
}

} // verus!
