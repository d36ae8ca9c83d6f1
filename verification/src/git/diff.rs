//! Per-commit diff totals and per-file changes.

use crate::text::chars_of;
use vstd::prelude::*;

verus! {

/// Index of the last `.` in a path, or -1 where it holds none.
pub open spec fn last_dot(path: Seq<char>) -> int
    decreases path.len(),
{
    if path.len() == 0 {
        -1
    } else if path.last() == '.' {
        path.len() - 1
    } else {
        last_dot(path.drop_last())
    }
}

/// The extension of a path: the text after its last `.`. A path without a
/// `.` has none.
pub open spec fn extension_of(path: Seq<char>) -> Option<Seq<char>> {
    let dot = last_dot(path);
    if dot < 0 {
        None
    } else {
        Some(path.subrange(dot + 1, path.len() as int))
    }
}

/// Whether an allow-list of extensions (written without the leading dot)
/// admits a path: the path has an extension, and the list holds it, letter
/// for letter.
pub open spec fn extension_allowed(path: Seq<char>, extensions: Seq<String>) -> bool {
    extension_of(path) matches Some(ext) && exists|k: int|
        0 <= k < extensions.len() && (#[trigger] extensions[k])@ == ext
}

/// `last_dot` finds a `.` after which no other follows.
pub proof fn lemma_last_dot(path: Seq<char>)
    ensures
        -1 <= last_dot(path) < path.len(),
        last_dot(path) >= 0 ==> path[last_dot(path)] == '.',
        forall|i: int| last_dot(path) < i < path.len() ==> path[i] != '.',
    decreases path.len(),
{
    if path.len() > 0 && path.last() != '.' {
        let shorter = path.drop_last();
        lemma_last_dot(shorter);
        assert forall|i: int| last_dot(path) < i < path.len() implies path[i] != '.' by {
            if i < shorter.len() {
                assert(shorter[i] == path[i]);
            }
        }
    }
}

/// One file touched by a commit.
#[derive(Debug)]
pub struct FileChange {
    /// Path of the file inside the repository.
    pub path: String,
    /// Lines added.
    pub additions: u64,
    /// Lines removed.
    pub deletions: u64,
}

impl Clone for FileChange {
    fn clone(&self) -> (r: Self)
        ensures
            r == *self,
    {
        FileChange { path: self.path.clone(), additions: self.additions, deletions: self.deletions }
    }
}

impl FileChange {
    pub fn new(path: String, additions: u64, deletions: u64) -> (r: FileChange)
        ensures
            r.path == path,
            r.additions == additions,
            r.deletions == deletions,
    {
        FileChange { path, additions, deletions }
    }

    /// The text after the last `.` of the path, if it has one.
    pub fn extension(&self) -> (r: Option<String>)
        ensures
            extension_of(self.path@) == match r {
                Some(ext) => Some(ext@),
                None => None,
            },
    {
        let chars = chars_of(self.path.as_str());
        let n = chars.len();
        let mut i: usize = n;
        assert(chars@.take(n as int) =~= chars@);
        while i > 0 && chars[i - 1] != '.'
            invariant
                i <= n,
                n == chars@.len(),
                chars@ == self.path@,
                last_dot(chars@) == last_dot(chars@.take(i as int)),
            decreases i,
        {
            proof {
                let prefix = chars@.take(i as int);
                assert(prefix.drop_last() =~= chars@.take(i - 1));
            }
            i = i - 1;
        }
        if i == 0 {
            None
        } else {
            let ext = self.path.as_str().substring_char(i, n);
            Some(String::from_str(ext))
        }
    }

    /// Whether the allow-list `extensions` admits this file.
    pub fn matches_extensions(&self, extensions: &[String]) -> (r: bool)
        ensures
            r == extension_allowed(self.path@, extensions@),
    {
        match self.extension() {
            None => false,
            Some(ext) => {
                let mut k: usize = 0;
                while k < extensions.len()
                    invariant
                        k <= extensions@.len(),
                        extension_of(self.path@) == Some(ext@),
                        forall|j: int| 0 <= j < k ==> (#[trigger] extensions@[j])@ != ext@,
                    decreases extensions@.len() - k,
                {
                    if extensions[k] == ext {
                        assert(extensions@[k as int]@ == ext@);
                        return true;
                    }
                    k = k + 1;
                }
                false
            },
        }
    }
}

/// Diff totals of one commit, with the files they come from.
#[derive(Debug)]
pub struct DiffStats {
    /// Lines added over all files.
    pub additions: u64,
    /// Lines removed over all files.
    pub deletions: u64,
    /// Number of files touched.
    pub files_changed: u32,
    /// The files, one entry each.
    pub files: Vec<FileChange>,
}

impl Clone for DiffStats {
    fn clone(&self) -> (r: Self)
        ensures
            r.additions == self.additions,
            r.deletions == self.deletions,
            r.files_changed == self.files_changed,
            r.files@ == self.files@,
    {
        let mut files: Vec<FileChange> = Vec::new();
        let mut i: usize = 0;
        while i < self.files.len()
            invariant
                i <= self.files@.len(),
                files@ == self.files@.take(i as int),
            decreases self.files@.len() - i,
        {
            files.push(self.files[i].clone());
            assert(self.files@.take(i + 1) =~= self.files@.take(i as int).push(self.files@[i as int]));
            i = i + 1;
        }
        assert(self.files@.take(i as int) =~= self.files@);
        DiffStats {
            additions: self.additions,
            deletions: self.deletions,
            files_changed: self.files_changed,
            files,
        }
    }
}

impl Default for DiffStats {
    /// No change at all.
    fn default() -> (r: DiffStats)
        ensures
            r.additions == 0,
            r.deletions == 0,
            r.files_changed == 0,
            r.files@.len() == 0,
    {
        DiffStats { additions: 0, deletions: 0, files_changed: 0, files: Vec::new() }
    }
}

impl DiffStats {
    /// Totals without a list of files.
    pub fn new(additions: u64, deletions: u64, files_changed: u32) -> (r: DiffStats)
        ensures
            r.additions == additions,
            r.deletions == deletions,
            r.files_changed == files_changed,
            r.files@.len() == 0,
    {
        DiffStats { additions, deletions, files_changed, files: Vec::new() }
    }

    /// Whether one more file with these line counts can be counted in
    /// without leaving the range of the totals.
    pub open spec fn has_room_for(self, file: FileChange) -> bool {
        &&& self.additions + file.additions <= u64::MAX
        &&& self.deletions + file.deletions <= u64::MAX
        &&& self.files_changed + 1 <= u32::MAX
    }

    /// Records one more file: its lines are added to the totals, the number
    /// of files grows by one, and the file joins the list.
    pub fn add_file(&mut self, file: FileChange)
        requires
            old(self).has_room_for(file),
        ensures
            final(self).additions == old(self).additions + file.additions,
            final(self).deletions == old(self).deletions + file.deletions,
            final(self).files_changed == old(self).files_changed + 1,
            final(self).files@ == old(self).files@.push(file),
    {
        self.additions = self.additions + file.additions;
        self.deletions = self.deletions + file.deletions;
        self.files_changed = self.files_changed + 1;
        self.files.push(file);
    }
}

} // verus!
