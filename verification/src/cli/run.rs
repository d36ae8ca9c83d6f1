//! Which repositories are analysed.

use crate::config::loader::{expand_tilde, join_path, path_exists};
use crate::config::schema::RepoConfig;
use vstd::prelude::*;

verus! {

/// The last part of a path, as `std::path` tells it; `None` where the
/// path ends in `..` or has no part at all.
pub uninterp spec fn last_part(path: Seq<char>) -> Option<Seq<char>>;

/// Calls `std::path::Path::file_name` on a text. The result is named
/// [`last_part`].
#[verifier::external_body]
fn file_name(path: &str) -> (r: Option<String>)
    ensures
        last_part(path@) == match r {
            Some(name) => Some(name@),
            None => None,
        },
{
    std::path::Path::new(path).file_name().map(|s| s.to_string_lossy().into_owned())
}

/// A repository to analyse.
#[derive(Debug)]
pub struct RepoInfo {
    /// Where the repository is.
    pub path: String,
    /// Its display name.
    pub name: String,
    /// The branch to analyse, if not the checked-out one.
    pub branch: Option<String>,
}

/// The name under which a repository at the given path is shown: the last
/// part of the path, or `repository` where the path has none.
pub open spec fn shown_name(path: Seq<char>) -> Seq<char> {
    match last_part(path) {
        Some(name) => name,
        None => "repository"@,
    }
}

/// The name under which a repository at the given path is shown.
pub fn repository_name(path: &str) -> (r: String)
    ensures
        r@ == shown_name(path@),
{
    match file_name(path) {
        Some(name) => name,
        None => String::from_str("repository"),
    }
}

/// An optional filter of names, as a sequence.
pub open spec fn names_of(filter: Option<&[String]>) -> Option<Seq<String>> {
    match filter {
        Some(names) => Some(names@),
        None => None,
    }
}

/// Whether the list holds the name, letter for letter.
pub open spec fn listed(names: Seq<String>, name: Seq<char>) -> bool {
    exists|k: int| 0 <= k < names.len() && (#[trigger] names[k])@ == name
}

/// Whether a filter of names lets a name through: no filter lets every
/// name through, a filter those that it lists.
pub open spec fn name_allowed(name: Seq<char>, filter: Option<Seq<String>>) -> bool {
    match filter {
        Some(names) => listed(names, name),
        None => true,
    }
}

/// Whether the filter lets the name through.
pub fn allows_name(name: &String, filter: Option<&[String]>) -> (r: bool)
    ensures
        r == name_allowed(name@, names_of(filter)),
{
    match filter {
        None => true,
        Some(names) => {
            let mut k: usize = 0;
            while k < names.len()
                invariant
                    k <= names@.len(),
                    names_of(filter) == Some(names@),
                    forall|j: int| 0 <= j < k ==> (#[trigger] names@[j])@ != name@,
                decreases names@.len() - k,
            {
                if names[k] == *name {
                    assert(names@[k as int]@ == name@);
                    return true;
                }
                k = k + 1;
            }
            false
        },
    }
}

/// The positions of the repositories that are kept: those whose name the
/// filter lets through and which were found on disk, in their order.
pub open spec fn kept(repos: Seq<RepoConfig>, filter: Option<Seq<String>>, found: Seq<bool>) -> Seq<
    int,
>
    decreases repos.len(),
{
    if repos.len() == 0 {
        Seq::empty()
    } else {
        let before = kept(repos.drop_last(), filter, found);
        let last = repos.len() - 1;
        if name_allowed(repos.last().name@, filter) && last < found.len() && found[last] {
            before.push(last)
        } else {
            before
        }
    }
}

/// The kept repositories are positions of `repos`, in ascending order.
pub proof fn lemma_kept(repos: Seq<RepoConfig>, filter: Option<Seq<String>>, found: Seq<bool>)
    ensures
        kept(repos, filter, found).len() <= repos.len(),
        forall|j: int|
            0 <= j < kept(repos, filter, found).len() ==> {
                let at = #[trigger] kept(repos, filter, found)[j];
                &&& 0 <= at < repos.len()
                &&& at < found.len() && found[at]
                &&& name_allowed(repos[at].name@, filter)
            },
        forall|i: int, j: int|
            0 <= i < j < kept(repos, filter, found).len() ==> kept(repos, filter, found)[i] < kept(
                repos,
                filter,
                found,
            )[j],
    decreases repos.len(),
{
    if repos.len() > 0 {
        let front = repos.drop_last();
        lemma_kept(front, filter, found);
        let before = kept(front, filter, found);
        let all = kept(repos, filter, found);
        assert forall|j: int| 0 <= j < all.len() implies {
            let at = #[trigger] all[j];
            &&& 0 <= at < repos.len()
            &&& at < found.len() && found[at]
            &&& name_allowed(repos[at].name@, filter)
        } by {
            if j < before.len() {
                assert(all[j] == before[j]);
                assert(front[before[j]] == repos[before[j]]);
            }
        }
        assert forall|i: int, j: int| 0 <= i < j < all.len() implies all[i] < all[j] by {
            assert(all[i] == before[i]);
            if j < before.len() {
                assert(all[j] == before[j]);
            }
        }
    }
}

/// The repositories whose name the filter lets through and which were
/// found on disk (`found`, one answer for each repository), each with the
/// path that stands for it in `paths`, in the order of `repos`.
pub fn pick_repos(
    repos: &[RepoConfig],
    filter: Option<&[String]>,
    paths: &Vec<String>,
    found: &Vec<bool>,
) -> (r: Vec<RepoInfo>)
    requires
        paths@.len() == repos@.len(),
        found@.len() == repos@.len(),
    ensures
        r@.len() == kept(repos@, names_of(filter), found@).len(),
        forall|j: int|
            0 <= j < r@.len() ==> {
                let at = kept(repos@, names_of(filter), found@)[j];
                &&& (#[trigger] r@[j]).name == repos@[at].name
                &&& r@[j].branch == repos@[at].branch
                &&& r@[j].path == paths@[at]
            },
{
    let mut out: Vec<RepoInfo> = Vec::new();
    let mut i: usize = 0;
    proof {
        assert(repos@.take(0) =~= Seq::<RepoConfig>::empty());
    }
    while i < repos.len()
        invariant
            i <= repos@.len(),
            paths@.len() == repos@.len(),
            found@.len() == repos@.len(),
            out@.len() == kept(repos@.take(i as int), names_of(filter), found@).len(),
            forall|j: int|
                0 <= j < out@.len() ==> {
                    let at = kept(repos@.take(i as int), names_of(filter), found@)[j];
                    &&& 0 <= at < i
                    &&& (#[trigger] out@[j]).name == repos@[at].name
                    &&& out@[j].branch == repos@[at].branch
                    &&& out@[j].path == paths@[at]
                },
        decreases repos@.len() - i,
    {
        let repo = &repos[i];
        proof {
            let next = repos@.take(i + 1);
            assert(next.drop_last() =~= repos@.take(i as int));
            assert(next.last() == *repo);
        }
        if allows_name(&repo.name, filter) && found[i] {
            out.push(
                RepoInfo {
                    path: paths[i].clone(),
                    name: repo.name.clone(),
                    branch: repo.branch.clone(),
                },
            );
        }
        i = i + 1;
    }
    assert(repos@.take(i as int) =~= repos@);
    out
}

/// Whether a repository seems to be at the path: the path is there, and
/// in it `.git` or, for a bare repository, `HEAD`. The disk gives the three
/// answers; [`is_repository`] draws the conclusion.
fn looks_like_repository(path: &str) -> bool {
    let there = path_exists(path);
    let work_tree = path_exists(join_path(path, ".git").as_str());
    let bare = path_exists(join_path(path, "HEAD").as_str());
    is_repository(there, work_tree, bare)
}

/// Whether what the disk holds at a path is a repository: the path is
/// there (`there`), and in it `.git` (`work_tree`) or, for a bare
/// repository, `HEAD` (`bare`).
pub fn is_repository(there: bool, work_tree: bool, bare: bool) -> (r: bool)
    ensures
        r == (there && (work_tree || bare)),
{
    there && (work_tree || bare)
}

/// The configured repositories that are analysed: those whose name the
/// filter lets through and at whose path, with `~` expanded, a repository
/// is found on disk. The disk is asked only about repositories that pass
/// the filter.
pub fn filter_and_validate_repos(repos: &[RepoConfig], filter: Option<&[String]>) -> (r: Vec<
    RepoInfo,
>)
    ensures
        exists|found: Seq<bool>|
            found.len() == repos@.len() && r@.len() == (#[trigger] kept(
                repos@,
                names_of(filter),
                found,
            )).len() && forall|j: int|
                0 <= j < r@.len() ==> {
                    let at = kept(repos@, names_of(filter), found)[j];
                    &&& (#[trigger] r@[j]).name == repos@[at].name
                    &&& r@[j].branch == repos@[at].branch
                },
        r@.len() <= repos@.len(),
{
    let mut paths: Vec<String> = Vec::new();
    let mut found: Vec<bool> = Vec::new();
    let mut i: usize = 0;
    while i < repos.len()
        invariant
            i <= repos@.len(),
            paths@.len() == i,
            found@.len() == i,
        decreases repos@.len() - i,
    {
        let repo = &repos[i];
        if allows_name(&repo.name, filter) {
            let path = expand_tilde(repo.path.as_str());
            let there = looks_like_repository(path.as_str());
            paths.push(path);
            found.push(there);
        } else {
            paths.push(repo.path.clone());
            found.push(false);
        }
        i = i + 1;
    }
    let out = pick_repos(repos, filter, &paths, &found);
    proof {
        lemma_kept(repos@, names_of(filter), found@);
    }
    out
}

/// The repository at a path that the user named: `~` is expanded, and the
/// name is the last part of the path.
pub fn repo_at(path: &str, branch: Option<String>) -> (r: RepoInfo)
    ensures
        r.name@ == shown_name(r.path@),
        r.branch == branch,
        !(path@.len() > 0 && path@[0] == '~') ==> r.path@ == path@,
{
    let expanded = expand_tilde(path);
    let name = repository_name(expanded.as_str());
    RepoInfo { path: expanded, name, branch }
}

} // verus!
