use git_stats::cli::run::{
    allows_name, filter_and_validate_repos, is_repository, pick_repos, repo_at, repository_name,
};
use git_stats::config::loader::{
    choose_config_path, default_config_path, expand_tilde, expand_tilde_with,
    platform_config_path, validate, xdg_config_path,
};
use git_stats::config::{Config, Defaults, RepoConfig};
use git_stats::StatsError;

fn repo(name: &str, path: &str) -> RepoConfig {
    RepoConfig { name: name.to_string(), path: path.to_string(), branch: None }
}

#[test]
fn test_filter_and_validate_repos() {
    // Empty list should return empty
    let repos: Vec<RepoConfig> = vec![];
    let result = filter_and_validate_repos(&repos, None);
    assert!(result.is_empty());
}

#[test]
fn test_expand_tilde_home() {
    let expanded = expand_tilde("~");
    // Should not be "~" anymore if home exists
    if dirs::home_dir().is_some() {
        assert_ne!(expanded, "~");
    }
}

#[test]
fn test_expand_tilde_subpath() {
    let expanded = expand_tilde("~/some/path");
    if let Some(home) = dirs::home_dir() {
        assert_eq!(expanded, home.join("some/path").to_string_lossy());
    }
}

#[test]
fn test_expand_tilde_no_tilde() {
    let path = "/absolute/path";
    let expanded = expand_tilde(path);
    assert_eq!(expanded, path);
}

#[test]
fn test_default_config_path() {
    let path = default_config_path();
    // Should return Some on most systems
    if dirs::config_dir().is_some() {
        assert!(path.is_some());
        let p = path.unwrap();
        assert!(p.contains("git-stats"));
        assert!(p.contains("config.json"));
    }
}

#[test]
fn tilde_is_expanded_with_a_given_home() {
    assert_eq!(expand_tilde_with("~", Some("/home/me")), "/home/me");
    assert_eq!(expand_tilde_with("~/code/repo", Some("/home/me")), "/home/me/code/repo");
    assert_eq!(expand_tilde_with("~/", Some("/home/me")), "/home/me/");
    assert_eq!(expand_tilde_with("~//etc", Some("/home/me")), "/etc");
    assert_eq!(expand_tilde_with("~other/x", Some("/home/me")), "~other/x");
    assert_eq!(expand_tilde_with("a/~/b", Some("/home/me")), "a/~/b");
    assert_eq!(expand_tilde_with("", Some("/home/me")), "");
    assert_eq!(expand_tilde_with("/abs", Some("/home/me")), "/abs");
    assert_eq!(expand_tilde_with("~", None), "~");
    assert_eq!(expand_tilde_with("~/x", None), "~/x");
}

#[test]
fn configuration_files_have_their_places() {
    assert_eq!(xdg_config_path("/home/me"), "/home/me/.config/git-stats/config.json");
    assert_eq!(platform_config_path("/etc/xdg"), "/etc/xdg/git-stats/config.json");
}

#[test]
fn a_configuration_needs_a_repository() {
    let empty = Config { schema: None, repositories: vec![], defaults: Defaults::default() };
    match validate(empty) {
        Err(StatsError::ConfigInvalid { message }) => {
            assert_eq!(message, "No repositories configured")
        }
        other => panic!("unexpected: {:?}", other),
    }
    let one = Config {
        schema: Some("s".to_string()),
        repositories: vec![repo("a", "/x")],
        defaults: Defaults { days: 30, exclude_merges: false },
    };
    let kept = validate(one).unwrap();
    assert_eq!(kept.repositories.len(), 1);
    assert_eq!(kept.repositories[0].name, "a");
    assert_eq!(kept.defaults.days, 30);
    assert_eq!(kept.schema, Some("s".to_string()));
}

#[test]
fn names_pass_a_filter_that_lists_them() {
    let filter = vec!["one".to_string(), "two".to_string()];
    assert!(allows_name(&"one".to_string(), Some(&filter)));
    assert!(allows_name(&"two".to_string(), Some(&filter)));
    assert!(!allows_name(&"three".to_string(), Some(&filter)));
    assert!(!allows_name(&"One".to_string(), Some(&filter)));
    assert!(!allows_name(&"one".to_string(), Some(&[])));
    assert!(allows_name(&"anything".to_string(), None));
}

#[test]
fn repositories_are_picked_in_order() {
    let repos = vec![repo("a", "/a"), repo("b", "/b"), repo("c", "/c"), repo("d", "/d")];
    let paths: Vec<String> = ["/A", "/B", "/C", "/D"].iter().map(|s| s.to_string()).collect();
    let filter = vec!["d".to_string(), "a".to_string(), "b".to_string()];
    let picked = pick_repos(&repos, Some(&filter), &paths, &vec![true, false, true, true]);
    let names: Vec<&str> = picked.iter().map(|r| r.name.as_str()).collect();
    assert_eq!(names, vec!["a", "d"]);
    assert_eq!(picked[0].path, "/A");
    assert_eq!(picked[1].path, "/D");
    let all = pick_repos(&repos, None, &paths, &vec![true; 4]);
    assert_eq!(all.len(), 4);
    let none = pick_repos(&repos, None, &paths, &vec![false; 4]);
    assert!(none.is_empty());
}

#[test]
fn repositories_that_are_not_on_disk_are_left_out() {
    let mut with_branch = repo("here", "/");
    with_branch.branch = Some("main".to_string());
    let repos = vec![repo("gone", "/nonexistent/path/to/repo"), with_branch];
    let found = filter_and_validate_repos(&repos, None);
    assert!(found.iter().all(|r| r.name != "gone"));
    let filter = vec!["gone".to_string()];
    assert!(filter_and_validate_repos(&repos, Some(&filter)).is_empty());
}

#[test]
fn repositories_are_named_after_their_directory() {
    assert_eq!(repository_name("/tmp/test-repo"), "test-repo");
    assert_eq!(repository_name("/tmp/test-repo/"), "test-repo");
    assert_eq!(repository_name("relative"), "relative");
    assert_eq!(repository_name("/"), "repository");
    assert_eq!(repository_name(".."), "repository");
    assert_eq!(repository_name(""), "repository");
    let info = repo_at("/tmp/test-repo", Some("dev".to_string()));
    assert_eq!(info.path, "/tmp/test-repo");
    assert_eq!(info.name, "test-repo");
    assert_eq!(info.branch, Some("dev".to_string()));
}

#[test]
fn the_file_below_home_is_preferred_where_it_is_there() {
    let xdg = || Some("/home/me/.config/git-stats/config.json".to_string());
    let platform = || Some("/etc/xdg/git-stats/config.json".to_string());
    assert_eq!(choose_config_path(xdg(), true, platform()), xdg());
    assert_eq!(choose_config_path(xdg(), false, platform()), platform());
    assert_eq!(choose_config_path(None, true, platform()), platform());
    assert_eq!(choose_config_path(None, false, platform()), platform());
    assert_eq!(choose_config_path(xdg(), true, None), xdg());
    assert_eq!(choose_config_path(xdg(), false, None), None);
    assert_eq!(choose_config_path(None, false, None), None);
}

#[test]
fn a_repository_is_a_path_with_git_or_head_in_it() {
    assert!(is_repository(true, true, false));
    assert!(is_repository(true, false, true));
    assert!(is_repository(true, true, true));
    assert!(!is_repository(true, false, false));
    assert!(!is_repository(false, true, true));
    assert!(!is_repository(false, false, false));
}
