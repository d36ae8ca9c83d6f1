//! Where configurations are found, and which of them can be used.
//!
//! Paths are texts here. What the file system and the environment say of
//! them comes through a few small functions of their own; how paths are put
//! together is left to `std::path` and appears in contracts under the name
//! [`joined_path`].

use crate::config::schema::Config;
use crate::error::StatsError;
use crate::text::chars_of;
use vstd::prelude::*;

verus! {

/// The path `rest` taken from the directory `base`, as `std::path` puts
/// the two together.
pub uninterp spec fn joined_path(base: Seq<char>, rest: Seq<char>) -> Seq<char>;

/// Calls `std::path::Path::join` on two texts. The result is named
/// [`joined_path`].
#[verifier::external_body]
pub(crate) fn join_path(base: &str, rest: &str) -> (r: String)
    ensures
        r@ == joined_path(base@, rest@),
{
    std::path::Path::new(base).join(rest).to_string_lossy().into_owned()
}

/// Calls `dirs::home_dir`: the home directory of the user, if the
/// environment tells it. Nothing is claimed of the value.
#[verifier::external_body]
fn home_dir() -> Option<String> {
    dirs::home_dir().map(|p| p.to_string_lossy().into_owned())
}

/// Calls `dirs::config_dir`: the directory for configurations on this
/// platform, if the environment tells it. Nothing is claimed of the value.
#[verifier::external_body]
fn config_dir() -> Option<String> {
    dirs::config_dir().map(|p| p.to_string_lossy().into_owned())
}

/// Calls `std::path::Path::exists`: whether something is there on disk at
/// the path. Nothing is claimed of the answer.
#[verifier::external_body]
pub(crate) fn path_exists(path: &str) -> bool {
    std::path::Path::new(path).exists()
}

/// The views of an optional text.
pub open spec fn text_of(value: Option<&str>) -> Option<Seq<char>> {
    match value {
        Some(text) => Some(text@),
        None => None,
    }
}

/// A path with a leading `~` replaced by the home directory: `~` alone
/// is the home directory, `~/rest` is `rest` taken from it. Every other
/// path stays as it is, and so does every path where no home directory is
/// known.
pub open spec fn expanded(path: Seq<char>, home: Option<Seq<char>>) -> Seq<char> {
    match home {
        Some(dir) => {
            if path == seq!['~'] {
                dir
            } else if path.len() >= 2 && path[0] == '~' && path[1] == '/' {
                joined_path(dir, path.subrange(2, path.len() as int))
            } else {
                path
            }
        },
        None => path,
    }
}

/// The configuration file below a home directory:
/// `.config/git-stats/config.json`.
pub open spec fn xdg_path(home: Seq<char>) -> Seq<char> {
    joined_path(joined_path(joined_path(home, ".config"@), "git-stats"@), "config.json"@)
}

/// The configuration file below the platform's directory for
/// configurations: `git-stats/config.json`.
pub open spec fn platform_path(dir: Seq<char>) -> Seq<char> {
    joined_path(joined_path(dir, "git-stats"@), "config.json"@)
}

/// Expands a leading `~` with the given home directory (see [`expanded`]).
pub fn expand_tilde_with(path: &str, home: Option<&str>) -> (r: String)
    ensures
        r@ == expanded(path@, text_of(home)),
{
    match home {
        None => String::from_str(path),
        Some(dir) => {
            let chars = chars_of(path);
            let n = chars.len();
            if n == 1 && chars[0] == '~' {
                assert(path@ =~= seq!['~']);
                String::from_str(dir)
            } else if n >= 2 && chars[0] == '~' && chars[1] == '/' {
                assert(path@ != seq!['~']);
                let rest = path.substring_char(2, n);
                join_path(dir, rest)
            } else {
                assert(path@ == seq!['~'] ==> path@.len() == 1 && path@[0] == '~');
                String::from_str(path)
            }
        },
    }
}

/// Expands a leading `~` with the home directory of the user. A path
/// that does not begin with `~` comes back as it is.
pub fn expand_tilde(path: &str) -> (r: String)
    ensures
        exists|home: Option<Seq<char>>| r@ == expanded(path@, home),
        !(path@.len() > 0 && path@[0] == '~') ==> r@ == path@,
{
    let home = home_dir();
    let r = match &home {
        Some(dir) => expand_tilde_with(path, Some(dir.as_str())),
        None => expand_tilde_with(path, None),
    };
    proof {
        let known: Option<Seq<char>> = match home {
            Some(dir) => Some(dir@),
            None => None,
        };
        assert(r@ == expanded(path@, known));
        if path@ == seq!['~'] {
            assert(path@[0] == '~');
        }
    }
    r
}

/// The configuration file below a home directory.
pub fn xdg_config_path(home: &str) -> (r: String)
    ensures
        r@ == xdg_path(home@),
{
    let config = join_path(home, ".config");
    let own = join_path(config.as_str(), "git-stats");
    join_path(own.as_str(), "config.json")
}

/// The configuration file below the platform's directory for
/// configurations.
pub fn platform_config_path(dir: &str) -> (r: String)
    ensures
        r@ == platform_path(dir@),
{
    let own = join_path(dir, "git-stats");
    join_path(own.as_str(), "config.json")
}

/// Where the configuration is looked for: the file below the home
/// directory if it is there, else the file below the platform's directory
/// for configurations, whether or not it is there.
pub fn default_config_path() -> (r: Option<String>)
    ensures
        r matches Some(path) ==> exists|dir: Seq<char>|
            path@ == xdg_path(dir) || path@ == platform_path(dir),
{
    let home = home_dir();
    let xdg = match &home {
        Some(dir) => Some(xdg_config_path(dir.as_str())),
        None => None,
    };
    let there = match &xdg {
        Some(path) => path_exists(path.as_str()),
        None => false,
    };
    let platform_dir = config_dir();
    let platform = match &platform_dir {
        Some(dir) => Some(platform_config_path(dir.as_str())),
        None => None,
    };
    let ghost candidates = (xdg, platform);
    let chosen = choose_config_path(xdg, there, platform);
    proof {
        if chosen is Some {
            if candidates.0 is Some && there {
                assert(chosen->0@ == xdg_path(home->0@));
            } else {
                assert(chosen->0@ == platform_path(platform_dir->0@));
            }
        }
    }
    chosen
}

/// The choice between the two places of a configuration: the file below
/// the home directory, where a home directory is known and the file is
/// there; else the file below the platform's directory for configurations,
/// where that directory is known.
pub open spec fn chosen_path(xdg: Option<String>, there: bool, platform: Option<String>) -> Option<
    String,
> {
    if xdg is Some && there {
        xdg
    } else {
        platform
    }
}

/// Chooses between the two places of a configuration (see
/// [`chosen_path`]): `xdg` is the file below the home directory, `there`
/// tells whether it is on disk, `platform` is the file below the platform's
/// directory.
pub fn choose_config_path(xdg: Option<String>, there: bool, platform: Option<String>) -> (r: Option<
    String,
>)
    ensures
        r == chosen_path(xdg, there, platform),
{
    if there && xdg.is_some() {
        xdg
    } else {
        platform
    }
}

/// A configuration can be used if it names at least one repository.
pub fn validate(config: Config) -> (r: Result<Config, StatsError>)
    ensures
        config.repositories@.len() > 0 ==> r == Ok::<Config, StatsError>(config),
        config.repositories@.len() == 0 ==> (r matches Err(StatsError::ConfigInvalid { message })
            && message@ == "No repositories configured"@),
{
    if config.repositories.len() == 0 {
        Err(StatsError::ConfigInvalid { message: String::from_str("No repositories configured") })
    } else {
        Ok(config)
    }
}

} // verus!
