//! Configuration of the repositories to analyse.

pub mod loader;
pub mod schema;

pub use loader::{default_config_path, expand_tilde, validate};
pub use schema::{Config, Defaults, RepoConfig};
