//! Dependency tracking for a per-project environment provisioner: which
//! resources are required by which working directories, how that state is
//! committed to a shared cache, and which release artifact fits a version
//! constraint and a platform.

pub mod clock;
pub mod config_value;
pub mod consumers;
pub mod github_release;
pub mod homebrew;
pub mod homebrew_checks;
pub mod homebrew_config;
pub mod path_repo_updates;
pub mod pattern;
pub mod registry;
pub mod store;
pub mod string_map;
pub mod text;
pub mod version;
