//! The decisions of a release tool for Cargo workspaces.
//!
//! Every function here computes on plain values. Reading files, running `git` and
//! `cargo`, and talking to a registry is left to the caller, which hands the outcome
//! of each such operation back to the library.

pub mod cargo;
pub mod copied_directory;
pub mod copied_walk;
pub mod copy_dir;
pub mod copy_entry;
pub mod copy_tracked;
pub mod fake_package;
pub mod file_system;
pub mod git_only;
pub mod lockfile;
pub mod manifest;
pub mod name_map;
pub mod next_ver;
pub mod next_versions;
pub mod package;
pub mod package_dependencies;
pub mod path;
pub mod registry_fetch;
pub mod registry_init;
pub mod registry_packages;
pub mod scaffold;
pub mod semver_check;
pub mod text;
pub mod toml_tree;
pub mod tracked_fates;
pub mod update_request;
pub mod vcs_info;
pub mod workspace;
