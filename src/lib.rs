//! Per-directory development environments loaded from Nix flakes.
pub mod env_vars;
pub mod strings;
pub mod env_diff;
pub mod shells;
pub mod env_state;
pub mod state;
pub mod shell;
pub mod config;
pub mod profile_cache;
pub mod nix_version;
pub mod opt;
pub mod harvest;
pub mod flake_archive;
