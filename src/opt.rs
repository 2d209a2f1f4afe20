//! The arguments of the command line's subcommands, as plain values.
use crate::shell::EnvoluntaryShell;
use vstd::prelude::*;

verus! {

/// Arguments of `config add-entry`.
#[derive(Debug, Clone)]
pub struct EnvoluntaryConfigAddEntryArgs {
    /// A regular expression matched against directory paths.
    pub pattern: String,
    /// The flake reference to load where the pattern matches.
    pub flake_reference: String,
    /// A regular expression that some file next to the directory, or next to
    /// one of its ancestors, must match.
    pub pattern_adjacent: Option<String>,
    /// Whether to evaluate the flake with `--impure`.
    pub impure: Option<bool>,
    /// The configuration file, instead of the default one.
    pub config_path: Option<String>,
}

/// Arguments of `config print-matching-entries`.
#[derive(Debug, Clone)]
pub struct EnvoluntaryConfigPrintMatchingEntriesArgs {
    /// The directory to match.
    pub path: String,
    /// The configuration file, instead of the default one.
    pub config_path: Option<String>,
}

/// The `shell` subcommands.
#[derive(Debug, Clone)]
pub enum EnvoluntaryShellCommands {
    /// Check that the installed `nix` is recent enough.
    CheckNixVersion,
    /// Print the hook for a shell.
    Hook(EnvoluntaryShellHookArgs),
    /// Print the script that loads the environment of the current directory.
    Export(EnvoluntaryShellExportArgs),
    /// Print where a flake's profile is cached.
    PrintCachePath(EnvoluntaryShellPrintCachePathArgs),
}

/// Arguments of `shell hook`.
#[derive(Debug, Clone, Copy)]
pub struct EnvoluntaryShellHookArgs {
    pub shell: EnvoluntaryShell,
}

/// Arguments of `shell export`.
#[derive(Debug, Clone)]
pub struct EnvoluntaryShellExportArgs {
    /// The shell (or JSON) to write for.
    pub shell: EnvoluntaryShell,
    /// The configuration file, instead of the default one.
    pub config_path: Option<String>,
    /// The cache directory, instead of the default one.
    pub cache_dir: Option<String>,
    /// Flake references to load instead of the matching entries.
    pub flake_references: Option<Vec<String>>,
    /// Whether to evaluate with `--impure`, over what the entries say.
    pub impure: Option<bool>,
    /// Rebuild the profiles even when they are fresh.
    pub force_update: bool,
    /// The directory to match, instead of the working directory.
    pub current_dir: Option<String>,
}

/// Arguments of `shell print-cache-path`.
#[derive(Debug, Clone)]
pub struct EnvoluntaryShellPrintCachePathArgs {
    pub flake_reference: String,
    /// The cache directory, instead of the default one.
    pub cache_dir: Option<String>,
}

} // verus!
