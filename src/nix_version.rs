//! The `nix` version probe: find the version in `nix --version`'s output and
//! require one recent enough for flakes.
use crate::config::{opt_str, regex_find, regex_found, regex_valid};
use vstd::prelude::*;
use vstd::string::{StrSliceExecFns, StringExecFns};

verus! {

/// The version token looked for in `nix --version`'s output.
pub const SEMVER_PATTERN: &'static str = r"([0-9]+\.[0-9]+\.[0-9]+)";

/// The oldest `nix` with the flake commands this tool uses.
pub const REQUIRED_NIX_VERSION: &'static str = ">=2.10.0";

/// What `semver` says of a version against a requirement: `None` when either
/// does not parse, else whether the version satisfies the requirement.
pub uninterp spec fn semver_satisfies(requirement: Seq<char>, version: Seq<char>) -> Option<bool>;

/// Relies on `semver::VersionReq::parse`, `semver::Version::parse` and
/// `semver::VersionReq::matches`.
#[verifier::external_body]
fn version_satisfies(requirement: &str, version: &str) -> (r: Option<bool>)
    ensures
        r == semver_satisfies(requirement@, version@),
{
    match (semver::VersionReq::parse(requirement), semver::Version::parse(version)) {
        (Ok(req), Ok(v)) => Some(req.matches(&v)),
        _ => None,
    }
}

/// Why `nix` is not usable.
#[derive(Debug, Clone, Copy, PartialEq, Eq, Structural)]
pub enum NixVersionError {
    /// `nix --version` printed nothing.
    EmptyOutput,
    /// No `x.y.z` version in the output.
    MissingSemver,
    /// The version found is not a valid semantic version.
    InvalidSemver,
    /// The version is older than the required one.
    TooOld,
}

impl NixVersionError {
    /// The message shown for the error.
    pub fn message(&self) -> (r: String)
        ensures
            r@ == match self {
                NixVersionError::EmptyOutput => "`nix --version` failed to execute."@,
                NixVersionError::MissingSemver => "SemVer from `nix --version` could not be found."@,
                NixVersionError::InvalidSemver => "SemVer from `nix --version` is not valid."@,
                NixVersionError::TooOld => "`nix` version too old for flakes."@,
            },
    {
        match self {
            NixVersionError::EmptyOutput => String::from_str("`nix --version` failed to execute."),
            NixVersionError::MissingSemver => String::from_str("SemVer from `nix --version` could not be found."),
            NixVersionError::InvalidSemver => String::from_str("SemVer from `nix --version` is not valid."),
            NixVersionError::TooOld => String::from_str("`nix` version too old for flakes."),
        }
    }
}

/// The verdict on some output of `nix --version`.
pub open spec fn version_verdict(stdout: Seq<char>) -> Result<(), NixVersionError> {
    if stdout.len() == 0 {
        Err(NixVersionError::EmptyOutput)
    } else if !regex_valid(SEMVER_PATTERN@) {
        Err(NixVersionError::MissingSemver)
    } else {
        match regex_found(SEMVER_PATTERN@, stdout) {
            None => Err(NixVersionError::MissingSemver),
            Some(token) => match semver_satisfies(REQUIRED_NIX_VERSION@, token) {
                None => Err(NixVersionError::InvalidSemver),
                Some(true) => Ok(()),
                Some(false) => Err(NixVersionError::TooOld),
            },
        }
    }
}

/// Checks the output of `nix --version`: it must not be empty, must hold an
/// `x.y.z` version, and that version must be at least 2.10.0.
pub fn check_nix_version_output(stdout: &str) -> (r: Result<(), NixVersionError>)
    ensures
        r == version_verdict(stdout@),
{
    if stdout.unicode_len() == 0 {
        return Err(NixVersionError::EmptyOutput);
    }
    match regex_find(SEMVER_PATTERN, stdout) {
        None => Err(NixVersionError::MissingSemver),
        Some(token) => match version_satisfies(REQUIRED_NIX_VERSION, token.as_str()) {
            None => Err(NixVersionError::InvalidSemver),
            Some(true) => Ok(()),
            Some(false) => Err(NixVersionError::TooOld),
        },
    }
}

} // verus!
