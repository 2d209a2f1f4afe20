use envoluntary::nix_version::{check_nix_version_output, NixVersionError};

#[test]
fn test_error_on_empty_stdout() {
    assert_eq!(
        check_nix_version_output("").unwrap_err().message(),
        "`nix --version` failed to execute."
    );
}

#[test]
fn test_error_on_missing_semver() {
    assert_eq!(
        check_nix_version_output("hello\n").unwrap_err().message(),
        "SemVer from `nix --version` could not be found."
    );
}

#[test]
fn test_error_on_too_old_version() {
    assert_eq!(
        check_nix_version_output("nix (Nix) 0.0.0\n").unwrap_err().message(),
        "`nix` version too old for flakes."
    );
}

#[test]
fn test_version_matches_minimum() {
    check_nix_version_output("nix (Nix) 2.10.0\n").unwrap();
}

#[test]
fn test_version_matches_newer() {
    check_nix_version_output("nix (Nix) 2.30.0\n").unwrap();
}

#[test]
fn version_just_below_minimum_is_too_old() {
    assert_eq!(check_nix_version_output("nix (Nix) 2.9.99"), Err(NixVersionError::TooOld));
    assert_eq!(check_nix_version_output("nix (Nix) 01.2.3"), Err(NixVersionError::InvalidSemver));
}
