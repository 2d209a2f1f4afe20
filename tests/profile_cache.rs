use envoluntary::profile_cache::{
    get_path, hash_files, hash_flake_reference, store_path, CacheError, EvaluationMode, FlakeReference,
    NixProfileCache,
};
use envoluntary::shell::get_cache_sub_dir;
use sha1::Digest;

fn test_file() -> Vec<u8> {
    b"echo \"1.1.1\";\n".to_vec()
}

#[test]
fn test_hash_one() {
    assert_eq!(
        hash_files(&vec![Some(test_file())]).unwrap(),
        "6ead949bf4bcae230b9ed9cd11e578e34ce9f9ea"
    );
}

#[test]
fn test_hash_multiple() {
    assert_eq!(
        hash_files(&vec![Some(test_file()), Some(test_file())]).unwrap(),
        "f109b7892a541ed1e3cf39314cd25d21042b984f"
    );
}

#[test]
fn test_hash_filters_nonexistent() {
    assert_eq!(
        hash_files(&vec![Some(test_file()), None]).unwrap(),
        "6ead949bf4bcae230b9ed9cd11e578e34ce9f9ea"
    );
}

#[test]
fn hash_ignores_where_missing_files_stand() {
    let a = hash_files(&vec![None, Some(test_file()), None]).unwrap();
    let b = hash_files(&vec![Some(test_file()), None, None]).unwrap();
    assert_eq!(a, b);
    assert_eq!(a, hash_files(&vec![Some(test_file())]).unwrap());
}

#[test]
fn hash_fails_when_no_file_exists() {
    assert_eq!(hash_files(&vec![None, None, None]), Err(CacheError::NoFilesToHash));
    assert_eq!(hash_files(&vec![]), Err(CacheError::NoFilesToHash));
}

#[test]
fn test_get_path_removes_prefix() {
    assert_eq!(get_path("aaaaaaaaaaabbbbb"), "bbbbb");
    assert_eq!(get_path("/nix/store/"), "/nix/store/");
}

#[test]
fn shell_print_cache_path_outputs_valid_path() {
    let flake_reference = "github:owner/repo";
    assert_eq!(
        get_cache_sub_dir("/cache/dir", flake_reference),
        format!("/cache/dir/{:x}", sha1::Sha1::digest(flake_reference))
    );
}

#[test]
fn flake_reference_kinds() {
    for r in ["path:/x", "~/x", "/x", "./x", "../x"] {
        assert!(FlakeReference::is_path_type(r), "{r}");
    }
    for r in ["github:owner/repo", "x", ".x", "", "path"] {
        assert!(!FlakeReference::is_path_type(r), "{r}");
    }
}

#[test]
fn flake_reference_parse_keeps_remote_and_strips_path_prefix() {
    let remote = FlakeReference::parse("github:owner/repo#dev").unwrap();
    assert_eq!(remote.flake_reference_string, "github:owner/repo#dev");
    assert_eq!(remote.flake_dir, None);

    let local = FlakeReference::parse("path:/some/flake#shell").unwrap();
    assert_eq!(local.flake_reference_string, "/some/flake#shell");
    assert_eq!(local.flake_dir, Some("/some/flake".to_string()));
    assert_eq!(
        local.files_to_watch(),
        vec![
            "/some/flake/flake.nix".to_string(),
            "/some/flake/flake.lock".to_string(),
            "/some/flake/devshell.toml".to_string()
        ]
    );
}

fn local_cache(mode: EvaluationMode) -> NixProfileCache {
    let flake = FlakeReference::parse("/work/flake").unwrap();
    NixProfileCache::new("/cache".to_string(), flake, mode, &vec![Some(b"{}".to_vec()), None, None]).unwrap()
}

#[test]
fn cache_entry_paths() {
    let cache = local_cache(EvaluationMode::Impure);
    assert_eq!(cache.flake_inputs_dir, "/cache/flake-inputs");
    assert_eq!(
        cache.profile_symlink,
        "/cache/flake-profile-bf21a9e8fbc5a3846fb05b4fa0859e0917b2202f"
    );
    assert_eq!(
        cache.profile_rc(),
        "/cache/flake-profile-bf21a9e8fbc5a3846fb05b4fa0859e0917b2202f.rc"
    );
    let remote = NixProfileCache::new(
        "/cache/".to_string(),
        FlakeReference::parse("github:owner/repo").unwrap(),
        EvaluationMode::Pure,
        &vec![],
    )
    .unwrap();
    assert_eq!(
        remote.profile_symlink,
        format!("/cache/flake-profile-{}", hash_flake_reference("github:owner/repo"))
    );
    assert!(remote.files_to_watch.is_empty());
}

#[test]
fn cache_entry_of_local_flake_without_files_fails() {
    let flake = FlakeReference::parse("/work/flake").unwrap();
    let r = NixProfileCache::new("/cache".to_string(), flake, EvaluationMode::Pure, &vec![None, None, None]);
    assert_eq!(r.unwrap_err(), CacheError::NoFilesToHash);
}

#[test]
fn nix_command_arguments() {
    let cache = local_cache(EvaluationMode::Impure);
    let tmp = cache.tmp_profile("42");
    assert_eq!(tmp, "/cache/flake-tmp-profile.42");
    assert_eq!(
        cache.print_dev_env_args(&tmp),
        vec!["print-dev-env", "--impure", "--no-write-lock-file", "--profile", "/cache/flake-tmp-profile.42", "/work/flake"]
    );
    assert_eq!(
        cache.build_args("/cache/link", "/nix/store/x"),
        vec!["build", "--impure", "--out-link", "/cache/link", "/nix/store/x"]
    );
    assert_eq!(
        cache.flake_archive_args(),
        vec!["flake", "archive", "--impure", "--json", "--no-write-lock-file", "/work/flake"]
    );
    let pure = local_cache(EvaluationMode::Pure);
    assert_eq!(pure.build_args("l", "i"), vec!["build", "--out-link", "l", "i"]);
    assert_eq!(
        cache.input_gcroot("yfzmnk75f009yb7b542kf4r7qaqq9kid-source"),
        "/cache/flake-inputs/yfzmnk75f009yb7b542kf4r7qaqq9kid-source"
    );
    assert_eq!(store_path("abc-source"), "/nix/store/abc-source");
}

#[test]
fn cache_hit_until_a_watched_file_changes() {
    let cache = local_cache(EvaluationMode::Pure);
    // Nothing built yet.
    assert!(cache.needs_update(None, false, &vec![Some(10), None, None]));
    // After an update the script is newer than every watched file.
    assert!(!cache.needs_update(Some(100), true, &vec![Some(10), None, None]));
    assert!(!cache.needs_update(Some(100), true, &vec![Some(100), None, None]));
    // A watched file written after the script makes the entry stale.
    assert!(cache.needs_update(Some(100), true, &vec![Some(10), Some(101), None]));
    // So does a missing profile link.
    assert!(cache.needs_update(Some(100), false, &vec![Some(10), None, None]));
}

#[test]
fn home_in_a_local_reference_is_expanded() {
    let parsed = FlakeReference::parse("~/flake#dev").unwrap();
    let dir = parsed.flake_dir.clone().unwrap();
    assert!(!dir.starts_with('~'));
    assert!(dir.ends_with("/flake"));
    assert_eq!(parsed.flake_reference_string, format!("{dir}#dev"));
}

#[test]
fn cache_profile_is_keyed_by_the_reference_as_written() {
    let parsed = FlakeReference::parse("path:/work/flake").unwrap();
    let (cache, update) = envoluntary::shell::get_cache_profile(
        "/cache",
        "path:/work/flake",
        parsed,
        false,
        None,
        Some(true),
        &vec![Some(b"{}".to_vec()), None, None],
        Some(5),
        true,
        &vec![Some(4), None, None],
    )
    .unwrap();
    assert_eq!(cache.cache_dir, get_cache_sub_dir("/cache", "path:/work/flake"));
    assert_eq!(cache.evaluation_mode, EvaluationMode::Impure);
    assert!(!update);
    let parsed = FlakeReference::parse("github:o/r").unwrap();
    let (_, update) = envoluntary::shell::get_cache_profile(
        "/cache", "github:o/r", parsed, true, None, None, &vec![], Some(5), true, &vec![],
    )
    .unwrap();
    assert!(update);
}

fn node(path: &str, inputs: Vec<usize>) -> envoluntary::flake_archive::ArchiveNode {
    envoluntary::flake_archive::ArchiveNode { path: Some(path.to_string()), inputs }
}

#[test]
fn test_get_paths_from_doc() {
    // {"path": "aaaaaaaaaaabbbbb", "inputs": {"foo": {"path": "aaaaaaaaaaaccccc",
    //   "inputs": {"bar": {"path": "aaaaaaaaaaaddddd", "inputs": {}}}}}}
    let input = vec![
        node("aaaaaaaaaaabbbbb", vec![1]),
        node("aaaaaaaaaaaccccc", vec![2]),
        node("aaaaaaaaaaaddddd", vec![]),
    ];
    let result = envoluntary::flake_archive::get_paths_from_doc(&input);
    assert_eq!(
        result,
        vec![
            "bbbbb".to_string(),
            "ccccc".to_string(),
            "ddddd".to_string()
        ]
    );
}

#[test]
fn archive_walk_is_pre_order_and_skips_backward_inputs() {
    let input = vec![
        envoluntary::flake_archive::ArchiveNode { path: None, inputs: vec![1, 3] },
        node("/nix/store/a-src", vec![2, 0]),
        node("/nix/store/b-src", vec![]),
        node("/nix/store/c-src", vec![]),
    ];
    assert_eq!(
        envoluntary::flake_archive::get_paths_from_doc(&input),
        vec!["a-src".to_string(), "b-src".to_string(), "c-src".to_string()]
    );
    assert!(envoluntary::flake_archive::get_paths_from_doc(&vec![]).is_empty());
}
