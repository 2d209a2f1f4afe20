use envoluntary::config::{get_cache_dir, get_config_path, ConfigEntry, ConfigError, EnvoluntaryConfig};
use envoluntary::env_state::{EnvStateError, EnvoluntaryEnvState};
use envoluntary::env_vars::{EnvVars, EnvVarsState};
use envoluntary::shell::{
    configs_from_references, evaluation_mode, get_export_env_vars_state, get_export_env_vars_states,
    get_new_env_vars, hook_script, plan_export, print_export, Config, EnvoluntaryShell, ExportPlan, HookError,
};
use envoluntary::profile_cache::EvaluationMode;
use envoluntary::state::{CurrentDirState, GetEnvStateVar, MatchRcs, ShellPromptState};

fn vars(pairs: &[(&str, &str)]) -> EnvVars {
    EnvVars::from_iter(pairs.iter().map(|(k, v)| (k.to_string(), v.to_string())).collect())
}

fn test_config() -> EnvoluntaryConfig {
    let c = EnvoluntaryConfig::new();
    let c = c.add_entry(
        ConfigEntry::new("^/some/dir(/.*)?".to_string(), "github:owner/repo".to_string(), None, None).unwrap(),
    );
    c.add_entry(
        ConfigEntry::new(
            "^/some/other/dir(/.*)?".to_string(),
            "github:other_github_owner/repo".to_string(),
            None,
            None,
        )
        .unwrap(),
    )
}

fn matched(dir: &str) -> MatchRcs<Config> {
    let current = ShellPromptState::get_current_dir(Some(dir.to_string()), None).unwrap();
    let rcs = test_config()
        .matching_entries(&current.current_dir, None, &vec![])
        .into_iter()
        .map(|e| e.config)
        .collect();
    current.match_rcs(rcs)
}

/// What a flake whose script sets `FAKE_VAR=true` changes.
fn fake_updates() -> envoluntary::shell::EnvVarUpdates {
    let path = "/usr/bin".to_string();
    let bash = vars(&[("PATH", "/usr/bin"), ("FAKE_VAR", "true"), ("PWD", "/"), ("SHLVL", "1"), ("_", "/usr/bin/env")]);
    let process = vars(&[("PATH", "/usr/bin"), ("HOME", "/home/u")]);
    get_new_env_vars(bash, process, Some(path))
}

/// What loading one flake whose script sets `FAKE_VAR=true` exports.
fn flake_export(flake_reference: &str) -> EnvVarsState {
    get_export_env_vars_states(&vec![(flake_reference.to_string(), fake_updates())])
}

fn lines(s: &str) -> Vec<&str> {
    s.split('\n').filter(|l| !l.is_empty()).collect()
}

fn installed_state(flake_reference: &str) -> EnvoluntaryEnvState {
    EnvoluntaryEnvState {
        flake_references: vec![flake_reference.to_string()],
        env_vars_reset: EnvVarsState::from_iter(vec![
            ("FAKE_VAR".to_string(), None),
            ("ENVOLUNTARY_ENV_STATE".to_string(), None),
        ]),
    }
}

#[test]
fn config_print_path_outputs_valid_path() {
    assert_eq!(
        get_config_path(None, None, Some("/some/path".to_string())).unwrap(),
        "/some/path/.config/envoluntary/config.toml"
    );
    assert_eq!(
        get_config_path(None, Some("/some/other/path/.config".to_string()), Some("/some/path".to_string())).unwrap(),
        "/some/other/path/.config/envoluntary/config.toml"
    );
}

#[test]
fn config_and_cache_paths_fall_back_and_fail_without_home() {
    assert_eq!(get_config_path(Some("/x.toml".to_string()), None, None).unwrap(), "/x.toml");
    assert_eq!(get_config_path(None, None, None), Err(ConfigError::MissingHome));
    assert_eq!(get_cache_dir(None, None, Some("/home/u/".to_string())).unwrap(), "/home/u/.cache/envoluntary");
    assert_eq!(get_cache_dir(None, Some("/xdg".to_string()), None).unwrap(), "/xdg/envoluntary");
    assert_eq!(get_cache_dir(None, None, None), Err(ConfigError::MissingHome));
}

#[test]
fn no_matching_entry_prints_nothing() {
    let m = matched("/no-match");
    assert!(matches!(m, MatchRcs::NoRcs(_)));
    let plan = plan_export(m, None);
    assert!(matches!(plan, ExportPlan::Done));
    assert_eq!(print_export(EnvoluntaryShell::Bash, None, None), "");
}

#[test]
fn initial_enter_exports_flake_vars_and_state() {
    let plan = plan_export(matched("/some/dir"), None);
    let configs = match plan {
        ExportPlan::SetNew(c) => c,
        other => panic!("unexpected plan {other:?}"),
    };
    assert_eq!(configs.len(), 1);
    assert_eq!(configs[0].flake_reference, "github:owner/repo");
    let state = flake_export(&configs[0].flake_reference);
    let out = print_export(EnvoluntaryShell::Bash, None, Some(state));
    assert_eq!(
        lines(&out),
        vec![
            "export FAKE_VAR=true;",
            "export ENVOLUNTARY_ENV_STATE=KLUv/QQ4dQMArAYAeyJmbGFrZV9yZWZlcmVuY2VzIjpbImdpdGh1Yjpvd25lci9yZXBvIl0sImVudl92YXJzX3Jlc2V0Ijp7IkZBS0VfVkFSIjpudWxsLCJFTlZPTFVOVEFSWV9FTlZfU1RBVEUiOm51bGx9fQCbvTM7;",
        ]
    );
}

#[test]
fn changing_to_another_flake_resets_then_exports() {
    let plan = plan_export(matched("/some/other/dir"), Some(installed_state("github:owner/repo")));
    let (reset, configs) = match plan {
        ExportPlan::ResetAndSetNew(r, c) => (r, c),
        other => panic!("unexpected plan {other:?}"),
    };
    let state = flake_export(&configs[0].flake_reference);
    let out = print_export(EnvoluntaryShell::Bash, Some(reset), Some(state));
    let l = lines(&out);
    assert_eq!(l[0], "unset FAKE_VAR;");
    assert_eq!(l[1], "unset ENVOLUNTARY_ENV_STATE;");
    assert_eq!(l[2], "export FAKE_VAR=true;");
    assert!(l[3].starts_with("export ENVOLUNTARY_ENV_STATE="));
    assert_eq!(l.len(), 4);
}

#[test]
fn staying_with_the_same_flake_prints_nothing() {
    let plan = plan_export(matched("/some/other/dir/x"), Some(installed_state("github:other_github_owner/repo")));
    assert!(matches!(plan, ExportPlan::Done));
}

#[test]
fn leaving_all_matches_resets_everything() {
    let plan = plan_export(matched("/"), Some(installed_state("github:owner/repo")));
    let reset = match plan {
        ExportPlan::FullReset(r) => r,
        other => panic!("unexpected plan {other:?}"),
    };
    let out = print_export(EnvoluntaryShell::Bash, Some(reset), None);
    assert_eq!(out, "unset FAKE_VAR;\nunset ENVOLUNTARY_ENV_STATE;\n");
}

#[test]
fn typestate_chain_reaches_each_branch() {
    let dir = ShellPromptState::get_current_dir(None, Some("/cwd".to_string())).unwrap();
    assert_eq!(dir.current_dir, "/cwd");
    assert!(ShellPromptState::get_current_dir(None, None).is_none());
    match dir.clone().match_rcs(Vec::<u8>::new()) {
        MatchRcs::NoRcs(s) => {
            assert!(s.clone().get_env_state_var(None).is_none());
            assert_eq!(s.get_env_state_var(Some("blob".to_string())).unwrap().reset_env_vars(), "blob");
        },
        MatchRcs::Rcs(_) => panic!("no configuration was given"),
    }
    let d = CurrentDirState { current_dir: "/d".to_string() };
    match d.match_rcs(vec![1u8, 2]) {
        MatchRcs::Rcs(s) => {
            match s.clone().get_env_state_var(None) {
                GetEnvStateVar::NoEnvStateVar(n) => assert_eq!(n.set_new_env_state_var(), vec![1, 2]),
                GetEnvStateVar::EnvStateVar(_) => panic!("no state was given"),
            }
            match s.get_env_state_var(Some("b".to_string())) {
                GetEnvStateVar::EnvStateVar(e) => {
                    assert_eq!(e.reset_and_set_new_env_state_var(), (vec![1, 2], "b".to_string()))
                },
                GetEnvStateVar::NoEnvStateVar(_) => panic!("a state was given"),
            }
        },
        MatchRcs::NoRcs(_) => panic!("configurations were given"),
    }
}

#[test]
fn check_files_backwards_walks_all_listings() {
    let listings = vec![vec!["a".to_string()], vec![], vec!["b".to_string(), "flake.nix".to_string()]];
    assert!(ShellPromptState::check_files_backwards(&listings, |s: &String| s == "flake.nix"));
    assert!(!ShellPromptState::check_files_backwards(&listings, |s: &String| s == "c"));
}

#[test]
fn state_blob_decodes_to_its_json() {
    let state = installed_state("github:owner/repo");
    let blob = state.encode();
    let json = EnvoluntaryEnvState::decode_json(&blob).unwrap();
    assert_eq!(
        String::from_utf8(json).unwrap(),
        "{\"flake_references\":[\"github:owner/repo\"],\"env_vars_reset\":{\"FAKE_VAR\":null,\"ENVOLUNTARY_ENV_STATE\":null}}"
    );
    assert_eq!(EnvoluntaryEnvState::decode_json("not base64!").unwrap_err(), EnvStateError::Base64);
    assert_eq!(EnvoluntaryEnvState::decode_json("aGVsbG8=").unwrap_err(), EnvStateError::Zstd);
}

#[test]
fn export_records_old_values_and_merges_path() {
    let bash = vars(&[("PATH", "/flake/bin:/usr/bin"), ("EDITOR", "vim"), ("NEW", "1")]);
    let process = vars(&[("PATH", "/usr/bin:/bin"), ("EDITOR", "nano"), ("PWD", "/x")]);
    let updates = get_new_env_vars(bash, process, Some("/usr/bin:/bin".to_string()));
    assert_eq!(updates.old_env_vars_to_be_updated, vars(&[("PATH", "/usr/bin:/bin"), ("EDITOR", "nano")]));
    assert_eq!(updates.new_env_vars, vars(&[("PATH", "/flake/bin:/usr/bin:/bin"), ("EDITOR", "vim"), ("NEW", "1")]));
    let state = get_export_env_vars_state("f".to_string(), updates);
    assert_eq!(state.len(), 4);
    let (k, v) = state.get_index(3).unwrap();
    assert_eq!(k, "ENVOLUNTARY_ENV_STATE");
    let json = EnvoluntaryEnvState::decode_json(v.as_ref().unwrap()).unwrap();
    assert_eq!(
        String::from_utf8(json).unwrap(),
        "{\"flake_references\":[\"f\"],\"env_vars_reset\":{\"PATH\":\"/usr/bin:/bin\",\"EDITOR\":\"nano\",\"NEW\":null,\"ENVOLUNTARY_ENV_STATE\":null}}"
    );
}

#[test]
fn several_flakes_share_one_state_variable_naming_all() {
    let first = get_new_env_vars(
        vars(&[("A", "1"), ("X", "first"), ("EDITOR", "vim")]),
        vars(&[("EDITOR", "nano"), ("X", "orig")]),
        None,
    );
    let second = get_new_env_vars(vars(&[("B", "2"), ("X", "second")]), vars(&[("EDITOR", "nano"), ("X", "orig")]), None);
    let state = get_export_env_vars_states(&vec![("one".to_string(), first), ("two".to_string(), second)]);
    let keys = (0..state.len()).map(|i| state.get_index(i).unwrap().0.clone()).collect::<Vec<_>>();
    assert_eq!(keys, vec!["A", "X", "EDITOR", "B", "ENVOLUNTARY_ENV_STATE"]);
    assert_eq!(state.get_index(1).unwrap().1.as_deref(), Some("second"));
    let (_, blob) = state.get_index(4).unwrap();
    let json = EnvoluntaryEnvState::decode_json(blob.as_ref().unwrap()).unwrap();
    assert_eq!(
        String::from_utf8(json).unwrap(),
        "{\"flake_references\":[\"one\",\"two\"],\"env_vars_reset\":{\"A\":null,\"X\":\"orig\",\"EDITOR\":\"nano\",\"B\":null,\"ENVOLUNTARY_ENV_STATE\":null}}"
    );
    // On the next prompt the same two flakes leave nothing to do.
    let installed = EnvoluntaryEnvState {
        flake_references: vec!["one".to_string(), "two".to_string()],
        env_vars_reset: EnvVarsState::new(),
    };
    let m = CurrentDirState { current_dir: "/d".to_string() }.match_rcs(configs_from_references(
        &vec!["one".to_string(), "two".to_string()],
        None,
    ));
    assert!(matches!(plan_export(m, Some(installed)), ExportPlan::Done));
}

#[test]
fn single_flake_export_matches_the_composed_one() {
    assert_eq!(
        get_export_env_vars_state("github:owner/repo".to_string(), fake_updates()),
        flake_export("github:owner/repo")
    );
}

#[test]
fn fish_export_lists_path_like_variables() {
    let state = EnvVarsState::from_iter(vec![("PATH".to_string(), Some("/a:/b".to_string()))]);
    assert_eq!(print_export(EnvoluntaryShell::Fish, None, Some(state)), "set -x -g PATH /a /b;\n");
}

#[test]
fn hook_for_each_shell() {
    assert_eq!(hook_script(EnvoluntaryShell::Json, "/bin/envoluntary"), Err(HookError::NotAShell));
    let bash = hook_script(EnvoluntaryShell::Bash, "/bin/envoluntary").unwrap();
    assert!(bash.contains("vars=\"$(/bin/envoluntary shell export bash)\";"));
    assert!(bash.contains("_envoluntary_hook"));
    let zsh = hook_script(EnvoluntaryShell::Zsh, "/bin/my tool").unwrap();
    assert!(zsh.contains("$'/bin/my tool' shell export zsh"));
}

#[test]
fn evaluation_mode_prefers_command_line() {
    assert_eq!(evaluation_mode(Some(false), Some(true)), EvaluationMode::Pure);
    assert_eq!(evaluation_mode(None, Some(true)), EvaluationMode::Impure);
    assert_eq!(evaluation_mode(None, None), EvaluationMode::Pure);
    assert_eq!(evaluation_mode(Some(true), None), EvaluationMode::Impure);
}

#[test]
fn explicit_references_become_configs() {
    let c = configs_from_references(&vec!["a".to_string(), "b".to_string()], Some(true));
    assert_eq!(c.iter().map(|c| c.flake_reference.as_str()).collect::<Vec<_>>(), vec!["a", "b"]);
    assert!(c.iter().all(|c| c.impure == Some(true)));
}

#[test]
fn resolver_matches_tilde_form_and_adjacent_files() {
    let c = EnvoluntaryConfig::new()
        .add_entry(ConfigEntry::new("^~/proj$".to_string(), "a".to_string(), None, None).unwrap())
        .add_entry(
            ConfigEntry::new("^/home/u/".to_string(), "b".to_string(), Some(".*/package\\.json$".to_string()), Some(true))
                .unwrap(),
        );
    let listings = vec![vec!["/home/u/proj/src".to_string()], vec!["/home/u/package.json".to_string()]];
    let m = c.matching_entries("/home/u/proj", Some("/home/u"), &listings);
    assert_eq!(m.iter().map(|e| e.config.flake_reference.as_str()).collect::<Vec<_>>(), vec!["a", "b"]);
    let again = c.matching_entries("/home/u/proj", Some("/home/u"), &listings);
    assert_eq!(again.len(), m.len());
    let m = c.matching_entries("/home/u/proj", None, &vec![vec![]]);
    assert!(m.is_empty());
}

#[test]
fn invalid_patterns_are_rejected() {
    assert_eq!(
        ConfigEntry::new("(".to_string(), "a".to_string(), None, None).unwrap_err(),
        ConfigError::InvalidPattern
    );
    assert_eq!(
        ConfigEntry::new(".*".to_string(), "a".to_string(), Some("[".to_string()), None).unwrap_err(),
        ConfigError::InvalidPatternAdjacent
    );
}

fn apply(env: &mut std::collections::HashMap<String, String>, state: &EnvVarsState) {
    for i in 0..state.len() {
        let (k, v) = state.get_index(i).unwrap();
        match v {
            Some(v) => {
                env.insert(k.clone(), v.clone());
            },
            None => {
                env.remove(k);
            },
        }
    }
}

#[test]
fn applying_the_reset_restores_the_previous_environment() {
    let process_pairs = [("PATH", "/usr/bin:/bin"), ("EDITOR", "nano"), ("KEEP", "k")];
    let before: std::collections::HashMap<String, String> =
        process_pairs.iter().map(|(k, v)| (k.to_string(), v.to_string())).collect();
    let bash = vars(&[("PATH", "/flake/bin:/usr/bin"), ("EDITOR", "vim"), ("NEW", "1"), ("SHLVL", "2")]);
    let updates = get_new_env_vars(bash, vars(&process_pairs), Some("/usr/bin:/bin".to_string()));
    let export = get_export_env_vars_state("f".to_string(), updates);

    let mut env = before.clone();
    apply(&mut env, &export);
    assert_eq!(env.get("EDITOR").unwrap(), "vim");
    assert_eq!(env.get("PATH").unwrap(), "/flake/bin:/usr/bin:/bin");

    let (_, blob) = export.get_index(export.len() - 1).unwrap();
    let json = EnvoluntaryEnvState::decode_json(blob.as_ref().unwrap()).unwrap();
    let record: serde_json::Value = serde_json::from_slice(&json).unwrap();
    let mut reset_pairs = Vec::new();
    for (k, v) in record["env_vars_reset"].as_object().unwrap() {
        reset_pairs.push((k.clone(), v.as_str().map(|s| s.to_string())));
    }
    apply(&mut env, &EnvVarsState::from_iter(reset_pairs));
    assert_eq!(env, before);
}
