use envoluntary::env_diff::{
    get_env_vars_reset, get_old_env_vars_to_be_updated, ignored_env_var_key, merge_delimited_env_var,
    merge_delimited_values, remove_ignored_env_vars,
};
use envoluntary::env_vars::{EnvVars, EnvVarsState};

fn vars(pairs: &[(&str, &str)]) -> EnvVars {
    EnvVars::from_iter(pairs.iter().map(|(k, v)| (k.to_string(), v.to_string())).collect())
}

#[test]
fn get_old_env_vars_to_be_updated_finds_changed_vars() {
    let old_vars = EnvVars::from_iter(vec![
        ("VAR1".to_string(), "old_value".to_string()),
        ("VAR2".to_string(), "unchanged".to_string()),
        ("VAR3".to_string(), "old".to_string()),
    ]);

    let new_vars = EnvVars::from_iter(vec![
        ("VAR1".to_string(), "new_value".to_string()),
        ("VAR2".to_string(), "unchanged".to_string()),
        ("VAR3".to_string(), "old".to_string()),
    ]);

    let result = get_old_env_vars_to_be_updated(old_vars, &new_vars);

    assert_eq!(
        result,
        EnvVars::from_iter(vec![("VAR1".to_string(), "old_value".to_string())])
    );
}

#[test]
fn get_old_env_vars_to_be_updated_ignores_new_vars() {
    let old_vars = EnvVars::from_iter(vec![("VAR1".to_string(), "value1".to_string())]);

    let new_vars = EnvVars::from_iter(vec![
        ("VAR1".to_string(), "value1".to_string()),
        ("VAR2".to_string(), "value2".to_string()),
    ]);

    let result = get_old_env_vars_to_be_updated(old_vars, &new_vars);

    assert!(result.is_empty());
}

#[test]
fn get_old_env_vars_to_be_updated_empty_old_vars() {
    let old_vars = EnvVars::new();
    let new_vars = EnvVars::new();

    let result = get_old_env_vars_to_be_updated(old_vars, &new_vars);

    assert!(result.is_empty());
}

#[test]
fn get_env_vars_reset_returns_state_to_old_env_vars() {
    let old_env_vars = EnvVars::from_iter(vec![
        ("VAR1".to_string(), "old1".to_string()),
        ("VAR2".to_string(), "old2".to_string()),
    ]);

    let new_vars = vec!["VAR1".to_string(), "VAR3".to_string()];

    let result = get_env_vars_reset(old_env_vars, new_vars, "STATE_VAR".to_string());

    assert_eq!(
        result,
        EnvVarsState::from_iter(vec![
            ("VAR1".to_string(), Some("old1".to_string())),
            ("VAR3".to_string(), None),
            ("STATE_VAR".to_string(), None),
        ])
    );
}

#[test]
fn merge_delimited_values_combines_paths_and_preserves_order_with_new_paths_in_front() {
    {
        let mut new_env_vars = EnvVars::new();
        merge_delimited_env_var("PATH", ':', ':', &EnvVars::new(), &mut new_env_vars);
        assert!(new_env_vars.is_empty());
    }

    let mut new_env_vars =
        EnvVars::from_iter(vec![("PATH".to_string(), "/home/user/bin:/usr/bin".to_string())]);
    merge_delimited_env_var(
        "PATH",
        ':',
        ' ',
        &EnvVars::from_iter(vec![("PATH".to_string(), "/usr/bin:/usr/local/bin".to_string())]),
        &mut new_env_vars,
    );

    assert_eq!(
        new_env_vars,
        EnvVars::from_iter(vec![(
            "PATH".to_string(),
            "/home/user/bin /usr/bin /usr/local/bin".to_string()
        )])
    );
}

#[test]
fn env_vars_into_env_vars_state_conversion() {
    assert_eq!(
        EnvVarsState::from(EnvVars::from_iter(vec![
            ("VAR1".to_string(), "value1".to_string()),
            ("VAR2".to_string(), "value2".to_string()),
        ])),
        EnvVarsState::from_iter(vec![
            ("VAR1".to_string(), Some("value1".to_string())),
            ("VAR2".to_string(), Some("value2".to_string())),
        ])
    );
}

#[test]
fn merge_puts_new_pieces_first_without_duplicates() {
    assert_eq!(merge_delimited_values(':', ':', "/b:/c:/a", "/a:/d:/a"), "/a:/d:/b:/c");
    assert_eq!(merge_delimited_values(':', ':', "", "/a"), "/a:");
    assert_eq!(merge_delimited_values(':', ':', "/a", "/a"), "/a");
}

#[test]
fn merge_leaves_variables_missing_on_either_side() {
    let mut new_env_vars = vars(&[("XDG_DATA_DIRS", "/n")]);
    merge_delimited_env_var("PATH", ':', ':', &vars(&[("PATH", "/o")]), &mut new_env_vars);
    assert_eq!(new_env_vars, vars(&[("XDG_DATA_DIRS", "/n")]));
    merge_delimited_env_var("XDG_DATA_DIRS", ':', ':', &vars(&[("PATH", "/o")]), &mut new_env_vars);
    assert_eq!(new_env_vars, vars(&[("XDG_DATA_DIRS", "/n")]));
}

#[test]
fn ignored_keys_are_prefixes_and_the_fixed_set() {
    for key in [
        "__fish_private", "BASH_FUNC_foo%%", "DIRENV_CONFIG", "DIRENV_BASH", "DIRENV_IN_ENVRC",
        "COMP_WORDBREAKS", "PS1", "OLDPWD", "PWD", "SHELL", "SHELLOPTS", "SHLVL", "_",
    ] {
        assert!(ignored_env_var_key(key), "{key}");
    }
    for key in ["PATH", "HOME", "__fis", "BASH_FUNC", "PWD2", "_X", "", "SHELL_"] {
        assert!(!ignored_env_var_key(key), "{key}");
    }
}

#[test]
fn remove_ignored_keeps_order_of_the_rest() {
    let mut env_vars = vars(&[("A", "1"), ("PWD", "/x"), ("B", "2"), ("__fish_x", "y"), ("C", "3")]);
    remove_ignored_env_vars(&mut env_vars);
    assert_eq!(env_vars.keys(), vec!["A".to_string(), "B".to_string(), "C".to_string()]);
}

#[test]
fn env_vars_insert_keeps_place_of_existing_key() {
    let mut env_vars = vars(&[("A", "1"), ("B", "2")]);
    env_vars.insert("A".to_string(), "3".to_string());
    assert_eq!(env_vars.keys(), vec!["A".to_string(), "B".to_string()]);
    assert_eq!(env_vars.get("A"), Some(&"3".to_string()));
    assert_eq!(env_vars.shift_remove("A"), Some("3".to_string()));
    assert_eq!(env_vars.keys(), vec!["B".to_string()]);
    assert_eq!(env_vars.len(), 1);
}
