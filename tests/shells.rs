use envoluntary::env_vars::EnvVarsState;
use envoluntary::shells::{bash, fish, json, nushell, zsh};

fn test_env_vars() -> EnvVarsState {
    EnvVarsState::from_iter(vec![
        ("SIMPLE".to_string(), Some("value".to_string())),
        ("TO_REMOVE".to_string(), None),
        (
            "WITH_SPACES".to_string(),
            Some("value with spaces".to_string()),
        ),
        ("DOLLAR".to_string(), Some("$VAR".to_string())),
        ("EMPTY".to_string(), Some("".to_string())),
        (
            "PATH".to_string(),
            Some("/usr/bin:/usr/local/bin".to_string()),
        ),
        ("VAR123".to_string(), Some("numeric".to_string())),
        ("_PRIVATE".to_string(), Some("private".to_string())),
        (
            "MULTI_LINE_VAR".to_string(),
            Some("\nHello,\nWorld!\n".to_string()),
        ),
    ])
}

#[test]
fn bash_export_set_unset_and_special_vars() {
    assert_eq!(bash::export(EnvVarsState::new(), None), "");

    let result = bash::export(test_env_vars(), None);
    let lines = result.lines().filter(|l| !l.is_empty()).collect::<Vec<_>>();

    assert_eq!(
        lines,
        vec![
            "export SIMPLE=value;",
            "unset TO_REMOVE;",
            "export WITH_SPACES=$'value with spaces';",
            "export DOLLAR=$'$VAR';",
            "export EMPTY='';",
            "export PATH=$'/usr/bin:/usr/local/bin';",
            "export VAR123=numeric;",
            "export _PRIVATE=private;",
            "export MULTI_LINE_VAR=$'\\nHello,\\nWorld!\\n';"
        ]
    );
}

#[test]
fn bash_hook_templated() {
    let result = bash::hook("myapp", "myapp export bash");
    assert!(!result.contains("{{."));
}

#[test]
fn zsh_export_set_unset_and_special_vars() {
    assert_eq!(zsh::export(EnvVarsState::new(), None).as_str(), "");

    let result = zsh::export(test_env_vars(), None);
    let lines = result.lines().filter(|l| !l.is_empty()).collect::<Vec<_>>();

    assert_eq!(
        lines,
        vec![
            "export SIMPLE=value;",
            "unset TO_REMOVE;",
            "export WITH_SPACES=$'value with spaces';",
            "export DOLLAR=$'$VAR';",
            "export EMPTY='';",
            "export PATH=$'/usr/bin:/usr/local/bin';",
            "export VAR123=numeric;",
            "export _PRIVATE=private;",
            "export MULTI_LINE_VAR=$'\\nHello,\\nWorld!\\n';"
        ]
    );
}

#[test]
fn zsh_hook_templated() {
    let result = zsh::hook("myapp", "myapp export zsh");
    assert!(!result.contains("{{."));
}

#[test]
fn nushell_export_set_unset_and_special_vars() {
    assert_eq!(nushell::export(EnvVarsState::new()).as_str(), "{}");

    let result = nushell::export(test_env_vars());

    assert_eq!(
        result,
        "{\"SIMPLE\":\"value\",\"TO_REMOVE\":null,\"WITH_SPACES\":\"value with spaces\",\"DOLLAR\":\"$VAR\",\"EMPTY\":\"\",\"PATH\":\"/usr/bin:/usr/local/bin\",\"VAR123\":\"numeric\",\"_PRIVATE\":\"private\",\"MULTI_LINE_VAR\":\"\\nHello,\\nWorld!\\n\"}",
    );
}

#[test]
fn nushell_hook_templated() {
    let result = nushell::hook("myapp export nushell");
    assert!(!result.contains("{{."));
}

#[test]
fn fish_export_set_unset_and_special_vars() {
    assert_eq!(fish::export(EnvVarsState::new(), None).as_str(), "");

    let result = fish::export(test_env_vars(), None);
    let lines = result.lines().filter(|l| !l.is_empty()).collect::<Vec<_>>();

    assert_eq!(
        lines,
        vec![
            r#"set -x -g SIMPLE value;"#,
            r#"set -e -g TO_REMOVE;"#,
            r#"set -x -g WITH_SPACES value' with spaces';"#,
            r#"set -x -g DOLLAR '$VAR';"#,
            r#"set -x -g EMPTY '';"#,
            r#"set -x -g PATH /usr/bin':/usr/local/bin';"#,
            r#"set -x -g VAR123 numeric;"#,
            r#"set -x -g _PRIVATE private;"#,
            r#"set -x -g MULTI_LINE_VAR \nHello,\nWorld'!'\n;"#,
        ]
    );
}

#[test]
fn fish_export_delimited_variables() {
    let env_vars = EnvVarsState::from_iter(vec![(
        "PATH".to_string(),
        Some("/usr/bin:/usr/local/bin:/home/user/bin".to_string()),
    )]);

    let result = fish::export(env_vars.clone(), None);
    let lines = result.lines().filter(|l| !l.is_empty()).collect::<Vec<_>>();
    assert_eq!(
        lines,
        vec!["set -x -g PATH /usr/bin':/usr/local/bin:/home/user/bin';"]
    );

    let delim_vars = vec!["PATH".to_string()];
    let result = fish::export(env_vars.clone(), Some(&delim_vars));
    let lines = result.lines().filter(|l| !l.is_empty()).collect::<Vec<_>>();
    assert_eq!(
        lines,
        vec!["set -x -g PATH /usr/bin /usr/local/bin /home/user/bin;"]
    );
}

#[test]
fn fish_hook_templated() {
    let result = fish::hook("myapp", "myapp export fish");
    assert!(!result.contains("{{."));
}

#[test]
fn json_export_set_unset_and_special_vars() {
    assert_eq!(json::export(EnvVarsState::new(), None).as_str(), "{}");

    let result = json::export(test_env_vars(), None);
    let parsed: serde_json::Value = serde_json::from_str(&result).unwrap();

    let expected: serde_json::Value = serde_json::from_str(
        r#"{
            "SIMPLE": "value",
            "TO_REMOVE": null,
            "WITH_SPACES": "value with spaces",
            "DOLLAR": "$VAR",
            "EMPTY": "",
            "PATH": "/usr/bin:/usr/local/bin",
            "VAR123": "numeric",
            "_PRIVATE": "private",
            "MULTI_LINE_VAR": "\nHello,\nWorld!\n"
        }"#,
    )
    .unwrap();
    assert_eq!(parsed, expected);
}

#[test]
fn json_export_is_laid_out_as_pretty_printed() {
    let env_vars = EnvVarsState::from_iter(vec![
        ("A".to_string(), Some("x\"y".to_string())),
        ("B".to_string(), None),
    ]);
    assert_eq!(json::export(env_vars, None), "{\n  \"A\": \"x\\\"y\",\n  \"B\": null\n}");
}

#[test]
fn hooks_fill_in_prefix_and_command() {
    let result = bash::hook("myapp", "RUN-ME");
    assert!(result.contains("_myapp_hook() {"));
    assert!(result.contains("vars=\"$(RUN-ME)\";"));
    let result = fish::hook("pre", "CMD");
    assert!(result.contains("function __pre_export_eval --on-event fish_prompt;"));
    assert!(result.contains("CMD | source;"));
}

#[test]
fn json_strings_escape_quotes_backslashes_and_controls() {
    let env_vars = EnvVarsState::from_iter(vec![(
        "K\"\\".to_string(),
        Some("a\u{1}\u{8}\t\u{1f}é\u{7f}".to_string()),
    )]);
    assert_eq!(nushell::export(env_vars), "{\"K\\\"\\\\\":\"a\\u0001\\b\\t\\u001fé\u{7f}\"}");
}
