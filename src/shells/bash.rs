//! Bash: `export NAME=VALUE;` and `unset NAME;` lines.
use crate::env_vars::{opt_view, EnvVarsState};
use crate::shells::{bash_quote, bash_quoted, fill_template, filled_template, script_of};
use crate::strings::{join_strs, views};
use vstd::prelude::*;
use vstd::string::StringExecFns;

verus! {

pub const BASH_HOOK: &'static str = r#"
    _{{.HookPrefix}}_hook() {
        local previous_exit_status=$?;
        vars="$({{.ExportCommand}})";
        trap -- '' SIGINT;
        eval "$vars";
        trap - SIGINT;
        return $previous_exit_status;
    };
    if [[ ";${PROMPT_COMMAND[*]:-};" != *";_{{.HookPrefix}}_hook;"* ]]; then
        if [[ "$(declare -p PROMPT_COMMAND 2>&1)" == "declare -a"* ]]; then
            PROMPT_COMMAND=(_{{.HookPrefix}}_hook "${PROMPT_COMMAND[@]}")
        else
            PROMPT_COMMAND="_{{.HookPrefix}}_hook${PROMPT_COMMAND:+;$PROMPT_COMMAND}"
        fi
    fi
"#;

/// The line for one entry.
pub open spec fn bash_line(k: Seq<char>, v: Option<Seq<char>>) -> Seq<char> {
    match v {
        Some(v) => "export "@ + bash_quoted(k) + "="@ + bash_quoted(v) + ";"@,
        None => "unset "@ + bash_quoted(k) + ";"@,
    }
}

/// The script for a whole state, one line per entry, in order.
pub open spec fn bash_script(e: Seq<(Seq<char>, Option<Seq<char>>)>) -> Seq<char> {
    script_of(e.map_values(|p: (Seq<char>, Option<Seq<char>>)| bash_line(p.0, p.1)))
}

/// The Bash hook that evaluates `export_command` before every prompt.
pub fn hook(hook_prefix: &str, export_command: &str) -> (r: String)
    ensures
        r@ == filled_template(BASH_HOOK@, hook_prefix@, export_command@),
{
    fill_template(BASH_HOOK, hook_prefix, export_command)
}

pub(crate) fn export_var(key: &str, value: &str) -> (r: String)
    ensures
        r@ == bash_line(key@, Some(value@)),
{
    let mut r = String::from_str("export ");
    r.append(bash_quote(key).as_str());
    r.append("=");
    r.append(bash_quote(value).as_str());
    r.append(";");
    r
}

pub(crate) fn unset_var(key: &str) -> (r: String)
    ensures
        r@ == bash_line(key@, None),
{
    let mut r = String::from_str("unset ");
    r.append(bash_quote(key).as_str());
    r.append(";");
    r
}

/// The script that applies `env_vars_state`: an export for each value, an
/// unset for each `None`, one line each, in order. List-like variables need
/// nothing special in Bash, so `_semicolon_delimited_env_vars` is not read.
pub fn export(env_vars_state: EnvVarsState, _semicolon_delimited_env_vars: Option<&Vec<String>>) -> (r: String)
    ensures
        r@ == bash_script(env_vars_state@),
{
    let n = env_vars_state.len();
    let mut lines: Vec<String> = Vec::new();
    let mut i: usize = 0;
    while i < n
        invariant
            n == env_vars_state@.len(),
            i <= n,
            views(lines@) == env_vars_state@.take(i as int).map_values(
                |p: (Seq<char>, Option<Seq<char>>)| bash_line(p.0, p.1),
            ),
        decreases n - i,
    {
        match env_vars_state.get_index(i) {
            Some((k, v)) => {
                let line = match v {
                    Some(value) => export_var(k.as_str(), value.as_str()),
                    None => unset_var(k.as_str()),
                };
                let ghost before = lines@;
                lines.push(line);
                proof {
                    assert(views(lines@) =~= views(before).push(line@));
                    assert(env_vars_state@.take(i + 1) =~= env_vars_state@.take(i as int).push(env_vars_state@[i as int]));
                    assert(views(lines@) =~= env_vars_state@.take(i + 1).map_values(
                        |p: (Seq<char>, Option<Seq<char>>)| bash_line(p.0, p.1),
                    ));
                }
            },
            None => {},
        }
        i = i + 1;
    }
    proof {
        assert(env_vars_state@.take(n as int) =~= env_vars_state@);
    }
    join_strs(&lines, '\n')
}

} // verus!
