//! Z Shell: the same lines as Bash, with a hook of its own.
use crate::env_vars::EnvVarsState;
use crate::shells::bash::bash_script;
use crate::shells::{fill_template, filled_template};
use vstd::prelude::*;

verus! {

pub const ZSH_HOOK: &'static str = r#"
    _{{.HookPrefix}}_hook() {
        vars="$({{.ExportCommand}})"
        trap -- '' SIGINT
        eval "$vars"
        trap - SIGINT
    }
    typeset -ag precmd_functions
    if (( ! ${precmd_functions[(I)_{{.HookPrefix}}_hook]} )); then
        precmd_functions=(_{{.HookPrefix}}_hook $precmd_functions)
    fi
    typeset -ag chpwd_functions
    if (( ! ${chpwd_functions[(I)_{{.HookPrefix}}_hook]} )); then
        chpwd_functions=(_{{.HookPrefix}}_hook $chpwd_functions)
    fi
"#;

/// The Z Shell hook that evaluates `export_command` before every prompt and
/// on every change of directory.
pub fn hook(hook_prefix: &str, export_command: &str) -> (r: String)
    ensures
        r@ == filled_template(ZSH_HOOK@, hook_prefix@, export_command@),
{
    fill_template(ZSH_HOOK, hook_prefix, export_command)
}

/// The script that applies `env_vars_state`; Z Shell reads Bash's quoting, so
/// the lines are those of Bash.
pub fn export(env_vars_state: EnvVarsState, semicolon_delimited_env_vars: Option<&Vec<String>>) -> (r: String)
    ensures
        r@ == bash_script(env_vars_state@),
{
    crate::shells::bash::export(env_vars_state, semicolon_delimited_env_vars)
}

} // verus!
