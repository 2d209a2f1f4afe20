//! nushell: a compact JSON object that `load-env` applies.
use crate::env_vars::EnvVarsState;
use crate::shells::json::{json_value, value_text};
use crate::shells::{json_quote, json_quoted, replace_all, replaced};
use crate::strings::{join_on, join_strs, views};
use vstd::prelude::*;
use vstd::string::StringExecFns;

verus! {

pub const NUSHELL_HOOK: &'static str = r#"
$env.config.hooks.env_change.PWD = (
    $env.config.hooks.env_change | get --optional PWD | default [] | append { ||
        {{.ExportCommand}} | from json | default {} | load-env
    }
)

$env.config.hooks.pre_execution = (
    $env.config.hooks.pre_execution | append { ||
        {{.ExportCommand}} | from json | default {} | load-env
    }
)
"#;

/// One `"NAME":value` member.
pub open spec fn compact_member(k: Seq<char>, v: Option<Seq<char>>) -> Seq<char> {
    json_quoted(k) + ":"@ + json_value(v)
}

/// The compact object: members in order, separated by commas.
pub open spec fn compact_object(e: Seq<(Seq<char>, Option<Seq<char>>)>) -> Seq<char> {
    "{"@ + join_on(e.map_values(|p: (Seq<char>, Option<Seq<char>>)| compact_member(p.0, p.1)), ',') + "}"@
}

/// The nushell hook, run on every change of directory and before every command.
pub fn hook(export_command: &str) -> (r: String)
    ensures
        r@ == replaced(NUSHELL_HOOK@, "{{.ExportCommand}}"@, export_command@),
{
    proof {
        reveal_strlit("{{.ExportCommand}}");
    }
    replace_all(NUSHELL_HOOK, "{{.ExportCommand}}", export_command)
}

/// The state as one compact JSON object, entries in order; `{}` when empty.
pub fn export(env_vars_state: EnvVarsState) -> (r: String)
    ensures
        r@ == compact_object(env_vars_state@),
{
    compact_object_text(&env_vars_state)
}

pub(crate) fn compact_object_text(env_vars_state: &EnvVarsState) -> (r: String)
    ensures
        r@ == compact_object(env_vars_state@),
{
    let n = env_vars_state.len();
    let mut members: Vec<String> = Vec::new();
    let mut i: usize = 0;
    while i < n
        invariant
            n == env_vars_state@.len(),
            i <= n,
            views(members@) == env_vars_state@.take(i as int).map_values(
                |p: (Seq<char>, Option<Seq<char>>)| compact_member(p.0, p.1),
            ),
        decreases n - i,
    {
        match env_vars_state.get_index(i) {
            Some((k, v)) => {
                let mut m = json_quote(k.as_str());
                m.append(":");
                m.append(value_text(v).as_str());
                let ghost before = members@;
                members.push(m);
                proof {
                    assert(views(members@) =~= views(before).push(m@));
                    assert(env_vars_state@.take(i + 1) =~= env_vars_state@.take(i as int).push(env_vars_state@[i as int]));
                    assert(views(members@) =~= env_vars_state@.take(i + 1).map_values(
                        |p: (Seq<char>, Option<Seq<char>>)| compact_member(p.0, p.1),
                    ));
                }
            },
            None => {},
        }
        i = i + 1;
    }
    proof {
        assert(env_vars_state@.take(n as int) =~= env_vars_state@);
    }
    let mut r = String::from_str("{");
    r.append(join_strs(&members, ',').as_str());
    r.append("}");
    r
}

} // verus!
