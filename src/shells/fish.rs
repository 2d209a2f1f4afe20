//! fish: `set -x -g NAME VALUE;` and `set -e -g NAME;` lines; list-like
//! variables become fish lists.
use crate::env_vars::EnvVarsState;
use crate::shells::{fill_template, filled_template, fish_quote, fish_quoted, script_of};
use crate::strings::{join_on, join_strs, split_on, split_str, str_eq, views};
use vstd::prelude::*;
use vstd::string::StringExecFns;

verus! {

pub const FISH_HOOK: &'static str = r#"
    function __{{.HookPrefix}}_export_eval --on-event fish_prompt;
        {{.ExportCommand}} | source;

        if test "${{.HookPrefix}}_fish_mode" != "disable_arrow";
            function __{{.HookPrefix}}_cd_hook --on-variable PWD;
                if test "${{.HookPrefix}}_fish_mode" = "eval_after_arrow";
                    set -g __{{.HookPrefix}}_export_again 0;
                else;
                    {{.ExportCommand}} | source;
                end;
            end;
        end;
    end;

    function __{{.HookPrefix}}_export_eval_2 --on-event fish_preexec;
        if set -q __{{.HookPrefix}}_export_again;
            set -e __{{.HookPrefix}}_export_again;
            {{.ExportCommand}} | source;
            echo;
        end;

        functions --erase __{{.HookPrefix}}_cd_hook;
    end;
"#;

/// The names given as list-like, if any.
pub open spec fn delimited_names(d: Option<&Vec<String>>) -> Seq<Seq<char>> {
    match d {
        Some(v) => views(v@),
        None => Seq::<Seq<char>>::empty(),
    }
}

/// A value as fish reads it: a list of its `:`-separated pieces for a
/// list-like variable, else one quoted word.
pub open spec fn fish_value(k: Seq<char>, v: Seq<char>, delimited: Seq<Seq<char>>) -> Seq<char> {
    if delimited.contains(k) {
        join_on(split_on(v, ':').map_values(|x: Seq<char>| fish_quoted(x)), ' ')
    } else {
        fish_quoted(v)
    }
}

/// The line for one entry.
pub open spec fn fish_line(k: Seq<char>, v: Option<Seq<char>>, delimited: Seq<Seq<char>>) -> Seq<char> {
    match v {
        Some(v) => "set -x -g "@ + fish_quoted(k) + " "@ + fish_value(k, v, delimited) + ";"@,
        None => "set -e -g "@ + fish_quoted(k) + ";"@,
    }
}

/// The script for a whole state, one line per entry, in order.
pub open spec fn fish_script(e: Seq<(Seq<char>, Option<Seq<char>>)>, delimited: Seq<Seq<char>>) -> Seq<char> {
    script_of(e.map_values(|p: (Seq<char>, Option<Seq<char>>)| fish_line(p.0, p.1, delimited)))
}

/// The fish hook that evaluates `export_command` at each prompt and, unless
/// disabled, on each change of directory.
pub fn hook(hook_prefix: &str, export_command: &str) -> (r: String)
    ensures
        r@ == filled_template(FISH_HOOK@, hook_prefix@, export_command@),
{
    fill_template(FISH_HOOK, hook_prefix, export_command)
}

fn contains_name(names: &Vec<String>, k: &str) -> (r: bool)
    ensures
        r == views(names@).contains(k@),
{
    let mut i: usize = 0;
    while i < names.len()
        invariant
            i <= names@.len(),
            forall|j: int| 0 <= j < i ==> names@[j]@ != k@,
        decreases names@.len() - i,
    {
        if str_eq(names[i].as_str(), k) {
            proof {
                assert(views(names@)[i as int] == k@);
            }
            return true;
        }
        i = i + 1;
    }
    proof {
        if views(names@).contains(k@) {
            let j = choose|j: int| 0 <= j < views(names@).len() && views(names@)[j] == k@;
            assert(names@[j]@ == k@);
        }
    }
    false
}

fn export_value(key: &str, value: &str, semicolon_delimited_env_vars: Option<&Vec<String>>) -> (r: String)
    ensures
        r@ == fish_value(key@, value@, delimited_names(semicolon_delimited_env_vars)),
{
    let listed = match semicolon_delimited_env_vars {
        Some(names) => contains_name(names, key),
        None => false,
    };
    if listed {
        let pieces = split_str(value, ':');
        let mut quoted: Vec<String> = Vec::new();
        let mut i: usize = 0;
        while i < pieces.len()
            invariant
                i <= pieces@.len(),
                views(quoted@) == views(pieces@).take(i as int).map_values(|x: Seq<char>| fish_quoted(x)),
            decreases pieces@.len() - i,
        {
            let q = fish_quote(pieces[i].as_str());
            let ghost before = quoted@;
            quoted.push(q);
            proof {
                assert(views(quoted@) =~= views(before).push(q@));
                assert(views(quoted@) =~= views(pieces@).take(i + 1).map_values(|x: Seq<char>| fish_quoted(x)));
            }
            i = i + 1;
        }
        proof {
            assert(views(pieces@).take(pieces@.len() as int) =~= views(pieces@));
        }
        join_strs(&quoted, ' ')
    } else {
        fish_quote(value)
    }
}

pub(crate) fn export_var(key: &str, value: &str, semicolon_delimited_env_vars: Option<&Vec<String>>) -> (r: String)
    ensures
        r@ == fish_line(key@, Some(value@), delimited_names(semicolon_delimited_env_vars)),
{
    let mut r = String::from_str("set -x -g ");
    r.append(fish_quote(key).as_str());
    r.append(" ");
    r.append(export_value(key, value, semicolon_delimited_env_vars).as_str());
    r.append(";");
    r
}

pub(crate) fn unset_var(key: &str) -> (r: String)
    ensures
        forall|d: Seq<Seq<char>>| r@ == #[trigger] fish_line(key@, None, d),
{
    let mut r = String::from_str("set -e -g ");
    r.append(fish_quote(key).as_str());
    r.append(";");
    r
}

/// The script that applies `env_vars_state`; a variable named in
/// `semicolon_delimited_env_vars` is set as a list of its `:`-separated pieces.
pub fn export(env_vars_state: EnvVarsState, semicolon_delimited_env_vars: Option<&Vec<String>>) -> (r: String)
    ensures
        r@ == fish_script(env_vars_state@, delimited_names(semicolon_delimited_env_vars)),
{
    let ghost d = delimited_names(semicolon_delimited_env_vars);
    let n = env_vars_state.len();
    let mut lines: Vec<String> = Vec::new();
    let mut i: usize = 0;
    while i < n
        invariant
            n == env_vars_state@.len(),
            i <= n,
            d == delimited_names(semicolon_delimited_env_vars),
            views(lines@) == env_vars_state@.take(i as int).map_values(
                |p: (Seq<char>, Option<Seq<char>>)| fish_line(p.0, p.1, d),
            ),
        decreases n - i,
    {
        match env_vars_state.get_index(i) {
            Some((k, v)) => {
                let line = match v {
                    Some(value) => export_var(k.as_str(), value.as_str(), semicolon_delimited_env_vars),
                    None => unset_var(k.as_str()),
                };
                proof {
                    assert(line@ == fish_line(k@, crate::env_vars::opt_view(*v), d));
                }
                let ghost before = lines@;
                lines.push(line);
                proof {
                    assert(views(lines@) =~= views(before).push(line@));
                    assert(env_vars_state@.take(i + 1) =~= env_vars_state@.take(i as int).push(env_vars_state@[i as int]));
                    assert(views(lines@) =~= env_vars_state@.take(i + 1).map_values(
                        |p: (Seq<char>, Option<Seq<char>>)| fish_line(p.0, p.1, d),
                    ));
                }
            },
            None => {},
        }
        i = i + 1;
    }
    proof {
        assert(env_vars_state@.take(n as int) =~= env_vars_state@);
    }
    join_strs(&lines, '\n')
}

} // verus!
