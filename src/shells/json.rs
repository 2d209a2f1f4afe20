//! JSON: one object from names to values, `null` for a variable to unset,
//! laid out as `serde_json`'s pretty printer lays out a map.
use crate::env_vars::EnvVarsState;
use crate::shells::{json_quote, json_quoted};
use crate::strings::{join_on, join_strs, views};
use vstd::prelude::*;
use vstd::string::StringExecFns;

verus! {

/// A value in JSON: a string, or `null`.
pub open spec fn json_value(v: Option<Seq<char>>) -> Seq<char> {
    match v {
        Some(v) => json_quoted(v),
        None => "null"@,
    }
}

/// The member for entry `i` of `e`, indented, with a comma unless it is last.
pub open spec fn pretty_member(e: Seq<(Seq<char>, Option<Seq<char>>)>, i: int) -> Seq<char> {
    "  "@ + json_quoted(e[i].0) + ": "@ + json_value(e[i].1) + if i + 1 < e.len() {
        ","@
    } else {
        Seq::<char>::empty()
    }
}

/// The pretty-printed object: `{}` when empty, else one member per line.
pub open spec fn pretty_object(e: Seq<(Seq<char>, Option<Seq<char>>)>) -> Seq<char> {
    if e.len() == 0 {
        "{}"@
    } else {
        "{\n"@ + join_on(Seq::new(e.len(), |i: int| pretty_member(e, i)), '\n') + "\n}"@
    }
}

pub(crate) fn value_text(v: &Option<String>) -> (r: String)
    ensures
        r@ == json_value(crate::env_vars::opt_view(*v)),
{
    match v {
        Some(s) => json_quote(s.as_str()),
        None => String::from_str("null"),
    }
}

/// The state as one pretty-printed JSON object, entries in order.
/// `_semicolon_delimited_env_vars` is not read: JSON has no list syntax to pick.
pub fn export(env_vars_state: EnvVarsState, _semicolon_delimited_env_vars: Option<&Vec<String>>) -> (r: String)
    ensures
        r@ == pretty_object(env_vars_state@),
{
    let ghost e = env_vars_state@;
    let n = env_vars_state.len();
    if n == 0 {
        return String::from_str("{}");
    }
    let mut members: Vec<String> = Vec::new();
    let mut i: usize = 0;
    while i < n
        invariant
            e == env_vars_state@,
            n == e.len(),
            i <= n,
            views(members@) =~= Seq::new(i as nat, |j: int| pretty_member(e, j)),
        decreases n - i,
    {
        match env_vars_state.get_index(i) {
            Some((k, v)) => {
                let mut m = String::from_str("  ");
                m.append(json_quote(k.as_str()).as_str());
                m.append(": ");
                m.append(value_text(v).as_str());
                if i + 1 < n {
                    m.append(",");
                }
                let ghost before = members@;
                members.push(m);
                proof {
                    assert(m@ =~= pretty_member(e, i as int));
                    assert(views(members@) =~= views(before).push(m@));
                }
            },
            None => {},
        }
        i = i + 1;
    }
    let mut r = String::from_str("{\n");
    r.append(join_strs(&members, '\n').as_str());
    r.append("\n}");
    r
}

} // verus!
