//! Rendering variable changes as shell scripts or JSON, and the prompt hooks
//! that evaluate them.
pub mod bash;
pub mod fish;
pub mod json;
pub mod nushell;
pub mod zsh;

use crate::strings::join_on;
use bstr::ByteSlice;
use vstd::prelude::*;

verus! {

/// What `shell_quote::Bash::quote_vec` makes of a string.
pub uninterp spec fn bash_quoted(s: Seq<char>) -> Seq<char>;

/// What `shell_quote::Fish::quote_vec` makes of a string.
pub uninterp spec fn fish_quoted(s: Seq<char>) -> Seq<char>;

/// How `serde_json` writes one character inside a string literal: `"` and
/// `\` behind a backslash, the controls below 0x20 as `\b`, `\t`, `\n`,
/// `\f`, `\r` or `\u00XX` (lowercase hex), anything else as it is.
pub open spec fn json_escaped_char(c: char) -> Seq<char> {
    let hex = seq!['0', '1', '2', '3', '4', '5', '6', '7', '8', '9', 'a', 'b', 'c', 'd', 'e', 'f'];
    if c == '"' {
        seq!['\\', '"']
    } else if c == '\\' {
        seq!['\\', '\\']
    } else if c == '\u{8}' {
        seq!['\\', 'b']
    } else if c == '\t' {
        seq!['\\', 't']
    } else if c == '\n' {
        seq!['\\', 'n']
    } else if c == '\u{c}' {
        seq!['\\', 'f']
    } else if c == '\r' {
        seq!['\\', 'r']
    } else if (c as u32) < 0x20 {
        seq!['\\', 'u', '0', '0', hex[(c as u32) as int / 16], hex[(c as u32) as int % 16]]
    } else {
        seq![c]
    }
}

/// The characters of a string, each written as `serde_json` writes it.
pub open spec fn json_escaped(s: Seq<char>) -> Seq<char>
    decreases s.len(),
{
    if s.len() == 0 {
        Seq::<char>::empty()
    } else {
        json_escaped(s.drop_last()) + json_escaped_char(s.last())
    }
}

/// What `serde_json::to_string` makes of a string: the escaped characters
/// between double quotes.
pub open spec fn json_quoted(s: Seq<char>) -> Seq<char> {
    seq!['"'] + json_escaped(s) + seq!['"']
}

/// `s` with every occurrence of a non-empty `from`, leftmost first and not
/// overlapping, replaced by `to`.
pub open spec fn replaced(s: Seq<char>, from: Seq<char>, to: Seq<char>) -> Seq<char>
    decreases s.len(),
{
    if from.len() == 0 || s.len() < from.len() {
        s
    } else if s.subrange(0, from.len() as int) == from {
        to + replaced(s.subrange(from.len() as int, s.len() as int), from, to)
    } else {
        seq![s[0]] + replaced(s.subrange(1, s.len() as int), from, to)
    }
}

/// Relies on `shell_quote::Bash::quote_vec`: the string quoted for Bash (and
/// for Z Shell, whose quoting type is the same); the empty string becomes `''`.
#[verifier::external_body]
pub(crate) fn bash_quote(s: &str) -> (r: String)
    ensures
        r@ == bash_quoted(s@),
        s@.len() == 0 ==> r@ == "''"@,
{
    String::from_utf8_lossy(&shell_quote::Bash::quote_vec(s)).into_owned()
}

/// Relies on `shell_quote::Fish::quote_vec`: the string quoted for fish.
#[verifier::external_body]
pub(crate) fn fish_quote(s: &str) -> (r: String)
    ensures
        r@ == fish_quoted(s@),
{
    String::from_utf8_lossy(&shell_quote::Fish::quote_vec(s)).into_owned()
}

/// Relies on `serde_json::to_string` on a `&str` (`format_escaped_str` and
/// its `ESCAPE` table): the JSON string literal; it cannot fail on a string.
#[verifier::external_body]
pub(crate) fn json_quote(s: &str) -> (r: String)
    ensures
        r@ == json_quoted(s@),
{
    match serde_json::to_string(s) {
        Ok(q) => q,
        Err(_) => String::new(),
    }
}

/// Relies on `bstr::ByteSlice::replace`: every match of a non-empty `from`,
/// leftmost first and not overlapping, replaced by `to`. On UTF-8 text the
/// byte matches are the character matches.
#[verifier::external_body]
pub(crate) fn replace_all(s: &str, from: &str, to: &str) -> (r: String)
    requires
        from@.len() > 0,
    ensures
        r@ == replaced(s@, from@, to@),
{
    String::from_utf8_lossy(&s.as_bytes().replace(from, to)).into_owned()
}

/// The lines of a script, one per entry, joined with newlines.
pub open spec fn script_of(lines: Seq<Seq<char>>) -> Seq<char> {
    join_on(lines, '\n')
}

/// A template with its hook prefix and its export command filled in.
pub open spec fn filled_template(t: Seq<char>, hook_prefix: Seq<char>, export_command: Seq<char>) -> Seq<char> {
    replaced(replaced(t, "{{.HookPrefix}}"@, hook_prefix), "{{.ExportCommand}}"@, export_command)
}

/// Fills in a hook template.
pub(crate) fn fill_template(t: &str, hook_prefix: &str, export_command: &str) -> (r: String)
    ensures
        r@ == filled_template(t@, hook_prefix@, export_command@),
{
    proof {
        reveal_strlit("{{.HookPrefix}}");
        reveal_strlit("{{.ExportCommand}}");
    }
    let with_prefix = replace_all(t, "{{.HookPrefix}}", hook_prefix);
    replace_all(with_prefix.as_str(), "{{.ExportCommand}}", export_command)
}

} // verus!
