//! The Bash harvester's pure parts: the command that sources a script and
//! dumps the environment, and the reading of that dump.
use crate::env_vars::{extend_entries, lemma_insert, EnvVars};
use crate::shells::{bash_quote, bash_quoted};
use crate::strings::{split_on, split_str, substring, views};
use vstd::prelude::*;
use vstd::string::{StrSliceExecFns, StringExecFns};

verus! {

/// What Bash runs: a file to `source`, or a script to `eval`.
#[derive(Debug, Clone)]
pub enum BashSource {
    File(String),
    Script(String),
}

impl BashSource {
    /// `source '<file>'` or `eval '<script>'`, quoted for Bash.
    pub fn to_command_string(&self) -> (r: String)
        ensures
            r@ == match self {
                BashSource::File(p) => "source "@ + bash_quoted(p@),
                BashSource::Script(s) => "eval "@ + bash_quoted(s@),
            },
    {
        match self {
            BashSource::File(path) => {
                let mut r = String::from_str("source ");
                r.append(bash_quote(path.as_str()).as_str());
                r
            },
            BashSource::Script(script) => {
                let mut r = String::from_str("eval ");
                r.append(bash_quote(script.as_str()).as_str());
                r
            },
        }
    }
}

/// The command given to `bash -c`: run the source, then write the environment,
/// NUL-separated, to `env_file`.
pub fn harvest_command(source: &BashSource, env_file: &str) -> (r: String)
    ensures
        r@ == match source {
            BashSource::File(p) => "source "@ + bash_quoted(p@),
            BashSource::Script(s) => "eval "@ + bash_quoted(s@),
        } + " && env -0 > "@ + bash_quoted(env_file@),
{
    let mut r = source.to_command_string();
    r.append(" && env -0 > ");
    r.append(bash_quote(env_file).as_str());
    r
}

/// The position of the first `=`, if any.
pub open spec fn first_eq(s: Seq<char>) -> Option<int> {
    if exists|i: int| 0 <= i < s.len() && s[i] == '=' {
        Some(choose|i: int| 0 <= i < s.len() && s[i] == '=' && forall|j: int| 0 <= j < i ==> s[j] != '=')
    } else {
        None
    }
}

/// The variables of a dump: each record with an `=` gives a name (before the
/// first `=`) and a value (after it); a later record with the same name wins.
pub open spec fn dump_entries(records: Seq<Seq<char>>) -> Seq<(Seq<char>, Seq<char>)>
    decreases records.len(),
{
    if records.len() == 0 {
        Seq::<(Seq<char>, Seq<char>)>::empty()
    } else {
        let rest = dump_entries(records.drop_last());
        let r = records.last();
        match first_eq(r) {
            Some(i) => crate::env_vars::entries_insert(rest, r.subrange(0, i), r.subrange(i + 1, r.len() as int)),
            None => rest,
        }
    }
}

fn find_eq(s: &str) -> (r: Option<usize>)
    ensures
        match r {
            Some(i) => i < s@.len() && first_eq(s@) == Some(i as int),
            None => first_eq(s@) is None,
        },
{
    let n = s.unicode_len();
    let mut i: usize = 0;
    while i < n
        invariant
            n == s@.len(),
            i <= n,
            forall|j: int| 0 <= j < i ==> s@[j] != '=',
        decreases n - i,
    {
        if s.get_char(i) == '=' {
            proof {
                let k = choose|k: int| 0 <= k < s@.len() && s@[k] == '=' && forall|j: int| 0 <= j < k ==> s@[j] != '=';
                if k < i {
                    assert(s@[k] != '=');
                }
                if k > i {
                    assert(s@[i as int] != '=');
                }
            }
            return Some(i);
        }
        i = i + 1;
    }
    None
}

/// Reads the output of `env -0`: NUL-separated `NAME=value` records.
pub fn parse_env_dump(dump: &str) -> (r: EnvVars)
    ensures
        r.wf(),
        r@ == dump_entries(split_on(dump@, '\0')),
{
    let records = split_str(dump, '\0');
    let ghost rv = views(records@);
    let mut r = EnvVars::new();
    let mut i: usize = 0;
    while i < records.len()
        invariant
            i <= records@.len(),
            rv == views(records@),
            r.wf(),
            r@ == dump_entries(rv.take(i as int)),
        decreases records@.len() - i,
    {
        let rec = records[i].as_str();
        proof {
            assert(rv.take(i + 1).drop_last() =~= rv.take(i as int));
            assert(rv.take(i + 1).last() == rec@);
        }
        match find_eq(rec) {
            Some(k) => {
                let n = rec.unicode_len();
                let name = substring(rec, 0, k);
                let value = substring(rec, k + 1, n);
                proof {
                    lemma_insert(r@, name@, value@);
                }
                r.insert(name, value);
            },
            None => {},
        }
        i = i + 1;
    }
    proof {
        assert(rv.take(records@.len() as int) =~= rv);
    }
    r
}

} // verus!
