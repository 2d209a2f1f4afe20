//! The environment-diff engine: which variables are ignored, what an export
//! overwrites, how to reset it, and how list-like variables are merged.
use crate::env_vars::{
    entries_insert, has_key, key_index, keys_of, keys_unique, lemma_insert, lemma_lookup_at, lookup, opt_view, EnvVars,
    EnvVarsState,
};
use crate::strings::{is_prefix, join_on, join_strs, split_on, split_str, starts_with, str_eq, views};
use indexmap::IndexSet;
use vstd::prelude::*;
use vstd::string::StringExecFns;

verus! {

#[verifier::external_type_specification]
#[verifier::external_body]
#[verifier::reject_recursive_types(T)]
#[verifier::reject_recursive_types(S)]
pub struct ExIndexSet<T, S>(IndexSet<T, S>);

/// What an `IndexSet<String>` holds: its items, in insertion order.
pub uninterp spec fn set_items(s: IndexSet<String>) -> Seq<Seq<char>>;

/// Relies on `IndexSet::new`: a new set is empty.
#[verifier::external_body]
fn item_set_new() -> (r: IndexSet<String>)
    ensures
        set_items(r) == Seq::<Seq<char>>::empty(),
{
    IndexSet::new()
}

/// Relies on `IndexSet::insert`: an item already there leaves the set as it
/// was; a new one goes last.
#[verifier::external_body]
fn item_set_insert(s: &mut IndexSet<String>, v: String)
    ensures
        set_items(*final(s)) == if set_items(*old(s)).contains(v@) {
            set_items(*old(s))
        } else {
            set_items(*old(s)).push(v@)
        },
{
    s.insert(v);
}

/// Relies on `IndexSet::len`: the number of items.
#[verifier::external_body]
fn item_set_len(s: &IndexSet<String>) -> (r: usize)
    ensures
        r == set_items(*s).len(),
{
    s.len()
}

/// Relies on `IndexSet::get_index`: the item at a position, in insertion order.
#[verifier::external_body]
fn item_set_get_index(s: &IndexSet<String>, i: usize) -> (r: Option<&String>)
    ensures
        i < set_items(*s).len() ==> r is Some && r.unwrap()@ == set_items(*s)[i as int],
        i >= set_items(*s).len() ==> r is None,
{
    s.get_index(i)
}

// ----- ignored variables -----
/// Variables that belong to the shell session rather than to a flake.
pub open spec fn ignored_key(k: Seq<char>) -> bool {
    is_prefix("__fish"@, k) || is_prefix("BASH_FUNC_"@, k) || k == "DIRENV_CONFIG"@ || k
        == "DIRENV_BASH"@ || k == "DIRENV_IN_ENVRC"@ || k == "COMP_WORDBREAKS"@ || k == "PS1"@ || k
        == "OLDPWD"@ || k == "PWD"@ || k == "SHELL"@ || k == "SHELLOPTS"@ || k == "SHLVL"@ || k
        == "_"@
}

/// The entries whose names are not ignored, in order.
pub open spec fn without_ignored(e: Seq<(Seq<char>, Seq<char>)>) -> Seq<(Seq<char>, Seq<char>)> {
    e.filter(|p: (Seq<char>, Seq<char>)| !ignored_key(p.0))
}

/// Whether a variable is left alone: a name with a per-shell prefix, or one of
/// the fixed session variables.
pub fn ignored_env_var_key(env_var_key: &str) -> (r: bool)
    ensures
        r == ignored_key(env_var_key@),
{
    starts_with(env_var_key, "__fish") || starts_with(env_var_key, "BASH_FUNC_") || str_eq(
        env_var_key,
        "DIRENV_CONFIG",
    ) || str_eq(env_var_key, "DIRENV_BASH") || str_eq(env_var_key, "DIRENV_IN_ENVRC") || str_eq(
        env_var_key,
        "COMP_WORDBREAKS",
    ) || str_eq(env_var_key, "PS1") || str_eq(env_var_key, "OLDPWD") || str_eq(env_var_key, "PWD")
        || str_eq(env_var_key, "SHELL") || str_eq(env_var_key, "SHELLOPTS") || str_eq(
        env_var_key,
        "SHLVL",
    ) || str_eq(env_var_key, "_")
}

/// Drops every ignored variable, keeping the order of the rest.
pub fn remove_ignored_env_vars(env_vars: &mut EnvVars)
    requires
        old(env_vars).wf(),
    ensures
        final(env_vars).wf(),
        final(env_vars)@ == without_ignored(old(env_vars)@),
{
    let mut kept = EnvVars::new();
    let n = env_vars.len();
    let mut i: usize = 0;
    while i < n
        invariant
            n == env_vars@.len(),
            i <= n,
            env_vars.wf(),
            kept.wf(),
            kept@ == without_ignored(env_vars@.take(i as int)),
            forall|k: Seq<char>| has_key(kept@, k) ==> has_key(env_vars@.take(i as int), k),
        decreases n - i,
    {
        let ghost before = kept@;
        match env_vars.get_index(i) {
            Some((k, v)) => {
                proof {
                    assert(env_vars@.take(i + 1).drop_last() =~= env_vars@.take(i as int));
                    assert(env_vars@.take(i + 1).last() == env_vars@[i as int]);
                }
                if !ignored_env_var_key(k.as_str()) {
                    proof {
                        assert(!has_key(kept@, k@)) by {
                            if has_key(kept@, k@) {
                                assert(has_key(env_vars@.take(i as int), k@));
                                let j = key_index(env_vars@.take(i as int), k@);
                                assert(env_vars@[j].0 == env_vars@[i as int].0);
                            }
                        }
                        lemma_insert(kept@, k@, v@);
                    }
                    kept.insert(k.clone(), v.clone());
                }
                proof {
                    let s = env_vars@.take(i + 1);
                    reveal(Seq::filter);
                    assert(without_ignored(s) == if !ignored_key(s.last().0) {
                        without_ignored(s.drop_last()).push(s.last())
                    } else {
                        without_ignored(s.drop_last())
                    });
                    assert forall|k2: Seq<char>| has_key(kept@, k2) implies has_key(env_vars@.take(i + 1), k2) by {
                        if has_key(before, k2) {
                            let j = key_index(env_vars@.take(i as int), k2);
                            assert(env_vars@.take(i + 1)[j].0 == k2);
                        } else {
                            assert(env_vars@.take(i + 1)[i as int].0 == k2);
                        }
                    }
                }
            },
            None => {},
        }
        i = i + 1;
    }
    proof {
        assert(env_vars@.take(n as int) =~= env_vars@);
    }
    *env_vars = kept;
}

// ----- what an export overwrites, and how to undo it -----
/// The variable is set in `new` to a different value.
pub open spec fn overwritten_by(new: Seq<(Seq<char>, Seq<char>)>, p: (Seq<char>, Seq<char>)) -> bool {
    has_key(new, p.0) && lookup(new, p.0) != Some(p.1)
}

/// The entries of `old` that `new` sets to a different value, in order.
pub open spec fn to_be_updated(
    old: Seq<(Seq<char>, Seq<char>)>,
    new: Seq<(Seq<char>, Seq<char>)>,
) -> Seq<(Seq<char>, Seq<char>)> {
    old.filter(overwritten_in(new))
}

/// `overwritten_by(new, _)` as a predicate.
pub open spec fn overwritten_in(new: Seq<(Seq<char>, Seq<char>)>) -> spec_fn((Seq<char>, Seq<char>)) -> bool {
    |p: (Seq<char>, Seq<char>)| overwritten_by(new, p)
}

/// Keeps the variables of `old_env_vars` that `new_env_vars` sets to another
/// value: those the export is about to overwrite.
pub fn get_old_env_vars_to_be_updated(old_env_vars: EnvVars, new_env_vars: &EnvVars) -> (r: EnvVars)
    requires
        old_env_vars.wf(),
    ensures
        r.wf(),
        r@ == to_be_updated(old_env_vars@, new_env_vars@),
{
    let mut kept = EnvVars::new();
    let n = old_env_vars.len();
    let mut i: usize = 0;
    while i < n
        invariant
            n == old_env_vars@.len(),
            i <= n,
            old_env_vars.wf(),
            kept.wf(),
            kept@ == to_be_updated(old_env_vars@.take(i as int), new_env_vars@),
            forall|k: Seq<char>| has_key(kept@, k) ==> has_key(old_env_vars@.take(i as int), k),
        decreases n - i,
    {
        let ghost before = kept@;
        match old_env_vars.get_index(i) {
            Some((k, v)) => {
                proof {
                    assert(old_env_vars@.take(i + 1).drop_last() =~= old_env_vars@.take(i as int));
                    assert(old_env_vars@.take(i + 1).last() == old_env_vars@[i as int]);
                }
                let changed = match new_env_vars.get(k.as_str()) {
                    Some(nv) => !str_eq(nv.as_str(), v.as_str()),
                    None => false,
                };
                if changed {
                    proof {
                        assert(!has_key(kept@, k@)) by {
                            if has_key(kept@, k@) {
                                assert(has_key(old_env_vars@.take(i as int), k@));
                                let j = key_index(old_env_vars@.take(i as int), k@);
                                assert(old_env_vars@[j].0 == old_env_vars@[i as int].0);
                            }
                        }
                        lemma_insert(kept@, k@, v@);
                    }
                    kept.insert(k.clone(), v.clone());
                }
                proof {
                    let s = old_env_vars@.take(i + 1);
                    reveal(Seq::filter);
                    assert(to_be_updated(s, new_env_vars@) == if overwritten_by(new_env_vars@, s.last()) {
                        to_be_updated(s.drop_last(), new_env_vars@).push(s.last())
                    } else {
                        to_be_updated(s.drop_last(), new_env_vars@)
                    });
                    assert forall|k2: Seq<char>| has_key(kept@, k2) implies has_key(old_env_vars@.take(i + 1), k2) by {
                        if has_key(before, k2) {
                            let j = key_index(old_env_vars@.take(i as int), k2);
                            assert(old_env_vars@.take(i + 1)[j].0 == k2);
                        } else {
                            assert(old_env_vars@.take(i + 1)[i as int].0 == k2);
                        }
                    }
                }
            },
            None => {},
        }
        i = i + 1;
    }
    proof {
        assert(old_env_vars@.take(n as int) =~= old_env_vars@);
    }
    kept
}

/// No name occurs twice.
pub open spec fn distinct_names(keys: Seq<Seq<char>>) -> bool {
    forall|i: int, j: int| 0 <= i < keys.len() && 0 <= j < keys.len() && i != j ==> #[trigger] keys[i] != #[trigger] keys[j]
}

/// The reset of an export: each new name maps to the value it had before, or
/// to `None`; the state variable itself maps to `None`.
pub open spec fn reset_entries(
    old: Seq<(Seq<char>, Seq<char>)>,
    keys: Seq<Seq<char>>,
    state_key: Seq<char>,
) -> Seq<(Seq<char>, Option<Seq<char>>)> {
    entries_insert(keys.map_values(|k: Seq<char>| (k, lookup(old, k))), state_key, None)
}

/// The reset for an export that sets `new_env_vars`: restores each overwritten
/// variable from `old_env_vars_that_were_updated`, unsets the rest, and unsets
/// `env_state_var_key`.
pub fn get_env_vars_reset(
    old_env_vars_that_were_updated: EnvVars,
    new_env_vars: Vec<String>,
    env_state_var_key: String,
) -> (r: EnvVarsState)
    requires
        old_env_vars_that_were_updated.wf(),
        distinct_names(views(new_env_vars@)),
    ensures
        r.wf(),
        r@ == reset_entries(old_env_vars_that_were_updated@, views(new_env_vars@), env_state_var_key@),
{
    let ghost old = old_env_vars_that_were_updated@;
    let ghost keys = views(new_env_vars@);
    let mut r = EnvVarsState::new();
    let mut i: usize = 0;
    while i < new_env_vars.len()
        invariant
            i <= new_env_vars@.len(),
            old == old_env_vars_that_were_updated@,
            keys == views(new_env_vars@),
            distinct_names(keys),
            r.wf(),
            r@ == keys.take(i as int).map_values(|k: Seq<char>| (k, lookup(old, k))),
        decreases new_env_vars@.len() - i,
    {
        let k = &new_env_vars[i];
        let v = match old_env_vars_that_were_updated.get(k.as_str()) {
            Some(v) => Some(v.clone()),
            None => None,
        };
        proof {
            assert(keys[i as int] == k@);
            assert(!has_key(r@, k@)) by {
                if has_key(r@, k@) {
                    let j = key_index(r@, k@);
                    assert(keys[j] == keys[i as int]);
                }
            }
            lemma_insert(r@, k@, opt_view(v));
        }
        r.insert(k.clone(), v);
        proof {
            assert(r@ =~= keys.take(i + 1).map_values(|k: Seq<char>| (k, lookup(old, k))));
        }
        i = i + 1;
    }
    proof {
        assert(keys.take(new_env_vars@.len() as int) =~= keys);
        lemma_insert(r@, env_state_var_key@, None);
    }
    r.insert(env_state_var_key, None);
    r
}

// ----- merging list-like variables -----
/// The items in order, each kept at its first occurrence.
pub open spec fn dedup(s: Seq<Seq<char>>) -> Seq<Seq<char>>
    decreases s.len(),
{
    if s.len() == 0 {
        s
    } else {
        let d = dedup(s.drop_last());
        if d.contains(s.last()) {
            d
        } else {
            d.push(s.last())
        }
    }
}

/// The merged value: the pieces of `new_value`, then those of `old_value`,
/// each once, joined with `join_delimiter`.
pub open spec fn merged_value(split: char, join: char, old_value: Seq<char>, new_value: Seq<char>) -> Seq<char> {
    join_on(dedup(split_on(new_value, split) + split_on(old_value, split)), join)
}

/// `dedup` keeps exactly the items of `s`, each once.
pub proof fn lemma_dedup(s: Seq<Seq<char>>)
    ensures
        distinct_names(dedup(s)),
        forall|x: Seq<char>| dedup(s).contains(x) <==> s.contains(x),
    decreases s.len(),
{
    if s.len() > 0 {
        let t = s.drop_last();
        lemma_dedup(t);
        assert forall|x: Seq<char>| dedup(s).contains(x) <==> s.contains(x) by {
            if s.contains(x) {
                let i = choose|i: int| 0 <= i < s.len() && s[i] == x;
                if i < t.len() {
                    assert(t[i] == x);
                    assert(t.contains(x));
                } else {
                    assert(x == s.last());
                }
                if dedup(t).contains(x) {
                    let k = choose|k: int| 0 <= k < dedup(t).len() && dedup(t)[k] == x;
                    assert(dedup(s)[k] == x);
                } else {
                    assert(x == s.last());
                    assert(dedup(s)[dedup(s).len() - 1] == x);
                }
            }
            if dedup(s).contains(x) {
                let i = choose|i: int| 0 <= i < dedup(s).len() && dedup(s)[i] == x;
                if i < dedup(t).len() {
                    assert(dedup(t)[i] == x);
                    assert(dedup(t).contains(x));
                    assert(t.contains(x));
                    let j = choose|j: int| 0 <= j < t.len() && t[j] == x;
                    assert(s[j] == x);
                } else {
                    assert(s[s.len() - 1] == x);
                }
            }
        }
        let d = dedup(s);
        assert forall|i: int, j: int| 0 <= i < d.len() && 0 <= j < d.len() && i != j implies #[trigger] d[i] != #[trigger] d[j] by {
            if i < dedup(t).len() && j < dedup(t).len() {
                assert(dedup(t)[i] != dedup(t)[j]);
            } else if i < dedup(t).len() {
                assert(dedup(t).contains(d[i]));
            } else {
                assert(dedup(t).contains(d[j]));
            }
        }
    }
}

/// The deduplicated concatenation starts with the deduplicated first part, and
/// what follows comes from the second part only.
pub proof fn lemma_dedup_concat(a: Seq<Seq<char>>, b: Seq<Seq<char>>)
    ensures
        dedup(a).len() <= dedup(a + b).len(),
        forall|k: int| 0 <= k < dedup(a).len() ==> dedup(a + b)[k] == dedup(a)[k],
        forall|k: int| dedup(a).len() <= k < dedup(a + b).len() ==> !a.contains(#[trigger] dedup(a + b)[k]),
    decreases b.len(),
{
    if b.len() == 0 {
        assert(a + b =~= a);
    } else {
        let b2 = b.drop_last();
        lemma_dedup_concat(a, b2);
        assert((a + b).drop_last() =~= a + b2);
        assert((a + b).last() == b.last());
        lemma_dedup(a);
        let x = b.last();
        if a.contains(x) {
            assert(dedup(a).contains(x));
            let i = choose|i: int| 0 <= i < dedup(a).len() && dedup(a)[i] == x;
            assert(dedup(a + b2)[i] == x);
            assert(dedup(a + b2).contains(x));
        }
    }
}

/// The predicate "not among `n`".
pub open spec fn not_in(n: Seq<Seq<char>>) -> spec_fn(Seq<char>) -> bool {
    |x: Seq<char>| !n.contains(x)
}

/// Deduplicating a concatenation gives the first part deduplicated, then the
/// pieces of the second part that the first lacks, deduplicated in their order.
pub proof fn lemma_dedup_split(n: Seq<Seq<char>>, o: Seq<Seq<char>>)
    ensures
        dedup(n + o) == dedup(n) + dedup(o.filter(not_in(n))),
    decreases o.len(),
{
    reveal(Seq::filter);
    if o.len() == 0 {
        assert(n + o =~= n);
        assert(dedup(n) + dedup(o.filter(not_in(n))) =~= dedup(n));
    } else {
        let d = o.drop_last();
        let x = o.last();
        lemma_dedup_split(n, d);
        assert((n + o).drop_last() =~= n + d);
        assert((n + o).last() == x);
        lemma_dedup(n);
        let f = d.filter(not_in(n));
        let left = dedup(n + d);
        assert(left == dedup(n) + dedup(f));
        if n.contains(x) {
            assert(dedup(n).contains(x));
            let i = choose|i: int| 0 <= i < dedup(n).len() && dedup(n)[i] == x;
            assert(left[i] == x);
        } else {
            assert(!dedup(n).contains(x));
            assert(left.contains(x) == dedup(f).contains(x)) by {
                if left.contains(x) {
                    let i = choose|i: int| 0 <= i < left.len() && left[i] == x;
                    assert(i >= dedup(n).len());
                    assert(dedup(f)[i - dedup(n).len()] == x);
                }
                if dedup(f).contains(x) {
                    let i = choose|i: int| 0 <= i < dedup(f).len() && dedup(f)[i] == x;
                    assert(left[dedup(n).len() + i] == x);
                }
            }
            assert(o.filter(not_in(n)) =~= f.push(x));
            assert(f.push(x).drop_last() =~= f);
            if !left.contains(x) {
                assert(left.push(x) =~= dedup(n) + dedup(f).push(x));
            }
        }
    }
}

/// In a merged list the pieces of the new value come first, in the order in
/// which they first occur there, and then the pieces found only in the old
/// value, in the order in which they first occur there.
pub proof fn law_merge_keeps_each_group_in_order(split: char, old_value: Seq<char>, new_value: Seq<char>)
    ensures
        dedup(split_on(new_value, split) + split_on(old_value, split)) == dedup(split_on(new_value, split)) + dedup(
            split_on(old_value, split).filter(not_in(split_on(new_value, split))),
        ),
{
    lemma_dedup_split(split_on(new_value, split), split_on(old_value, split));
}

/// Merging list-like values puts every piece of the new value before any piece
/// found only in the old one, keeps every piece of both, and holds none twice.
pub proof fn law_merge_new_pieces_first(split: char, old_value: Seq<char>, new_value: Seq<char>)
    ensures
        ({
            let n = split_on(new_value, split);
            let o = split_on(old_value, split);
            let r = dedup(n + o);
            &&& distinct_names(r)
            &&& forall|x: Seq<char>| r.contains(x) <==> (n.contains(x) || o.contains(x))
            &&& forall|i: int, j: int|
                0 <= i < j < r.len() && n.contains(#[trigger] r[j]) ==> n.contains(#[trigger] r[i])
        }),
{
    let n = split_on(new_value, split);
    let o = split_on(old_value, split);
    let r = dedup(n + o);
    lemma_dedup(n + o);
    lemma_dedup(n);
    lemma_dedup_concat(n, o);
    assert forall|x: Seq<char>| r.contains(x) <==> (n.contains(x) || o.contains(x)) by {
        if n.contains(x) {
            let i = choose|i: int| 0 <= i < n.len() && n[i] == x;
            assert((n + o)[i] == x);
        }
        if o.contains(x) {
            let i = choose|i: int| 0 <= i < o.len() && o[i] == x;
            assert((n + o)[n.len() + i] == x);
        }
        if (n + o).contains(x) {
            let i = choose|i: int| 0 <= i < (n + o).len() && (n + o)[i] == x;
            if i < n.len() {
                assert(n[i] == x);
            } else {
                assert(o[i - n.len()] == x);
            }
        }
    }
    assert forall|i: int, j: int| 0 <= i < j < r.len() && n.contains(#[trigger] r[j]) implies n.contains(#[trigger] r[i]) by {
        if i < dedup(n).len() {
            assert(dedup(n)[i] == r[i]);
            assert(dedup(n).contains(r[i]));
        }
    }
}

/// Merges two delimited lists: the new pieces first, then the old ones not
/// already there, with no piece twice.
pub fn merge_delimited_values(
    split_delimiter: char,
    join_delimiter: char,
    old_value: &str,
    new_value: &str,
) -> (r: String)
    ensures
        r@ == merged_value(split_delimiter, join_delimiter, old_value@, new_value@),
{
    let mut pieces = split_str(new_value, split_delimiter);
    let mut old_pieces = split_str(old_value, split_delimiter);
    let ghost all = views(pieces@) + views(old_pieces@);
    pieces.append(&mut old_pieces);
    proof {
        assert(views(pieces@) =~= all);
    }
    let mut set = item_set_new();
    let mut i: usize = 0;
    while i < pieces.len()
        invariant
            i <= pieces@.len(),
            views(pieces@) == all,
            set_items(set) == dedup(all.take(i as int)),
        decreases pieces@.len() - i,
    {
        proof {
            assert(all.take(i + 1).drop_last() =~= all.take(i as int));
            assert(all.take(i + 1).last() == pieces@[i as int]@);
        }
        item_set_insert(&mut set, pieces[i].clone());
        i = i + 1;
    }
    proof {
        assert(all.take(pieces@.len() as int) =~= all);
    }
    let n = item_set_len(&set);
    let mut unique: Vec<String> = Vec::new();
    let mut j: usize = 0;
    while j < n
        invariant
            n == set_items(set).len(),
            j <= n,
            unique@.len() == j,
            forall|m: int| 0 <= m < j ==> #[trigger] unique@[m]@ == set_items(set)[m],
        decreases n - j,
    {
        match item_set_get_index(&set, j) {
            Some(s) => unique.push(s.clone()),
            None => {},
        }
        j = j + 1;
    }
    proof {
        assert(views(unique@) =~= set_items(set));
    }
    join_strs(&unique, join_delimiter)
}

/// `new` with the value of `var` merged with its value in `old`, where both set it.
pub open spec fn merged_into(
    var: Seq<char>,
    split: char,
    join: char,
    old: Seq<(Seq<char>, Seq<char>)>,
    new: Seq<(Seq<char>, Seq<char>)>,
) -> Seq<(Seq<char>, Seq<char>)> {
    if has_key(old, var) && has_key(new, var) {
        entries_insert(new, var, merged_value(split, join, lookup(old, var)->0, lookup(new, var)->0))
    } else {
        new
    }
}

/// Where `env_var` is set in both maps, replaces its new value by the merge of
/// the new and the old one.
pub fn merge_delimited_env_var(
    env_var: &str,
    split_delimiter: char,
    join_delimiter: char,
    old_env_vars: &EnvVars,
    new_env_vars: &mut EnvVars,
)
    ensures
        final(new_env_vars)@ == merged_into(env_var@, split_delimiter, join_delimiter, old_env_vars@, old(new_env_vars)@),
{
    let merged = match (old_env_vars.get(env_var), new_env_vars.get(env_var)) {
        (Some(old_value), Some(new_value)) => Some(
            merge_delimited_values(split_delimiter, join_delimiter, old_value.as_str(), new_value.as_str()),
        ),
        _ => None,
    };
    match merged {
        Some(m) => {
            let mut key = String::new();
            key.append(env_var);
            new_env_vars.insert(key, m);
        },
        None => {},
    }
}

// ----- applying a state to an environment -----
/// The value of `k` in an environment, if set.
pub open spec fn env_get(env: Map<Seq<char>, Seq<char>>, k: Seq<char>) -> Option<Seq<char>> {
    if env.dom().contains(k) {
        Some(env[k])
    } else {
        None
    }
}

/// The environment after a shell runs the script of `st`: each entry in
/// order sets its variable, or unsets it for `None`.
pub open spec fn apply_state(env: Map<Seq<char>, Seq<char>>, st: Seq<(Seq<char>, Option<Seq<char>>)>) -> Map<
    Seq<char>,
    Seq<char>,
>
    decreases st.len(),
{
    if st.len() == 0 {
        env
    } else {
        let e = apply_state(env, st.drop_last());
        match st.last().1 {
            Some(v) => e.insert(st.last().0, v),
            None => e.remove(st.last().0),
        }
    }
}

/// Looking up in a sequence of entries with unique keys, one more entry on the end.
pub proof fn lemma_lookup_push<V>(s: Seq<(Seq<char>, V)>, p: (Seq<char>, V), k: Seq<char>)
    requires
        keys_unique(s.push(p)),
    ensures
        has_key(s.push(p), k) == (has_key(s, k) || p.0 == k),
        lookup(s.push(p), k) == if p.0 == k {
            Some(p.1)
        } else {
            lookup(s, k)
        },
{
    let t = s.push(p);
    assert(keys_unique(s)) by {
        assert forall|i: int, j: int| 0 <= i < s.len() && 0 <= j < s.len() && i != j implies #[trigger] s[i].0
            != #[trigger] s[j].0 by {
            assert(t[i] == s[i] && t[j] == s[j]);
        }
    }
    if has_key(s, k) {
        let i = key_index(s, k);
        assert(t[i] == s[i]);
    }
    if p.0 == k {
        lemma_lookup_at(t, s.len() as int);
    } else if has_key(t, k) {
        let j = key_index(t, k);
        assert(t[j] == s[j]);
        lemma_lookup_at(s, j);
        lemma_lookup_at(t, j);
    }
}

/// With unique keys, a state decides the value of each variable it names, and
/// leaves the others as they were.
pub proof fn lemma_apply_get(env: Map<Seq<char>, Seq<char>>, st: Seq<(Seq<char>, Option<Seq<char>>)>, k: Seq<char>)
    requires
        keys_unique(st),
    ensures
        env_get(apply_state(env, st), k) == if has_key(st, k) {
            lookup(st, k)->0
        } else {
            env_get(env, k)
        },
    decreases st.len(),
{
    if st.len() > 0 {
        let d = st.drop_last();
        assert(d.push(st.last()) =~= st);
        lemma_lookup_push(d, st.last(), k);
        assert(keys_unique(d)) by {
            assert forall|i: int, j: int| 0 <= i < d.len() && 0 <= j < d.len() && i != j implies #[trigger] d[i].0
                != #[trigger] d[j].0 by {
                assert(st[i] == d[i] && st[j] == d[j]);
            }
        }
        lemma_apply_get(env, d, k);
    }
}

/// Every element of a filtered sequence is an element of the sequence.
pub proof fn lemma_filter_subset<A>(s: Seq<A>, pred: spec_fn(A) -> bool)
    ensures
        forall|j: int| 0 <= j < s.filter(pred).len() ==> s.contains(#[trigger] s.filter(pred)[j]),
    decreases s.len(),
{
    reveal(Seq::filter);
    if s.len() > 0 {
        let d = s.drop_last();
        lemma_filter_subset(d, pred);
        assert forall|j: int| 0 <= j < s.filter(pred).len() implies s.contains(#[trigger] s.filter(pred)[j]) by {
            if j < d.filter(pred).len() {
                let x = d.filter(pred)[j];
                assert(d.contains(x));
                let n = choose|n: int| 0 <= n < d.len() && d[n] == x;
                assert(s[n] == x);
            } else {
                assert(s[s.len() - 1] == s.filter(pred)[j]);
            }
        }
    }
}

/// The entries an export overwrites carry, for each name, the value it had.
pub proof fn lemma_lookup_updated(old: Seq<(Seq<char>, Seq<char>)>, new: Seq<(Seq<char>, Seq<char>)>, k: Seq<char>)
    requires
        keys_unique(old),
        has_key(new, k),
        lookup(old, k) != lookup(new, k),
    ensures
        lookup(to_be_updated(old, new), k) == lookup(old, k),
{
    let pred = overwritten_in(new);
    let u = to_be_updated(old, new);
    lemma_filter_subset(old, pred);
    if has_key(old, k) {
        let i = key_index(old, k);
        lemma_lookup_at(old, i);
        assert(pred(old[i]));
        old.lemma_filter_contains(pred, i);
        let m = choose|m: int| 0 <= m < u.len() && u[m] == old[i];
        assert(u[m].0 == k);
        let j = key_index(u, k);
        assert(old.contains(u[j]));
        let n = choose|n: int| 0 <= n < old.len() && old[n] == u[j];
        assert(old[n].0 == old[i].0);
    } else if has_key(u, k) {
        let j = key_index(u, k);
        assert(old.contains(u[j]));
        let n = choose|n: int| 0 <= n < old.len() && old[n] == u[j];
        assert(old[n].0 == k);
    }
}

/// Applying the reset of an export, to whatever environment it finds, gives
/// every variable the export set (but the state variable itself) the value it
/// had before the export, or unsets it where it was unset. This holds for each
/// variable whose old value differs from the exported one; a variable that
/// already had the exported value is unset.
pub proof fn law_reset_restores_previous_values(
    old: Seq<(Seq<char>, Seq<char>)>,
    new: Seq<(Seq<char>, Seq<char>)>,
    state_key: Seq<char>,
    env: Map<Seq<char>, Seq<char>>,
    k: Seq<char>,
)
    requires
        keys_unique(old),
        keys_unique(new),
        has_key(new, k),
        k != state_key,
        lookup(old, k) != lookup(new, k),
    ensures
        env_get(apply_state(env, reset_entries(to_be_updated(old, new), keys_of(new), state_key)), k) == lookup(
            old,
            k,
        ),
{
    let u = to_be_updated(old, new);
    let keys = keys_of(new);
    let m = keys.map_values(|x: Seq<char>| (x, lookup(u, x)));
    assert(keys_unique(m)) by {
        assert forall|i: int, j: int| 0 <= i < m.len() && 0 <= j < m.len() && i != j implies #[trigger] m[i].0
            != #[trigger] m[j].0 by {
            assert(new[i].0 != new[j].0);
        }
    }
    lemma_insert(m, state_key, None);
    let i = key_index(new, k);
    assert(m[i].0 == k);
    lemma_lookup_at(m, i);
    lemma_apply_get(env, reset_entries(u, keys, state_key), k);
    lemma_lookup_updated(old, new, k);
}

} // verus!
