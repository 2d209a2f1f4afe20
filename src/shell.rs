//! The `shell export` request: from what the shell side collected to the
//! script it prints.
use crate::env_diff::{
    get_env_vars_reset, get_old_env_vars_to_be_updated, merge_delimited_env_var, merged_into, remove_ignored_env_vars,
    reset_entries, to_be_updated, without_ignored,
};
use crate::env_state::{encoded_state, EnvoluntaryEnvState};
use crate::env_vars::{
    has_key, entries_insert, entries_remove, extend_entries, keys_of, lemma_insert, lemma_remove, lookup, opt_view, promote,
    EnvVars, EnvVarsState,
};
use crate::shells::bash::bash_script;
use crate::shells::fish::fish_script;
use crate::shells::json::pretty_object;
use crate::config::{join_path, path_join};
use crate::profile_cache::{
    hash_flake_reference, sha1_hex, CacheError, EvaluationMode, FlakeReference, NixProfileCache,
};
use crate::shells::{bash_quote, bash_quoted, filled_template, fish_quote, fish_quoted};
use crate::strings::{str_eq, views};
use vstd::utf8::encode_utf8;
use vstd::prelude::*;
use vstd::string::StringExecFns;

verus! {

/// The name of the command line tool.
pub const CLI_NAME: &'static str = "envoluntary";

/// The variable that holds the state blob.
pub const ENVOLUNTARY_ENV_STATE_VAR_KEY: &'static str = "ENVOLUNTARY_ENV_STATE";

pub const ENV_VAR_KEY_PATH: &'static str = "PATH";

pub const ENV_VAR_KEY_XDG_DATA_DIRS: &'static str = "XDG_DATA_DIRS";

/// The shells (and JSON) that exports and hooks are written for.
#[derive(Debug, Clone, Copy, PartialEq, Eq, Structural)]
pub enum EnvoluntaryShell {
    Bash,
    Fish,
    Json,
    Zsh,
}

/// What a matching configuration entry loads.
#[derive(Debug, Clone)]
pub struct Config {
    pub flake_reference: String,
    pub impure: Option<bool>,
}

/// The flake references of the configurations, in order.
pub open spec fn config_names(rcs: Seq<Config>) -> Seq<Seq<char>> {
    rcs.map_values(|c: Config| c.flake_reference@)
}

/// The variables a flake sets, and the old values it overwrites.
#[derive(Debug, Clone)]
pub struct EnvVarUpdates {
    pub new_env_vars: EnvVars,
    pub old_env_vars_to_be_updated: EnvVars,
}

/// What the flake sets: its variables but the ignored ones, and without
/// `PATH` when it left `PATH` as it was.
pub open spec fn harvested(bash: Seq<(Seq<char>, Seq<char>)>, old_path: Option<Seq<char>>) -> Seq<(Seq<char>, Seq<char>)> {
    let n = without_ignored(bash);
    if lookup(n, "PATH"@) == old_path {
        entries_remove(n, "PATH"@)
    } else {
        n
    }
}

/// The old values that the flake overwrites.
pub open spec fn overwritten(
    bash: Seq<(Seq<char>, Seq<char>)>,
    process: Seq<(Seq<char>, Seq<char>)>,
    old_path: Option<Seq<char>>,
) -> Seq<(Seq<char>, Seq<char>)> {
    to_be_updated(without_ignored(process), harvested(bash, old_path))
}

/// What the flake sets, with `PATH` and `XDG_DATA_DIRS` merged with their old values.
pub open spec fn exported(
    bash: Seq<(Seq<char>, Seq<char>)>,
    process: Seq<(Seq<char>, Seq<char>)>,
    old_path: Option<Seq<char>>,
) -> Seq<(Seq<char>, Seq<char>)> {
    let o = overwritten(bash, process, old_path);
    merged_into("XDG_DATA_DIRS"@, ':', ':', o, merged_into("PATH"@, ':', ':', o, harvested(bash, old_path)))
}

/// From the variables a flake's script leaves in Bash (`bash_env_vars`), those
/// of this process (`process_env_vars`) and this process's `PATH`: what to
/// set, and which old values that overwrites.
pub fn get_new_env_vars(bash_env_vars: EnvVars, process_env_vars: EnvVars, old_path: Option<String>) -> (r: EnvVarUpdates)
    requires
        bash_env_vars.wf(),
        process_env_vars.wf(),
    ensures
        r.new_env_vars.wf(),
        r.old_env_vars_to_be_updated.wf(),
        r.new_env_vars@ == exported(bash_env_vars@, process_env_vars@, opt_view(old_path)),
        r.old_env_vars_to_be_updated@ == overwritten(bash_env_vars@, process_env_vars@, opt_view(old_path)),
{
    let mut new_env_vars = bash_env_vars;
    remove_ignored_env_vars(&mut new_env_vars);
    let same_path = match (new_env_vars.get(ENV_VAR_KEY_PATH), &old_path) {
        (Some(a), Some(b)) => str_eq(a.as_str(), b.as_str()),
        (None, None) => true,
        _ => false,
    };
    if same_path {
        proof {
            lemma_remove(new_env_vars@, "PATH"@);
        }
        new_env_vars.shift_remove(ENV_VAR_KEY_PATH);
    }
    let mut old_env_vars = process_env_vars;
    remove_ignored_env_vars(&mut old_env_vars);
    let old_env_vars_to_be_updated = get_old_env_vars_to_be_updated(old_env_vars, &new_env_vars);
    let ghost o = old_env_vars_to_be_updated@;
    let ghost n = new_env_vars@;
    merge_delimited_env_var(ENV_VAR_KEY_PATH, ':', ':', &old_env_vars_to_be_updated, &mut new_env_vars);
    proof {
        lemma_merged_unique("PATH"@, o, n);
    }
    let ghost n2 = new_env_vars@;
    merge_delimited_env_var(ENV_VAR_KEY_XDG_DATA_DIRS, ':', ':', &old_env_vars_to_be_updated, &mut new_env_vars);
    proof {
        lemma_merged_unique("XDG_DATA_DIRS"@, o, n2);
    }
    EnvVarUpdates { new_env_vars, old_env_vars_to_be_updated }
}

pub open spec fn has_key_both(o: Seq<(Seq<char>, Seq<char>)>, n: Seq<(Seq<char>, Seq<char>)>, k: Seq<char>) -> bool {
    crate::env_vars::has_key(o, k) && crate::env_vars::has_key(n, k)
}

pub proof fn lemma_merged_unique(var: Seq<char>, o: Seq<(Seq<char>, Seq<char>)>, n: Seq<(Seq<char>, Seq<char>)>)
    requires
        crate::env_vars::keys_unique(n),
    ensures
        crate::env_vars::keys_unique(merged_into(var, ':', ':', o, n)),
{
    if has_key_both(o, n, var) {
        lemma_insert(n, var, crate::env_diff::merged_value(':', ':', lookup(o, var)->0, lookup(n, var)->0));
    }
}

/// What one flake exports: its variables, plus the state variable holding a
/// blob that names the flake and how to reset what it set.
pub open spec fn export_entries(
    flake_reference: Seq<char>,
    new: Seq<(Seq<char>, Seq<char>)>,
    old: Seq<(Seq<char>, Seq<char>)>,
) -> Seq<(Seq<char>, Option<Seq<char>>)> {
    promote(
        entries_insert(
            new,
            "ENVOLUNTARY_ENV_STATE"@,
            encoded_state(seq![flake_reference], reset_entries(old, keys_of(new), "ENVOLUNTARY_ENV_STATE"@)),
        ),
    )
}

/// The changes that load one flake, with the blob that undoes them.
pub fn get_export_env_vars_state(flake_reference: String, updates: EnvVarUpdates) -> (r: EnvVarsState)
    requires
        updates.new_env_vars.wf(),
        updates.old_env_vars_to_be_updated.wf(),
    ensures
        r.wf(),
        r@ == export_entries(flake_reference@, updates.new_env_vars@, updates.old_env_vars_to_be_updated@),
{
    let EnvVarUpdates { mut new_env_vars, old_env_vars_to_be_updated } = updates;
    let keys = new_env_vars.keys();
    proof {
        assert(views(keys@) =~= keys_of(new_env_vars@));
        assert forall|i: int, j: int| 0 <= i < views(keys@).len() && 0 <= j < views(keys@).len() && i != j implies #[trigger] views(keys@)[i] != #[trigger] views(keys@)[j] by {
            assert(new_env_vars@[i].0 != new_env_vars@[j].0);
        }
    }
    let env_vars_reset = get_env_vars_reset(
        old_env_vars_to_be_updated,
        keys,
        String::from_str(ENVOLUNTARY_ENV_STATE_VAR_KEY),
    );
    let mut flake_references: Vec<String> = Vec::new();
    flake_references.push(flake_reference);
    let env_state = EnvoluntaryEnvState { flake_references, env_vars_reset };
    let blob = env_state.encode();
    proof {
        assert(views(env_state.flake_references@) =~= seq![flake_reference@]);
        lemma_insert(new_env_vars@, "ENVOLUNTARY_ENV_STATE"@, blob@);
    }
    new_env_vars.insert(String::from_str(ENVOLUNTARY_ENV_STATE_VAR_KEY), blob);
    EnvVarsState::from(new_env_vars)
}

/// One flake's part of an export: its reference, the variables it sets, and
/// the old values those overwrite.
pub type FlakeView = (Seq<char>, Seq<(Seq<char>, Seq<char>)>, Seq<(Seq<char>, Seq<char>)>);

pub open spec fn flake_views(flakes: Seq<(String, EnvVarUpdates)>) -> Seq<FlakeView> {
    flakes.map_values(
        |f: (String, EnvVarUpdates)| (f.0@, f.1.new_env_vars@, f.1.old_env_vars_to_be_updated@),
    )
}

/// The flake references, in order.
pub open spec fn flake_names(fs: Seq<FlakeView>) -> Seq<Seq<char>> {
    fs.map_values(|f: FlakeView| f.0)
}

/// The variables of all flakes laid over one another in order: a name keeps
/// the place where it first appears and takes the last flake's value.
pub open spec fn composed_vars(fs: Seq<FlakeView>) -> Seq<(Seq<char>, Seq<char>)>
    decreases fs.len(),
{
    if fs.len() == 0 {
        Seq::<(Seq<char>, Seq<char>)>::empty()
    } else {
        extend_entries(composed_vars(fs.drop_last()), fs.last().1)
    }
}

/// For each name, the value it had before the export, or `None`.
pub open spec fn reset_body(old: Seq<(Seq<char>, Seq<char>)>, keys: Seq<Seq<char>>) -> Seq<(Seq<char>, Option<Seq<char>>)> {
    keys.map_values(|k: Seq<char>| (k, lookup(old, k)))
}

/// `a` followed by the entries of `b` whose names `a` (or an earlier entry
/// of `b`) does not already hold: the first entry for a name wins.
pub open spec fn first_wins(a: Seq<(Seq<char>, Option<Seq<char>>)>, b: Seq<(Seq<char>, Option<Seq<char>>)>) -> Seq<(Seq<char>, Option<Seq<char>>)>
    decreases b.len(),
{
    if b.len() == 0 {
        a
    } else {
        let r = first_wins(a, b.drop_last());
        if has_key(r, b.last().0) {
            r
        } else {
            r.push(b.last())
        }
    }
}

/// How to undo all flakes: each name exported by some flake maps to the value
/// it had before the first flake that set it, or to `None`.
pub open spec fn composed_reset_body(fs: Seq<FlakeView>) -> Seq<(Seq<char>, Option<Seq<char>>)>
    decreases fs.len(),
{
    if fs.len() == 0 {
        Seq::<(Seq<char>, Option<Seq<char>>)>::empty()
    } else {
        first_wins(composed_reset_body(fs.drop_last()), reset_body(fs.last().2, keys_of(fs.last().1)))
    }
}

/// The reset kept in the blob: the composed reset, and the state variable unset.
pub open spec fn composed_reset(fs: Seq<FlakeView>) -> Seq<(Seq<char>, Option<Seq<char>>)> {
    entries_insert(composed_reset_body(fs), "ENVOLUNTARY_ENV_STATE"@, None)
}

/// What loading several flakes exports: their variables composed in order,
/// then, last, the state variable with the blob naming every flake in order
/// and the composed reset.
pub open spec fn composed_export(fs: Seq<FlakeView>) -> Seq<(Seq<char>, Option<Seq<char>>)> {
    promote(
        entries_remove(composed_vars(fs), "ENVOLUNTARY_ENV_STATE"@).push(
            ("ENVOLUNTARY_ENV_STATE"@, encoded_state(flake_names(fs), composed_reset(fs))),
        ),
    )
}

/// The changes that load several flakes, in order (a later flake's value
/// wins), followed last by the state variable. Its blob lists every flake
/// reference in order, and its reset covers every exported variable, with the
/// value it had before the first flake that set it.
pub fn get_export_env_vars_states(flakes: &Vec<(String, EnvVarUpdates)>) -> (r: EnvVarsState)
    requires
        forall|i: int| 0 <= i < flakes@.len() ==> (#[trigger] flakes@[i]).1.new_env_vars.wf(),
    ensures
        r.wf(),
        r@ == composed_export(flake_views(flakes@)),
{
    let ghost fv = flake_views(flakes@);
    let mut vars = EnvVars::new();
    let mut reset = EnvVarsState::new();
    let mut refs: Vec<String> = Vec::new();
    let mut i: usize = 0;
    while i < flakes.len()
        invariant
            i <= flakes@.len(),
            fv == flake_views(flakes@),
            forall|m: int| 0 <= m < flakes@.len() ==> (#[trigger] flakes@[m]).1.new_env_vars.wf(),
            vars.wf(),
            reset.wf(),
            vars@ == composed_vars(fv.take(i as int)),
            reset@ == composed_reset_body(fv.take(i as int)),
            views(refs@) == flake_names(fv.take(i as int)),
        decreases flakes@.len() - i,
    {
        let new_vars = &flakes[i].1.new_env_vars;
        let old_vars = &flakes[i].1.old_env_vars_to_be_updated;
        let ghost nv = new_vars@;
        let ghost vars0 = vars@;
        let ghost reset0 = reset@;
        proof {
            assert(fv[i as int] == (flakes@[i as int].0@, nv, old_vars@));
            assert(fv.take(i + 1).drop_last() =~= fv.take(i as int));
            assert(fv.take(i + 1).last() == fv[i as int]);
        }
        let n = new_vars.len();
        let mut j: usize = 0;
        while j < n
            invariant
                n == nv.len(),
                nv == new_vars@,
                j <= n,
                vars.wf(),
                reset.wf(),
                vars@ == extend_entries(vars0, nv.take(j as int)),
                reset@ == first_wins(reset0, reset_body(old_vars@, keys_of(nv).take(j as int))),
            decreases n - j,
        {
            match new_vars.get_index(j) {
                Some((k, v)) => {
                    proof {
                        assert(nv.take(j + 1).drop_last() =~= nv.take(j as int));
                        assert(nv.take(j + 1).last() == nv[j as int]);
                        assert(reset_body(old_vars@, keys_of(nv).take(j + 1)).drop_last() =~= reset_body(
                            old_vars@,
                            keys_of(nv).take(j as int),
                        ));
                        assert(reset_body(old_vars@, keys_of(nv).take(j + 1)).last() == (k@, lookup(old_vars@, k@)));
                        lemma_insert(vars@, k@, v@);
                    }
                    vars.insert(k.clone(), v.clone());
                    if !reset.contains_key(k.as_str()) {
                        let old_value = match old_vars.get(k.as_str()) {
                            Some(o) => Some(o.clone()),
                            None => None,
                        };
                        proof {
                            lemma_insert(reset@, k@, opt_view(old_value));
                        }
                        reset.insert(k.clone(), old_value);
                    }
                },
                None => {},
            }
            j = j + 1;
        }
        proof {
            assert(nv.take(n as int) =~= nv);
            assert(keys_of(nv).take(n as int) =~= keys_of(nv));
        }
        let ghost refs0 = refs@;
        refs.push(flakes[i].0.clone());
        proof {
            assert(views(refs@) =~= views(refs0).push(flakes@[i as int].0@));
            assert(flake_names(fv.take(i + 1)) =~= flake_names(fv.take(i as int)).push(fv[i as int].0));
        }
        i = i + 1;
    }
    proof {
        assert(fv.take(flakes@.len() as int) =~= fv);
        lemma_insert(reset@, "ENVOLUNTARY_ENV_STATE"@, None);
    }
    reset.insert(String::from_str(ENVOLUNTARY_ENV_STATE_VAR_KEY), None);
    let env_state = EnvoluntaryEnvState { flake_references: refs, env_vars_reset: reset };
    let blob = env_state.encode();
    proof {
        lemma_remove(vars@, "ENVOLUNTARY_ENV_STATE"@);
    }
    vars.shift_remove(ENVOLUNTARY_ENV_STATE_VAR_KEY);
    proof {
        lemma_insert(vars@, "ENVOLUNTARY_ENV_STATE"@, blob@);
    }
    vars.insert(String::from_str(ENVOLUNTARY_ENV_STATE_VAR_KEY), blob);
    EnvVarsState::from(vars)
}

/// What an `export` request does, decided from whether configurations matched
/// and whether a previous state is installed.
#[derive(Debug, Clone)]
pub enum ExportPlan {
    /// Nothing to print.
    Done,
    /// Undo the previous state, and load nothing.
    FullReset(EnvVarsState),
    /// Load these configurations.
    SetNew(Vec<Config>),
    /// Undo the previous state, then load these configurations.
    ResetAndSetNew(EnvVarsState, Vec<Config>),
}

fn same_names(rcs: &Vec<Config>, names: &Vec<String>) -> (r: bool)
    ensures
        r == (config_names(rcs@) == views(names@)),
{
    if rcs.len() != names.len() {
        proof {
            assert(config_names(rcs@).len() != views(names@).len());
        }
        return false;
    }
    let mut i: usize = 0;
    while i < rcs.len()
        invariant
            rcs@.len() == names@.len(),
            i <= rcs@.len(),
            forall|j: int| 0 <= j < i ==> rcs@[j].flake_reference@ == names@[j]@,
        decreases rcs@.len() - i,
    {
        if !str_eq(rcs[i].flake_reference.as_str(), names[i].as_str()) {
            proof {
                assert(config_names(rcs@)[i as int] != views(names@)[i as int]);
            }
            return false;
        }
        i = i + 1;
    }
    proof {
        assert(config_names(rcs@) =~= views(names@));
    }
    true
}

/// The decision of an `export` request. With no match and no previous state
/// there is nothing to do; with no match and a previous state, that state is
/// reset; with matches and no previous state, they are loaded; with matches and
/// a previous state, nothing happens when the state was made by the same flake
/// references in the same order, and otherwise the state is reset and the
/// matches are loaded.
pub fn plan_export(match_rcs: crate::state::MatchRcs<Config>, env_state: Option<EnvoluntaryEnvState>) -> (r: ExportPlan)
    ensures
        match (match_rcs, env_state) {
            (crate::state::MatchRcs::NoRcs(_), None) => r is Done,
            (crate::state::MatchRcs::NoRcs(_), Some(s)) => r matches ExportPlan::FullReset(x) && x@ == s.env_vars_reset@,
            (crate::state::MatchRcs::Rcs(m), None) => r matches ExportPlan::SetNew(c) && c@ == m.rcs@,
            (crate::state::MatchRcs::Rcs(m), Some(s)) => if config_names(m.rcs@) == views(s.flake_references@) {
                r is Done
            } else {
                r matches ExportPlan::ResetAndSetNew(x, c) && x@ == s.env_vars_reset@ && c@ == m.rcs@
            },
        },
{
    match (match_rcs, env_state) {
        (crate::state::MatchRcs::NoRcs(_), None) => ExportPlan::Done,
        (crate::state::MatchRcs::NoRcs(_), Some(s)) => ExportPlan::FullReset(s.env_vars_reset),
        (crate::state::MatchRcs::Rcs(m), None) => ExportPlan::SetNew(m.rcs),
        (crate::state::MatchRcs::Rcs(m), Some(s)) => {
            if same_names(&m.rcs, &s.flake_references) {
                ExportPlan::Done
            } else {
                ExportPlan::ResetAndSetNew(s.env_vars_reset, m.rcs)
            }
        },
    }
}

/// The variables that fish receives as lists.
pub open spec fn delimited_vars() -> Seq<Seq<char>> {
    seq!["PATH"@, "XDG_DATA_DIRS"@]
}

/// The text of a state for a shell.
pub open spec fn shell_text(shell: EnvoluntaryShell, e: Seq<(Seq<char>, Option<Seq<char>>)>) -> Seq<char> {
    match shell {
        EnvoluntaryShell::Bash => bash_script(e),
        EnvoluntaryShell::Zsh => bash_script(e),
        EnvoluntaryShell::Fish => fish_script(e, delimited_vars()),
        EnvoluntaryShell::Json => pretty_object(e),
    }
}

/// Renders a state for the chosen shell; `PATH` and `XDG_DATA_DIRS` are lists.
pub fn shell_export(shell: EnvoluntaryShell, env_vars_state: EnvVarsState) -> (r: String)
    ensures
        r@ == shell_text(shell, env_vars_state@),
{
    let mut delimited: Vec<String> = Vec::new();
    delimited.push(String::from_str(ENV_VAR_KEY_PATH));
    delimited.push(String::from_str(ENV_VAR_KEY_XDG_DATA_DIRS));
    proof {
        assert(views(delimited@) =~= delimited_vars());
    }
    match shell {
        EnvoluntaryShell::Bash => crate::shells::bash::export(env_vars_state, Some(&delimited)),
        EnvoluntaryShell::Fish => crate::shells::fish::export(env_vars_state, Some(&delimited)),
        EnvoluntaryShell::Json => crate::shells::json::export(env_vars_state, Some(&delimited)),
        EnvoluntaryShell::Zsh => crate::shells::zsh::export(env_vars_state, Some(&delimited)),
    }
}

/// The output of an `export` request: the reset's script, if any, then the
/// new exports' script, if any, each ending in a newline.
pub open spec fn export_output(
    shell: EnvoluntaryShell,
    reset: Option<Seq<(Seq<char>, Option<Seq<char>>)>>,
    exports: Option<Seq<(Seq<char>, Option<Seq<char>>)>>,
) -> Seq<char> {
    (match reset {
        Some(e) => shell_text(shell, e) + "\n"@,
        None => Seq::<char>::empty(),
    }) + (match exports {
        Some(e) => shell_text(shell, e) + "\n"@,
        None => Seq::<char>::empty(),
    })
}

pub open spec fn opt_state(o: Option<EnvVarsState>) -> Option<Seq<(Seq<char>, Option<Seq<char>>)>> {
    match o {
        Some(s) => Some(s@),
        None => None,
    }
}

/// What `shell export` prints: resets first, so that the shell restores the
/// old values before it lays the new flake environment over them.
pub fn print_export(shell: EnvoluntaryShell, reset: Option<EnvVarsState>, exports: Option<EnvVarsState>) -> (r: String)
    ensures
        r@ == export_output(shell, opt_state(reset), opt_state(exports)),
{
    let mut r = String::new();
    match reset {
        Some(e) => {
            r.append(shell_export(shell, e).as_str());
            r.append("\n");
        },
        None => {},
    }
    match exports {
        Some(e) => {
            r.append(shell_export(shell, e).as_str());
            r.append("\n");
        },
        None => {},
    }
    r
}

/// Configurations built from explicit flake references, all with the same
/// `impure` setting.
pub fn configs_from_references(flake_references: &Vec<String>, impure: Option<bool>) -> (r: Vec<Config>)
    ensures
        config_names(r@) == views(flake_references@),
        forall|i: int| 0 <= i < r@.len() ==> (#[trigger] r@[i]).impure == impure,
{
    let mut r: Vec<Config> = Vec::new();
    let mut i: usize = 0;
    while i < flake_references.len()
        invariant
            i <= flake_references@.len(),
            config_names(r@) == views(flake_references@).take(i as int),
            forall|j: int| 0 <= j < r@.len() ==> (#[trigger] r@[j]).impure == impure,
        decreases flake_references@.len() - i,
    {
        let ghost before = r@;
        r.push(Config { flake_reference: flake_references[i].clone(), impure });
        proof {
            assert(config_names(r@) =~= config_names(before).push(flake_references@[i as int]@));
            assert(views(flake_references@).take(i + 1) =~= views(flake_references@).take(i as int).push(
                flake_references@[i as int]@,
            ));
        }
        i = i + 1;
    }
    proof {
        assert(views(flake_references@).take(flake_references@.len() as int) =~= views(flake_references@));
    }
    r
}

/// How to evaluate a flake: the command line's `impure` wins over the entry's;
/// impure only when the one that applies is `true`.
pub fn evaluation_mode(cli_impure: Option<bool>, config_impure: Option<bool>) -> (r: EvaluationMode)
    ensures
        r == (if (match cli_impure {
            Some(b) => b,
            None => config_impure == Some(true),
        }) {
            EvaluationMode::Impure
        } else {
            EvaluationMode::Pure
        }),
{
    let impure = match cli_impure {
        Some(b) => Some(b),
        None => config_impure,
    };
    match impure {
        Some(true) => EvaluationMode::Impure,
        _ => EvaluationMode::Pure,
    }
}

/// The cache directory of one flake reference: its SHA-1 under `cache_dir`.
pub fn get_cache_sub_dir(cache_dir: &str, flake_reference: &str) -> (r: String)
    ensures
        r@ == path_join(cache_dir@, sha1_hex(encode_utf8(flake_reference@))),
{
    let hash = hash_flake_reference(flake_reference);
    join_path(cache_dir, hash.as_str())
}

/// A shell hook cannot be made for JSON.
#[derive(Debug, Clone, Copy, PartialEq, Eq)]
pub enum HookError {
    NotAShell,
}

/// The hook for a shell, which runs `<current_exe> shell export <shell>` with
/// the program path quoted for that shell; JSON has none.
pub fn hook_script(shell: EnvoluntaryShell, current_exe: &str) -> (r: Result<String, HookError>)
    ensures
        match shell {
            EnvoluntaryShell::Bash => r matches Ok(h) && h@ == filled_template(
                crate::shells::bash::BASH_HOOK@,
                CLI_NAME@,
                bash_quoted(current_exe@) + " shell export bash"@,
            ),
            EnvoluntaryShell::Zsh => r matches Ok(h) && h@ == filled_template(
                crate::shells::zsh::ZSH_HOOK@,
                CLI_NAME@,
                bash_quoted(current_exe@) + " shell export zsh"@,
            ),
            EnvoluntaryShell::Fish => r matches Ok(h) && h@ == filled_template(
                crate::shells::fish::FISH_HOOK@,
                CLI_NAME@,
                fish_quoted(current_exe@) + " shell export fish"@,
            ),
            EnvoluntaryShell::Json => r == Err::<String, HookError>(HookError::NotAShell),
        },
{
    match shell {
        EnvoluntaryShell::Bash => {
            let mut command = bash_quote(current_exe);
            command.append(" shell export bash");
            Ok(crate::shells::bash::hook(CLI_NAME, command.as_str()))
        },
        EnvoluntaryShell::Zsh => {
            let mut command = bash_quote(current_exe);
            command.append(" shell export zsh");
            Ok(crate::shells::zsh::hook(CLI_NAME, command.as_str()))
        },
        EnvoluntaryShell::Fish => {
            let mut command = fish_quote(current_exe);
            command.append(" shell export fish");
            Ok(crate::shells::fish::hook(CLI_NAME, command.as_str()))
        },
        EnvoluntaryShell::Json => Err(HookError::NotAShell),
    }
}

/// The cache entry of a flake under `cache_dir`, in the directory named by the
/// digest of the reference as written (`flake_reference_text`, which
/// `flake_reference` is parsed from), and whether it must be rebuilt: when
/// forced, or when stale. `watched_contents` and
/// `watched_mtimes` describe `flake_reference.files_to_watch()`; `rc_mtime`
/// and `profile_is_file` describe the entry's script and profile link.
pub fn get_cache_profile(
    cache_dir: &str,
    flake_reference_text: &str,
    flake_reference: FlakeReference,
    force_update: bool,
    cli_impure: Option<bool>,
    config_impure: Option<bool>,
    watched_contents: &Vec<Option<Vec<u8>>>,
    rc_mtime: Option<u128>,
    profile_is_file: bool,
    watched_mtimes: &Vec<Option<u128>>,
) -> (r: Result<(NixProfileCache, bool), CacheError>)
    ensures
        flake_reference.flake_dir is Some && !crate::profile_cache::any_present(
            crate::profile_cache::contents_view(watched_contents@),
        ) ==> r == Err::<(NixProfileCache, bool), CacheError>(CacheError::NoFilesToHash),
        (flake_reference.flake_dir is None || crate::profile_cache::any_present(
            crate::profile_cache::contents_view(watched_contents@),
        )) ==> r is Ok,
        r matches Ok((c, update)) ==> ({
            &&& c.cache_dir@ == path_join(cache_dir@, sha1_hex(encode_utf8(flake_reference_text@)))
            &&& c.evaluation_mode == (if (match cli_impure {
                Some(b) => b,
                None => config_impure == Some(true),
            }) {
                EvaluationMode::Impure
            } else {
                EvaluationMode::Pure
            })
            &&& update == (force_update || rc_mtime is None || !profile_is_file || exists|i: int|
                0 <= i < watched_mtimes@.len() && crate::profile_cache::mtime_or_epoch(#[trigger] watched_mtimes@[i])
                    > rc_mtime.unwrap())
        }),
{
    let sub_dir = get_cache_sub_dir(cache_dir, flake_reference_text);
    let mode = evaluation_mode(cli_impure, config_impure);
    match NixProfileCache::new(sub_dir, flake_reference, mode, watched_contents) {
        Ok(cache) => {
            let stale = cache.needs_update(rc_mtime, profile_is_file, watched_mtimes);
            let update = force_update || stale;
            Ok((cache, update))
        },
        Err(e) => Err(e),
    }
}

/// Filtering keeps keys unique.
pub proof fn lemma_filter_unique(s: Seq<(Seq<char>, Seq<char>)>, pred: spec_fn((Seq<char>, Seq<char>)) -> bool)
    requires
        crate::env_vars::keys_unique(s),
    ensures
        crate::env_vars::keys_unique(s.filter(pred)),
    decreases s.len(),
{
    reveal(Seq::filter);
    if s.len() > 0 {
        let d = s.drop_last();
        assert(crate::env_vars::keys_unique(d)) by {
            assert forall|i: int, j: int| 0 <= i < d.len() && 0 <= j < d.len() && i != j implies #[trigger] d[i].0
                != #[trigger] d[j].0 by {
                assert(s[i] == d[i] && s[j] == d[j]);
            }
        }
        lemma_filter_unique(d, pred);
        crate::env_diff::lemma_filter_subset(d, pred);
        let f = d.filter(pred);
        if pred(s.last()) {
            let g = f.push(s.last());
            assert forall|i: int, j: int| 0 <= i < g.len() && 0 <= j < g.len() && i != j implies #[trigger] g[i].0
                != #[trigger] g[j].0 by {
                if i < f.len() && j < f.len() {
                } else {
                    let a = if i < f.len() { i } else { j };
                    assert(d.contains(f[a]));
                    let n = choose|n: int| 0 <= n < d.len() && d[n] == f[a];
                    assert(s[n] == d[n]);
                    assert(s[n].0 != s[s.len() - 1].0);
                }
            }
        }
    }
}

/// Setting the value of a name that is already there keeps the names in order.
pub proof fn lemma_insert_existing_keys(e: Seq<(Seq<char>, Seq<char>)>, k: Seq<char>, v: Seq<char>)
    requires
        crate::env_vars::has_key(e, k),
    ensures
        keys_of(entries_insert(e, k, v)) == keys_of(e),
        crate::env_vars::has_key(entries_insert(e, k, v), k),
{
    let i = crate::env_vars::key_index(e, k);
    assert(e[i].0 == k);
    assert(keys_of(entries_insert(e, k, v)) =~= keys_of(e));
    assert(entries_insert(e, k, v)[i].0 == k);
}

/// Merging keeps the names of the new variables, in order.
pub proof fn lemma_merged_keys(var: Seq<char>, o: Seq<(Seq<char>, Seq<char>)>, n: Seq<(Seq<char>, Seq<char>)>)
    ensures
        keys_of(merged_into(var, ':', ':', o, n)) == keys_of(n),
{
    if has_key_both(o, n, var) {
        lemma_insert_existing_keys(n, var, crate::env_diff::merged_value(':', ':', lookup(o, var)->0, lookup(n, var)->0));
    }
}

/// The reset that an export stores in its blob brings back what the export
/// changed: for every variable the export sets (but the state variable),
/// applying the reset to whatever environment it finds leaves the value the
/// process had before (its variables but the ignored ones), or unsets it where
/// the process had none. This holds for each variable whose old value differs
/// from what the flake sets; one the flake set to the value it already had is
/// unset.
pub proof fn law_export_reset_restores_previous_values(
    bash: Seq<(Seq<char>, Seq<char>)>,
    process: Seq<(Seq<char>, Seq<char>)>,
    old_path: Option<Seq<char>>,
    env: Map<Seq<char>, Seq<char>>,
    k: Seq<char>,
)
    requires
        crate::env_vars::keys_unique(bash),
        crate::env_vars::keys_unique(process),
        crate::env_vars::has_key(exported(bash, process, old_path), k),
        k != "ENVOLUNTARY_ENV_STATE"@,
        lookup(without_ignored(process), k) != lookup(harvested(bash, old_path), k),
    ensures
        crate::env_diff::env_get(
            crate::env_diff::apply_state(
                env,
                reset_entries(
                    overwritten(bash, process, old_path),
                    keys_of(exported(bash, process, old_path)),
                    "ENVOLUNTARY_ENV_STATE"@,
                ),
            ),
            k,
        ) == lookup(without_ignored(process), k),
{
    let h = harvested(bash, old_path);
    let o = overwritten(bash, process, old_path);
    let m1 = merged_into("PATH"@, ':', ':', o, h);
    lemma_merged_keys("PATH"@, o, h);
    lemma_merged_keys("XDG_DATA_DIRS"@, o, m1);
    let x = exported(bash, process, old_path);
    assert(keys_of(x) == keys_of(h));
    assert(crate::env_vars::has_key(h, k)) by {
        let i = crate::env_vars::key_index(x, k);
        assert(keys_of(x)[i] == k);
        assert(h[i].0 == k);
    }
    lemma_filter_unique(bash, |p: (Seq<char>, Seq<char>)| !crate::env_diff::ignored_key(p.0));
    lemma_remove(without_ignored(bash), "PATH"@);
    lemma_filter_unique(process, |p: (Seq<char>, Seq<char>)| !crate::env_diff::ignored_key(p.0));
    crate::env_diff::law_reset_restores_previous_values(without_ignored(process), h, "ENVOLUNTARY_ENV_STATE"@, env, k);
}

/// Inserting adds exactly the inserted name to the names present.
pub proof fn lemma_insert_has_key<V>(e: Seq<(Seq<char>, V)>, k: Seq<char>, v: V, q: Seq<char>)
    ensures
        has_key(entries_insert(e, k, v), q) <==> (has_key(e, q) || q == k),
{
    let r = entries_insert(e, k, v);
    if has_key(e, k) {
        let idx = crate::env_vars::key_index(e, k);
        assert(e[idx].0 == k);
        if has_key(e, q) {
            let j = crate::env_vars::key_index(e, q);
            assert(r[j].0 == q);
        }
        if q == k {
            assert(r[idx].0 == q);
        }
        if has_key(r, q) {
            let j = crate::env_vars::key_index(r, q);
            if j != idx {
                assert(e[j].0 == q);
            }
        }
    } else {
        if has_key(e, q) {
            let j = crate::env_vars::key_index(e, q);
            assert(r[j].0 == q);
        }
        if q == k {
            assert(r[e.len() as int].0 == q);
        }
        if has_key(r, q) {
            let j = crate::env_vars::key_index(r, q);
            if j < e.len() {
                assert(e[j].0 == q);
            }
        }
    }
}

pub proof fn lemma_extend_has_key(a: Seq<(Seq<char>, Seq<char>)>, b: Seq<(Seq<char>, Seq<char>)>, q: Seq<char>)
    ensures
        has_key(extend_entries(a, b), q) <==> (has_key(a, q) || has_key(b, q)),
    decreases b.len(),
{
    if b.len() > 0 {
        let d = b.drop_last();
        lemma_extend_has_key(a, d, q);
        lemma_insert_has_key(extend_entries(a, d), b.last().0, b.last().1, q);
        if has_key(d, q) {
            let j = crate::env_vars::key_index(d, q);
            assert(b[j].0 == q);
        }
        if q == b.last().0 {
            assert(b[b.len() - 1].0 == q);
        }
        if has_key(b, q) {
            let j = crate::env_vars::key_index(b, q);
            if j < d.len() {
                assert(d[j].0 == q);
            }
        }
    }
}

pub proof fn lemma_first_wins_has_key(
    a: Seq<(Seq<char>, Option<Seq<char>>)>,
    b: Seq<(Seq<char>, Option<Seq<char>>)>,
    q: Seq<char>,
)
    ensures
        has_key(first_wins(a, b), q) <==> (has_key(a, q) || has_key(b, q)),
    decreases b.len(),
{
    if b.len() > 0 {
        let d = b.drop_last();
        lemma_first_wins_has_key(a, d, q);
        let r = first_wins(a, d);
        if has_key(r, q) {
            let j = crate::env_vars::key_index(r, q);
            assert(r.push(b.last())[j].0 == q);
        }
        if q == b.last().0 && !has_key(r, q) {
            assert(r.push(b.last())[r.len() as int].0 == q);
        }
        if has_key(r.push(b.last()), q) {
            let j = crate::env_vars::key_index(r.push(b.last()), q);
            if j < r.len() {
                assert(r[j].0 == q);
            }
        }
        if has_key(d, q) {
            let j = crate::env_vars::key_index(d, q);
            assert(b[j].0 == q);
        }
        if q == b.last().0 {
            assert(b[b.len() - 1].0 == q);
        }
        if has_key(b, q) {
            let j = crate::env_vars::key_index(b, q);
            if j < d.len() {
                assert(d[j].0 == q);
            }
        }
    }
}

pub proof fn lemma_composed_keys(fs: Seq<FlakeView>, q: Seq<char>)
    ensures
        has_key(composed_vars(fs), q) <==> has_key(composed_reset_body(fs), q),
    decreases fs.len(),
{
    if fs.len() > 0 {
        let d = fs.drop_last();
        let f = fs.last();
        lemma_composed_keys(d, q);
        lemma_extend_has_key(composed_vars(d), f.1, q);
        let body = reset_body(f.2, keys_of(f.1));
        lemma_first_wins_has_key(composed_reset_body(d), body, q);
        if has_key(f.1, q) {
            let j = crate::env_vars::key_index(f.1, q);
            assert(body[j].0 == q);
        }
        if has_key(body, q) {
            let j = crate::env_vars::key_index(body, q);
            assert(f.1[j].0 == q);
        }
    }
}

/// The reset kept in a multi-flake export's blob names every variable the
/// export sets, and the state variable itself: leaving undoes every flake.
pub proof fn law_composed_reset_covers_every_export(fs: Seq<FlakeView>, q: Seq<char>)
    requires
        has_key(composed_vars(fs), q) || q == "ENVOLUNTARY_ENV_STATE"@,
    ensures
        has_key(composed_reset(fs), q),
{
    lemma_composed_keys(fs, q);
    lemma_insert_has_key(composed_reset_body(fs), "ENVOLUNTARY_ENV_STATE"@, None::<Seq<char>>, q);
}

} // verus!
