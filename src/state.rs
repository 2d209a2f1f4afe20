//! The prompt-hook protocol as a chain of states. Each step takes what the
//! shell side found (the working directory, the matching configurations, the
//! state variable) and yields the next state, so that a step can only be taken
//! from the state it belongs to.
use vstd::prelude::*;

verus! {

/// The start of a prompt.
#[derive(Debug, Clone, Copy, Default)]
pub struct ShellPromptState;

impl ShellPromptState {
    /// The directory to work in: the one given explicitly, else the process's
    /// own; `None` when neither is known.
    pub fn get_current_dir(provided_current_dir: Option<String>, process_current_dir: Option<String>) -> (r: Option<CurrentDirState>)
        ensures
            match provided_current_dir {
                Some(d) => r is Some && r.unwrap().current_dir@ == d@,
                None => match process_current_dir {
                    Some(d) => r is Some && r.unwrap().current_dir@ == d@,
                    None => r is None,
                },
            },
    {
        match provided_current_dir {
            Some(current_dir) => Some(CurrentDirState { current_dir }),
            None => match process_current_dir {
                Some(current_dir) => Some(CurrentDirState { current_dir }),
                None => None,
            },
        }
    }

    /// Walks a directory and its ancestors, given as the names of each one's
    /// entries from the directory upwards, and tells whether `check_cb`
    /// accepts any entry.
    pub fn check_files_backwards<T: Fn(&String) -> bool>(listings: &Vec<Vec<String>>, check_cb: T) -> (r: bool)
        requires
            forall|s: &String| #[trigger] check_cb.requires((s,)),
        ensures
            r ==> exists|i: int, j: int|
                0 <= i < listings@.len() && 0 <= j < listings@[i]@.len() && check_cb.ensures(
                    (&listings@[i]@[j],),
                    true,
                ),
            !r ==> forall|i: int, j: int|
                0 <= i < listings@.len() && 0 <= j < listings@[i]@.len() ==> check_cb.ensures(
                    (#[trigger] &listings@[i]@[j],),
                    false,
                ),
    {
        let mut i: usize = 0;
        while i < listings.len()
            invariant
                i <= listings@.len(),
                forall|s: &String| #[trigger] check_cb.requires((s,)),
                forall|a: int, b: int|
                    0 <= a < i && 0 <= b < listings@[a]@.len() ==> check_cb.ensures(
                        (#[trigger] &listings@[a]@[b],),
                        false,
                    ),
            decreases listings@.len() - i,
        {
            let entries = &listings[i];
            let mut j: usize = 0;
            while j < entries.len()
                invariant
                    i < listings@.len(),
                    entries == &listings@[i as int],
                    j <= entries@.len(),
                    forall|s: &String| #[trigger] check_cb.requires((s,)),
                    forall|a: int, b: int|
                        0 <= a < i && 0 <= b < listings@[a]@.len() ==> check_cb.ensures(
                            (#[trigger] &listings@[a]@[b],),
                            false,
                        ),
                    forall|b: int| 0 <= b < j ==> check_cb.ensures((#[trigger] &entries@[b],), false),
                decreases entries@.len() - j,
            {
                if check_cb(&entries[j]) {
                    return true;
                }
                j = j + 1;
            }
            i = i + 1;
        }
        false
    }
}

/// The working directory is known.
#[derive(Debug, Clone)]
pub struct CurrentDirState {
    pub current_dir: String,
}

impl CurrentDirState {
    /// Sorts the configurations that match the directory into none or some.
    pub fn match_rcs<RC>(self, rcs: Vec<RC>) -> (r: MatchRcs<RC>)
        ensures
            rcs@.len() == 0 <==> r is NoRcs,
            r matches MatchRcs::Rcs(s) ==> s.rcs@ == rcs@,
    {
        if rcs.len() == 0 {
            MatchRcs::NoRcs(NoRcsState)
        } else {
            MatchRcs::Rcs(RcsState { rcs })
        }
    }
}

/// Whether any configuration matched.
#[derive(Debug, Clone)]
pub enum MatchRcs<RC> {
    NoRcs(NoRcsState),
    Rcs(RcsState<RC>),
}

/// Nothing matched the directory.
#[derive(Debug, Clone)]
pub struct NoRcsState;

impl NoRcsState {
    /// With a state variable set, everything the tool exported must be reset;
    /// without one there is nothing to do.
    pub fn get_env_state_var(self, env_state_var_value: Option<String>) -> (r: Option<ReadyForFullResetState>)
        ensures
            match env_state_var_value {
                Some(v) => r is Some && r.unwrap().env_state_var_value@ == v@,
                None => r is None,
            },
    {
        match env_state_var_value {
            Some(env_state_var_value) => Some(ReadyForFullResetState { env_state_var_value }),
            None => None,
        }
    }
}

/// Nothing matches, and a previous state is installed.
#[derive(Debug, Clone)]
pub struct ReadyForFullResetState {
    pub env_state_var_value: String,
}

impl ReadyForFullResetState {
    /// The state blob whose reset is to be applied.
    pub fn reset_env_vars(self) -> (r: String)
        ensures
            r@ == self.env_state_var_value@,
    {
        self.env_state_var_value
    }
}

/// Some configurations matched, in order.
#[derive(Debug, Clone)]
pub struct RcsState<RC> {
    pub rcs: Vec<RC>,
}

impl<RC> RcsState<RC> {
    /// Tells a first entry from a change, by whether a state variable is set.
    pub fn get_env_state_var(self, env_state_var_value: Option<String>) -> (r: GetEnvStateVar<RC>)
        ensures
            match env_state_var_value {
                Some(v) => r matches GetEnvStateVar::EnvStateVar(s) && s.rcs@ == self.rcs@
                    && s.env_state_var_value@ == v@,
                None => r matches GetEnvStateVar::NoEnvStateVar(s) && s.rcs@ == self.rcs@,
            },
    {
        let rcs = self.rcs;
        match env_state_var_value {
            Some(env_state_var_value) => GetEnvStateVar::EnvStateVar(EnvStateVarState { rcs, env_state_var_value }),
            None => GetEnvStateVar::NoEnvStateVar(NoEnvStateVarState { rcs }),
        }
    }
}

/// Whether a previous state is installed.
#[derive(Debug, Clone)]
pub enum GetEnvStateVar<RC> {
    NoEnvStateVar(NoEnvStateVarState<RC>),
    EnvStateVar(EnvStateVarState<RC>),
}

/// Configurations matched and none was loaded before.
#[derive(Debug, Clone)]
pub struct NoEnvStateVarState<RC> {
    pub rcs: Vec<RC>,
}

impl<RC> NoEnvStateVarState<RC> {
    /// The configurations whose environments are to be exported.
    pub fn set_new_env_state_var(self) -> (r: Vec<RC>)
        ensures
            r@ == self.rcs@,
    {
        self.rcs
    }
}

/// Configurations matched and a previous state is installed.
#[derive(Debug, Clone)]
pub struct EnvStateVarState<RC> {
    pub rcs: Vec<RC>,
    pub env_state_var_value: String,
}

impl<RC> EnvStateVarState<RC> {
    /// The configurations and the previous state blob, to compare, reset and
    /// export anew.
    pub fn reset_and_set_new_env_state_var(self) -> (r: (Vec<RC>, String))
        ensures
            r.0@ == self.rcs@,
            r.1@ == self.env_state_var_value@,
    {
        (self.rcs, self.env_state_var_value)
    }
}

} // verus!
