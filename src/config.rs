//! The directory-to-flake resolver: configuration entries, how a directory is
//! matched against them, and where configuration and cache live by default.
use crate::shell::{Config, CLI_NAME};
use crate::strings::{is_prefix, starts_with, substring};
use vstd::prelude::*;
use vstd::string::{StrSliceExecFns, StringExecFns};

verus! {

/// Whether `regex::Regex::new` accepts a pattern.
pub uninterp spec fn regex_valid(pattern: Seq<char>) -> bool;

/// What `regex::Regex::is_match` says of a valid pattern and a haystack:
/// whether the pattern matches somewhere in it.
pub uninterp spec fn regex_matches(pattern: Seq<char>, haystack: Seq<char>) -> bool;

/// What `regex::Regex::find` returns for a valid pattern: the text of the
/// leftmost-first match in the haystack, if any.
pub uninterp spec fn regex_found(pattern: Seq<char>, haystack: Seq<char>) -> Option<Seq<char>>;

/// Relies on `regex::Regex::find`, on the regex that `regex::Regex::new`
/// compiles from `pattern`; `None` when the pattern does not compile.
#[verifier::external_body]
pub(crate) fn regex_find(pattern: &str, haystack: &str) -> (r: Option<String>)
    ensures
        regex_valid(pattern@) ==> opt_str(r) == regex_found(pattern@, haystack@),
        !regex_valid(pattern@) ==> r is None,
{
    match regex::Regex::new(pattern) {
        Ok(re) => re.find(haystack).map(|m| m.as_str().to_string()),
        Err(_) => None,
    }
}

/// Relies on `regex::Regex::new`: whether the pattern compiles.
#[verifier::external_body]
pub(crate) fn regex_compiles(pattern: &str) -> (r: bool)
    ensures
        r == regex_valid(pattern@),
{
    regex::Regex::new(pattern).is_ok()
}

/// Relies on `regex::Regex::is_match`, on the regex that `regex::Regex::new`
/// compiles from `pattern`.
#[verifier::external_body]
fn regex_is_match(pattern: &str, haystack: &str) -> (r: bool)
    requires
        regex_valid(pattern@),
    ensures
        r == regex_matches(pattern@, haystack@),
{
    match regex::Regex::new(pattern) {
        Ok(re) => re.is_match(haystack),
        Err(_) => false,
    }
}

/// Why a configuration or a path could not be had.
#[derive(Debug, Clone, Copy, PartialEq, Eq)]
pub enum ConfigError {
    /// `pattern` is not a valid regular expression.
    InvalidPattern,
    /// `pattern_adjacent` is not a valid regular expression.
    InvalidPatternAdjacent,
    /// `$HOME` is not known.
    MissingHome,
}

/// One configuration entry: the directories it applies to, an optional
/// predicate on the files next to them, and what it loads.
#[derive(Debug)]
pub struct ConfigEntry {
    pub pattern: String,
    pub pattern_adjacent: Option<String>,
    pub config: Config,
}

pub open spec fn opt_str(o: Option<String>) -> Option<Seq<char>> {
    match o {
        Some(s) => Some(s@),
        None => None,
    }
}

impl View for ConfigEntry {
    type V = (Seq<char>, Option<Seq<char>>, Seq<char>, Option<bool>);

    open spec fn view(&self) -> Self::V {
        (self.pattern@, opt_str(self.pattern_adjacent), self.config.flake_reference@, self.config.impure)
    }
}

impl ConfigEntry {
    /// Both patterns compile.
    pub open spec fn valid(&self) -> bool {
        regex_valid(self.pattern@) && match self.pattern_adjacent {
            Some(a) => regex_valid(a@),
            None => true,
        }
    }

    /// A checked entry: an error names the first pattern that does not compile.
    pub fn new(pattern: String, flake_reference: String, pattern_adjacent: Option<String>, impure: Option<bool>) -> (r: Result<ConfigEntry, ConfigError>)
        ensures
            !regex_valid(pattern@) ==> r == Err::<ConfigEntry, ConfigError>(ConfigError::InvalidPattern),
            regex_valid(pattern@) && (pattern_adjacent matches Some(a) && !regex_valid(a@)) ==> r == Err::<
                ConfigEntry,
                ConfigError,
            >(ConfigError::InvalidPatternAdjacent),
            r matches Ok(e) ==> e.valid() && e@ == (pattern@, opt_str(pattern_adjacent), flake_reference@, impure),
            (regex_valid(pattern@) && match pattern_adjacent {
                Some(a) => regex_valid(a@),
                None => true,
            }) ==> r is Ok,
    {
        if !regex_compiles(pattern.as_str()) {
            return Err(ConfigError::InvalidPattern);
        }
        match &pattern_adjacent {
            Some(a) => {
                if !regex_compiles(a.as_str()) {
                    return Err(ConfigError::InvalidPatternAdjacent);
                }
            },
            None => {},
        }
        Ok(ConfigEntry { pattern, pattern_adjacent, config: Config { flake_reference, impure } })
    }

    /// A copy of the entry.
    pub fn duplicate(&self) -> (r: ConfigEntry)
        ensures
            r@ == self@,
            self.valid() ==> r.valid(),
    {
        let pattern_adjacent = match &self.pattern_adjacent {
            Some(a) => Some(a.clone()),
            None => None,
        };
        ConfigEntry {
            pattern: self.pattern.clone(),
            pattern_adjacent,
            config: Config { flake_reference: self.config.flake_reference.clone(), impure: self.config.impure },
        }
    }
}

/// `path` with a leading `home` written as `~`.
pub open spec fn tilde_of(path: Seq<char>, home: Option<Seq<char>>) -> Option<Seq<char>> {
    match home {
        Some(h) => if is_prefix(h, path) {
            Some("~"@ + path.subrange(h.len() as int, path.len() as int))
        } else {
            None
        },
        None => None,
    }
}

/// The pattern matches the path as it is, or its `~` form.
pub open spec fn path_matches(pattern: Seq<char>, path: Seq<char>, home: Option<Seq<char>>) -> bool {
    regex_matches(pattern, path) || match tilde_of(path, home) {
        Some(t) => regex_matches(pattern, t),
        None => false,
    }
}

/// Some entry of some ancestor, listed from the directory upwards by the full
/// paths of its entries, matches the pattern.
pub open spec fn adjacent_found(pattern: Seq<char>, listings: Seq<Seq<Seq<char>>>, home: Option<Seq<char>>) -> bool {
    exists|i: int, j: int|
        0 <= i < listings.len() && 0 <= j < listings[i].len() && path_matches(pattern, #[trigger] listings[i][j], home)
}

/// Whether an entry applies to a directory.
pub open spec fn entry_matches(
    e: (Seq<char>, Option<Seq<char>>, Seq<char>, Option<bool>),
    path: Seq<char>,
    home: Option<Seq<char>>,
    listings: Seq<Seq<Seq<char>>>,
) -> bool {
    path_matches(e.0, path, home) && match e.1 {
        Some(a) => adjacent_found(a, listings, home),
        None => true,
    }
}

/// The entries that apply to a directory, in order.
pub open spec fn matching(
    all: Seq<(Seq<char>, Option<Seq<char>>, Seq<char>, Option<bool>)>,
    path: Seq<char>,
    home: Option<Seq<char>>,
    listings: Seq<Seq<Seq<char>>>,
) -> Seq<(Seq<char>, Option<Seq<char>>, Seq<char>, Option<bool>)> {
    all.filter(|e: (Seq<char>, Option<Seq<char>>, Seq<char>, Option<bool>)| entry_matches(e, path, home, listings))
}

/// Matching is a function of its inputs: matching the same directory against
/// the same configuration, with the same home and listings, any number of
/// times gives the same entries in the same order.
pub proof fn law_matching_repeats(
    all: Seq<(Seq<char>, Option<Seq<char>>, Seq<char>, Option<bool>)>,
    path: Seq<char>,
    home: Option<Seq<char>>,
    listings: Seq<Seq<Seq<char>>>,
    first: Seq<(Seq<char>, Option<Seq<char>>, Seq<char>, Option<bool>)>,
    second: Seq<(Seq<char>, Option<Seq<char>>, Seq<char>, Option<bool>)>,
)
    requires
        first == matching(all, path, home, listings),
        second == matching(all, path, home, listings),
    ensures
        first == second,
{
}

/// Writing the home directory as `~` never adds entries: a directory under
/// home matches every entry that its `~` form matches.
pub proof fn law_tilde_form_matches_no_more(
    e: (Seq<char>, Option<Seq<char>>, Seq<char>, Option<bool>),
    path: Seq<char>,
    home: Seq<char>,
    listings: Seq<Seq<Seq<char>>>,
)
    requires
        tilde_of(path, Some(home)) is Some,
        tilde_of(tilde_of(path, Some(home))->0, Some(home)) is None,
    ensures
        entry_matches(e, tilde_of(path, Some(home))->0, Some(home), listings) ==> entry_matches(
            e,
            path,
            Some(home),
            listings,
        ),
{
}

pub open spec fn listing_views(l: Seq<Vec<String>>) -> Seq<Seq<Seq<char>>> {
    l.map_values(|v: Vec<String>| v@.map_values(|s: String| s@))
}

/// Replaces a leading `home` by `~`; `None` when `home` is unknown or does not
/// begin the path.
pub fn replace_home_with_tilde(path_string: &str, home: Option<&str>) -> (r: Option<String>)
    ensures
        opt_str(r) == tilde_of(path_string@, match home {
            Some(h) => Some(h@),
            None => None,
        }),
{
    match home {
        Some(h) => {
            if starts_with(path_string, h) {
                let mut t = String::from_str("~");
                let rest = substring(path_string, h.unicode_len(), path_string.unicode_len());
                t.append(rest.as_str());
                Some(t)
            } else {
                None
            }
        },
        None => None,
    }
}

fn path_is_match_with_or_without_home_tilde(path_string: &str, home: Option<&str>, pattern: &str) -> (r: bool)
    requires
        regex_valid(pattern@),
    ensures
        r == path_matches(pattern@, path_string@, match home {
            Some(h) => Some(h@),
            None => None,
        }),
{
    if regex_is_match(pattern, path_string) {
        return true;
    }
    match replace_home_with_tilde(path_string, home) {
        Some(t) => regex_is_match(pattern, t.as_str()),
        None => false,
    }
}

/// Whether any entry of the listed directories matches `pattern_adjacent`.
fn find_adjacent_dir_entry_walking_up_file_hierarchy(listings: &Vec<Vec<String>>, home: Option<&str>, pattern_adjacent: &str) -> (r: bool)
    requires
        regex_valid(pattern_adjacent@),
    ensures
        r == adjacent_found(pattern_adjacent@, listing_views(listings@), match home {
            Some(h) => Some(h@),
            None => None,
        }),
{
    let ghost hv = match home {
        Some(h) => Some(h@),
        None => None,
    };
    let ghost lv = listing_views(listings@);
    let mut i: usize = 0;
    while i < listings.len()
        invariant
            i <= listings@.len(),
            regex_valid(pattern_adjacent@),
            lv == listing_views(listings@),
            hv == match home {
                Some(h) => Some(h@),
                None => None,
            },
            forall|a: int, b: int| 0 <= a < i && 0 <= b < lv[a].len() ==> !path_matches(pattern_adjacent@, #[trigger] lv[a][b], hv),
        decreases listings@.len() - i,
    {
        let entries = &listings[i];
        let mut j: usize = 0;
        while j < entries.len()
            invariant
                i < listings@.len(),
                entries == &listings@[i as int],
                j <= entries@.len(),
                regex_valid(pattern_adjacent@),
                lv == listing_views(listings@),
                hv == match home {
                    Some(h) => Some(h@),
                    None => None,
                },
                forall|a: int, b: int| 0 <= a < i && 0 <= b < lv[a].len() ==> !path_matches(pattern_adjacent@, #[trigger] lv[a][b], hv),
                forall|b: int| 0 <= b < j ==> !path_matches(pattern_adjacent@, #[trigger] lv[i as int][b], hv),
            decreases entries@.len() - j,
        {
            if path_is_match_with_or_without_home_tilde(entries[j].as_str(), home, pattern_adjacent) {
                proof {
                    assert(lv[i as int][j as int] == entries@[j as int]@);
                    assert(path_matches(pattern_adjacent@, lv[i as int][j as int], hv));
                }
                return true;
            }
            proof {
                assert(lv[i as int][j as int] == entries@[j as int]@);
            }
            j = j + 1;
        }
        i = i + 1;
    }
    false
}

/// The configuration file's contents: its entries, in file order.
#[derive(Debug)]
pub struct EnvoluntaryConfig {
    entries: Vec<ConfigEntry>,
}

impl View for EnvoluntaryConfig {
    type V = Seq<(Seq<char>, Option<Seq<char>>, Seq<char>, Option<bool>)>;

    closed spec fn view(&self) -> Self::V {
        self.entries@.map_values(|e: ConfigEntry| e@)
    }
}

impl EnvoluntaryConfig {
    /// Every entry's patterns compile.
    #[verifier::type_invariant]
    spec fn inv(&self) -> bool {
        forall|i: int| 0 <= i < self.entries@.len() ==> (#[trigger] self.entries@[i]).valid()
    }

    /// A configuration with no entries.
    pub fn new() -> (r: Self)
        ensures
            r@ == Seq::<(Seq<char>, Option<Seq<char>>, Seq<char>, Option<bool>)>::empty(),
    {
        let r = EnvoluntaryConfig { entries: Vec::new() };
        proof {
            assert(r@ =~= Seq::<(Seq<char>, Option<Seq<char>>, Seq<char>, Option<bool>)>::empty());
        }
        r
    }

    /// The entries, in file order.
    pub fn entries(&self) -> (r: &Vec<ConfigEntry>)
        ensures
            r@.map_values(|e: ConfigEntry| e@) == self@,
    {
        &self.entries
    }

    /// The configuration with `entry` added last.
    pub fn add_entry(self, entry: ConfigEntry) -> (r: Self)
        requires
            entry.valid(),
        ensures
            r@ == self@.push(entry@),
    {
        proof {
            use_type_invariant(&self);
        }
        let ghost before = self@;
        let mut entries = self.entries;
        entries.push(entry);
        let r = EnvoluntaryConfig { entries };
        proof {
            assert(r@ =~= before.push(entry@));
        }
        r
    }

    /// The entries that apply to the directory `path`, in file order. An entry
    /// applies when its pattern matches the path, as it is or with a leading
    /// `home` written as `~`, and, if it has a `pattern_adjacent`, when that
    /// matches (in the same two forms) the path of some entry of the directory
    /// or of one of its ancestors. `adjacent_listings` lists, from `path`
    /// upwards to the root, the full paths of each directory's entries.
    pub fn matching_entries(&self, path: &str, home: Option<&str>, adjacent_listings: &Vec<Vec<String>>) -> (r: Vec<ConfigEntry>)
        ensures
            r@.map_values(|e: ConfigEntry| e@) == matching(
                self@,
                path@,
                match home {
                    Some(h) => Some(h@),
                    None => None,
                },
                listing_views(adjacent_listings@),
            ),
    {
        proof {
            use_type_invariant(self);
        }
        let ghost hv = match home {
            Some(h) => Some(h@),
            None => None,
        };
        let ghost lv = listing_views(adjacent_listings@);
        let ghost all = self@;
        let mut r: Vec<ConfigEntry> = Vec::new();
        let mut i: usize = 0;
        while i < self.entries.len()
            invariant
                i <= self.entries@.len(),
                all == self@,
                all == self.entries@.map_values(|e: ConfigEntry| e@),
                forall|k: int| 0 <= k < self.entries@.len() ==> (#[trigger] self.entries@[k]).valid(),
                hv == match home {
                    Some(h) => Some(h@),
                    None => None,
                },
                lv == listing_views(adjacent_listings@),
                r@.map_values(|e: ConfigEntry| e@) == matching(all.take(i as int), path@, hv, lv),
            decreases self.entries@.len() - i,
        {
            let entry = &self.entries[i];
            let pattern_match = path_is_match_with_or_without_home_tilde(path, home, entry.pattern.as_str());
            let matched = if pattern_match {
                match &entry.pattern_adjacent {
                    Some(a) => find_adjacent_dir_entry_walking_up_file_hierarchy(adjacent_listings, home, a.as_str()),
                    None => true,
                }
            } else {
                false
            };
            proof {
                assert(all[i as int] == entry@);
                assert(matched == entry_matches(entry@, path@, hv, lv));
                reveal(Seq::filter);
                let s = all.take(i + 1);
                assert(s.drop_last() =~= all.take(i as int));
                assert(s.last() == entry@);
                assert(matching(s, path@, hv, lv) == if entry_matches(s.last(), path@, hv, lv) {
                    matching(s.drop_last(), path@, hv, lv).push(s.last())
                } else {
                    matching(s.drop_last(), path@, hv, lv)
                });
            }
            let ghost before = r@;
            if matched {
                r.push(entry.duplicate());
                proof {
                    assert(r@.map_values(|e: ConfigEntry| e@) =~= before.map_values(|e: ConfigEntry| e@).push(entry@));
                }
            }
            i = i + 1;
        }
        proof {
            assert(all.take(self.entries@.len() as int) =~= all);
        }
        r
    }
}

/// `part` appended to `base` as a path component, as `Path::join` does for a
/// relative `part`.
pub open spec fn path_join(base: Seq<char>, part: Seq<char>) -> Seq<char> {
    if base.len() == 0 {
        part
    } else if base.last() == '/' {
        base + part
    } else {
        base + "/"@ + part
    }
}

/// Joins a relative component to a path.
pub fn join_path(base: &str, part: &str) -> (r: String)
    ensures
        r@ == path_join(base@, part@),
{
    let n = base.unicode_len();
    let mut r = String::from_str(base);
    if n == 0 {
        return String::from_str(part);
    }
    if base.get_char(n - 1) != '/' {
        r.append("/");
    }
    r.append(part);
    r
}

/// Where configuration lives: `$XDG_CONFIG_HOME`, else `$HOME/.config`.
pub open spec fn config_home(xdg_config_home: Option<Seq<char>>, home: Option<Seq<char>>) -> Option<Seq<char>> {
    match xdg_config_home {
        Some(x) => Some(x),
        None => match home {
            Some(h) => Some(path_join(h, ".config"@)),
            None => None,
        },
    }
}

/// Where caches live: `$XDG_CACHE_HOME`, else `$HOME/.cache`.
pub open spec fn cache_home(xdg_cache_home: Option<Seq<char>>, home: Option<Seq<char>>) -> Option<Seq<char>> {
    match xdg_cache_home {
        Some(x) => Some(x),
        None => match home {
            Some(h) => Some(path_join(h, ".cache"@)),
            None => None,
        },
    }
}

/// The configuration file: the path given, else `config.toml` in this tool's
/// directory under the configuration home; `MissingHome` when neither that
/// home nor `$HOME` is known.
pub fn get_config_path(provided_config_path: Option<String>, xdg_config_home: Option<String>, home: Option<String>) -> (r: Result<String, ConfigError>)
    ensures
        match provided_config_path {
            Some(p) => r matches Ok(s) && s@ == p@,
            None => match config_home(opt_str(xdg_config_home), opt_str(home)) {
                Some(c) => r matches Ok(s) && s@ == path_join(path_join(c, CLI_NAME@), "config.toml"@),
                None => r == Err::<String, ConfigError>(ConfigError::MissingHome),
            },
        },
{
    match provided_config_path {
        Some(p) => Ok(p),
        None => {
            let config_home_dir = match xdg_config_home {
                Some(x) => x,
                None => match home {
                    Some(h) => join_path(h.as_str(), ".config"),
                    None => return Err(ConfigError::MissingHome),
                },
            };
            let dir = join_path(config_home_dir.as_str(), CLI_NAME);
            Ok(join_path(dir.as_str(), "config.toml"))
        },
    }
}

/// The cache directory: the one given, else this tool's directory under the
/// cache home; `MissingHome` when neither that home nor `$HOME` is known.
pub fn get_cache_dir(provided_cache_dir: Option<String>, xdg_cache_home: Option<String>, home: Option<String>) -> (r: Result<String, ConfigError>)
    ensures
        match provided_cache_dir {
            Some(p) => r matches Ok(s) && s@ == p@,
            None => match cache_home(opt_str(xdg_cache_home), opt_str(home)) {
                Some(c) => r matches Ok(s) && s@ == path_join(c, CLI_NAME@),
                None => r == Err::<String, ConfigError>(ConfigError::MissingHome),
            },
        },
{
    match provided_cache_dir {
        Some(p) => Ok(p),
        None => {
            let cache_home_dir = match xdg_cache_home {
                Some(x) => x,
                None => match home {
                    Some(h) => join_path(h.as_str(), ".cache"),
                    None => return Err(ConfigError::MissingHome),
                },
            };
            Ok(join_path(cache_home_dir.as_str(), CLI_NAME))
        },
    }
}

} // verus!
