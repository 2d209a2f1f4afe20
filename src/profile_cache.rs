//! The flake profile cache: where a flake's profile and its GC roots live,
//! when they are stale, and the `nix` invocations that rebuild them.
use crate::config::{join_path, path_join};
use crate::strings::{is_prefix, split_on, split_str, starts_with, substring, views};
use vstd::prelude::*;
use vstd::string::{StrSliceExecFns, StringExecFns};
use vstd::utf8::encode_utf8;

verus! {

/// The lowercase hex SHA-1 digest of some bytes, as `sha1::Sha1` computes it.
pub uninterp spec fn sha1_hex(b: Seq<u8>) -> Seq<char>;

/// Relies on `sha1::Sha1::digest`, formatted as lowercase hex.
#[verifier::external_body]
fn sha1_hex_of(data: &[u8]) -> (r: String)
    ensures
        r@ == sha1_hex(data@),
{
    format!("{:x}", <sha1::Sha1 as sha1::Digest>::digest(data))
}

/// Relies on `shellexpand::full`: `~` and `$VAR` expanded from this process's
/// environment; `None` when a variable is unknown. What comes back depends on
/// the environment; a string with no `$` that does not start with `~` comes
/// back unchanged.
#[verifier::external_body]
fn shell_expand(s: &str) -> (r: Option<String>)
    ensures
        !s@.contains('$') && !is_prefix("~"@, s@) ==> r is Some && r.unwrap()@ == s@,
{
    match shellexpand::full(s) {
        Ok(x) => Some(x.into_owned()),
        Err(_) => None,
    }
}

/// Why a cache entry could not be set up.
#[derive(Debug, Clone, Copy, PartialEq, Eq)]
pub enum CacheError {
    /// None of the watched files exists.
    NoFilesToHash,
    /// The flake path names an unknown variable.
    Expansion,
}

/// Whether `nix` may read outside the flake.
#[derive(Debug, Clone, Copy, PartialEq, Eq, Structural)]
pub enum EvaluationMode {
    Pure,
    Impure,
}

/// `--impure` for impure evaluation, nothing else.
pub open spec fn impure_flag(m: EvaluationMode) -> Seq<Seq<char>> {
    match m {
        EvaluationMode::Impure => seq!["--impure"@],
        EvaluationMode::Pure => Seq::<Seq<char>>::empty(),
    }
}

// ----- flake references -----
/// A reference that names a local path.
pub open spec fn is_path_ref(s: Seq<char>) -> bool {
    is_prefix("path:"@, s) || is_prefix("~"@, s) || is_prefix("/"@, s) || is_prefix("./"@, s) || is_prefix(
        "../"@,
        s,
    )
}

/// The part before the first `#`.
pub open spec fn flake_uri(s: Seq<char>) -> Seq<char> {
    split_on(s, '#')[0]
}

/// The part after the first `#`, up to a second one, if any.
pub open spec fn flake_fragment(s: Seq<char>) -> Option<Seq<char>> {
    if split_on(s, '#').len() > 1 {
        Some(split_on(s, '#')[1])
    } else {
        None
    }
}

/// The path to expand: the URI without a leading `path:`.
pub open spec fn dir_to_expand(s: Seq<char>) -> Seq<char> {
    let u = flake_uri(s);
    if is_prefix("path:"@, u) {
        u.subrange(5, u.len() as int)
    } else {
        u
    }
}

pub open spec fn with_fragment(dir: Seq<char>, fragment: Option<Seq<char>>) -> Seq<char> {
    match fragment {
        Some(f) => dir + "#"@ + f,
        None => dir,
    }
}

/// A flake reference, with the directory of a local flake.
#[derive(Debug, Clone)]
pub struct FlakeReference {
    /// What is passed to `nix`: a local path expanded, anything else as given.
    pub flake_reference_string: String,
    /// The expanded directory of a local flake.
    pub flake_dir: Option<String>,
}

impl FlakeReference {
    /// Whether the reference names a local path: it starts with `path:`, `~`,
    /// `/`, `./` or `../`.
    pub fn is_path_type(flake_reference: &str) -> (r: bool)
        ensures
            r == is_path_ref(flake_reference@),
    {
        starts_with(flake_reference, "path:") || starts_with(flake_reference, "~") || starts_with(flake_reference, "/")
            || starts_with(flake_reference, "./") || starts_with(flake_reference, "../")
    }

    /// The URI of a local reference, without `path:`, for expansion.
    pub fn dir_to_expand(flake_reference: &str) -> (r: String)
        ensures
            r@ == dir_to_expand(flake_reference@),
    {
        let pieces = split_str(flake_reference, '#');
        proof {
            crate::strings::lemma_split_nonempty(flake_reference@, '#');
            assert(views(pieces@)[0] == pieces@[0]@);
        }
        let uri = &pieces[0];
        if starts_with(uri.as_str(), "path:") {
            proof {
                reveal_strlit("path:");
            }
            substring(uri.as_str(), 5, uri.as_str().unicode_len())
        } else {
            uri.clone()
        }
    }

    /// The reference, given the expansion of its path (for a local one).
    pub fn from_expanded(flake_reference: &str, expanded_dir: Option<String>) -> (r: FlakeReference)
        ensures
            match expanded_dir {
                Some(d) => r.flake_dir matches Some(x) && x@ == d@ && r.flake_reference_string@ == with_fragment(
                    d@,
                    flake_fragment(flake_reference@),
                ),
                None => r.flake_dir is None && r.flake_reference_string@ == flake_reference@,
            },
    {
        match expanded_dir {
            Some(d) => {
                let pieces = split_str(flake_reference, '#');
                let mut s = d.clone();
                if pieces.len() > 1 {
                    proof {
                        assert(views(pieces@)[1] == pieces@[1]@);
                    }
                    s.append("#");
                    s.append(pieces[1].as_str());
                }
                FlakeReference { flake_reference_string: s, flake_dir: Some(d) }
            },
            None => FlakeReference { flake_reference_string: String::from_str(flake_reference), flake_dir: None },
        }
    }

    /// Parses a reference. A local one has its path expanded (`~`, `$VAR`) and
    /// keeps its `#fragment`; `Expansion` when a variable is unknown. Any other
    /// reference is kept as given.
    pub fn parse(flake_reference: &str) -> (r: Result<FlakeReference, CacheError>)
        ensures
            !is_path_ref(flake_reference@) ==> (r matches Ok(f) && f.flake_dir is None && f.flake_reference_string@
                == flake_reference@),
            is_path_ref(flake_reference@) ==> match r {
                Ok(f) => f.flake_dir is Some && f.flake_reference_string@ == with_fragment(
                    f.flake_dir.unwrap()@,
                    flake_fragment(flake_reference@),
                ),
                Err(e) => e == CacheError::Expansion,
            },
            is_path_ref(flake_reference@) && !dir_to_expand(flake_reference@).contains('$') && !is_prefix(
                "~"@,
                dir_to_expand(flake_reference@),
            ) ==> (r matches Ok(f) && f.flake_dir matches Some(d) && d@ == dir_to_expand(flake_reference@)),
    {
        if FlakeReference::is_path_type(flake_reference) {
            let dir = FlakeReference::dir_to_expand(flake_reference);
            match shell_expand(dir.as_str()) {
                Some(expanded) => Ok(FlakeReference::from_expanded(flake_reference, Some(expanded))),
                None => Err(CacheError::Expansion),
            }
        } else {
            Ok(FlakeReference::from_expanded(flake_reference, None))
        }
    }

    /// The files whose changes make the profile stale: for a local flake its
    /// `flake.nix`, `flake.lock` and `devshell.toml`; none otherwise.
    pub fn files_to_watch(&self) -> (r: Vec<String>)
        ensures
            views(r@) == watched_files(opt_dir(self.flake_dir)),
    {
        let mut r: Vec<String> = Vec::new();
        match &self.flake_dir {
            Some(d) => {
                r.push(join_path(d.as_str(), "flake.nix"));
                r.push(join_path(d.as_str(), "flake.lock"));
                r.push(join_path(d.as_str(), "devshell.toml"));
                proof {
                    assert(views(r@) =~= watched_files(opt_dir(self.flake_dir)));
                }
            },
            None => {
                proof {
                    assert(views(r@) =~= watched_files(opt_dir(self.flake_dir)));
                }
            },
        }
        r
    }
}

pub open spec fn opt_dir(o: Option<String>) -> Option<Seq<char>> {
    match o {
        Some(s) => Some(s@),
        None => None,
    }
}

pub open spec fn watched_files(flake_dir: Option<Seq<char>>) -> Seq<Seq<char>> {
    match flake_dir {
        Some(d) => seq![path_join(d, "flake.nix"@), path_join(d, "flake.lock"@), path_join(d, "devshell.toml"@)],
        None => Seq::<Seq<char>>::empty(),
    }
}

// ----- hashing -----
/// The bytes of the files that exist, one after another, in order.
pub open spec fn present_bytes(contents: Seq<Option<Seq<u8>>>) -> Seq<u8>
    decreases contents.len(),
{
    if contents.len() == 0 {
        Seq::<u8>::empty()
    } else {
        present_bytes(contents.drop_last()) + match contents.last() {
            Some(b) => b,
            None => Seq::<u8>::empty(),
        }
    }
}

/// Some file exists.
pub open spec fn any_present(contents: Seq<Option<Seq<u8>>>) -> bool {
    exists|i: int| 0 <= i < contents.len() && (#[trigger] contents[i]) is Some
}

pub open spec fn contents_view(c: Seq<Option<Vec<u8>>>) -> Seq<Option<Seq<u8>>> {
    c.map_values(|o: Option<Vec<u8>>| match o {
        Some(v) => Some(v@),
        None => None,
    })
}

/// The digest of the watched files' contents (`None` for a missing file):
/// SHA-1 of the existing files' bytes, one after another; `NoFilesToHash` when
/// none exists.
pub fn hash_files(contents: &Vec<Option<Vec<u8>>>) -> (r: Result<String, CacheError>)
    ensures
        any_present(contents_view(contents@)) ==> (r matches Ok(h) && h@ == sha1_hex(
            present_bytes(contents_view(contents@)),
        )),
        !any_present(contents_view(contents@)) ==> r == Err::<String, CacheError>(CacheError::NoFilesToHash),
{
    let ghost cv = contents_view(contents@);
    let mut data: Vec<u8> = Vec::new();
    let mut found = false;
    let mut i: usize = 0;
    while i < contents.len()
        invariant
            i <= contents@.len(),
            cv == contents_view(contents@),
            data@ == present_bytes(cv.take(i as int)),
            found == any_present(cv.take(i as int)),
        decreases contents@.len() - i,
    {
        proof {
            assert(cv.take(i + 1).drop_last() =~= cv.take(i as int));
            assert(cv.take(i + 1).last() == cv[i as int]);
        }
        match &contents[i] {
            Some(bytes) => {
                let ghost before = data@;
                let mut j: usize = 0;
                while j < bytes.len()
                    invariant
                        j <= bytes@.len(),
                        data@ == before + bytes@.take(j as int),
                    decreases bytes@.len() - j,
                {
                    data.push(bytes[j]);
                    proof {
                        assert(bytes@.take(j + 1) =~= bytes@.take(j as int).push(bytes@[j as int]));
                        assert(data@ =~= before + bytes@.take(j + 1));
                    }
                    j = j + 1;
                }
                proof {
                    assert(bytes@.take(bytes@.len() as int) =~= bytes@);
                    assert(cv.take(i + 1)[i as int] is Some);
                }
                found = true;
            },
            None => {
                proof {
                    assert(data@ =~= present_bytes(cv.take(i as int)) + Seq::<u8>::empty());
                    if any_present(cv.take(i + 1)) {
                        let k = choose|k: int| 0 <= k < cv.take(i + 1).len() && (#[trigger] cv.take(i + 1)[k]) is Some;
                        assert(cv.take(i as int)[k] is Some);
                    }
                }
            },
        }
        proof {
            if found && !any_present(cv.take(i + 1)) {
                let k = choose|k: int| 0 <= k < cv.take(i as int).len() && (#[trigger] cv.take(i as int)[k]) is Some;
                assert(cv.take(i + 1)[k] is Some);
            }
        }
        i = i + 1;
    }
    proof {
        assert(cv.take(contents@.len() as int) =~= cv);
    }
    if !found {
        return Err(CacheError::NoFilesToHash);
    }
    Ok(sha1_hex_of(data.as_slice()))
}

/// The digest of a flake reference's text.
pub fn hash_flake_reference(flake_reference: &str) -> (r: String)
    ensures
        r@ == sha1_hex(encode_utf8(flake_reference@)),
{
    sha1_hex_of(flake_reference.as_bytes())
}

/// Adding a missing file anywhere changes neither the bytes hashed nor whether
/// any file exists: the digest depends on the existing files alone, in order.
pub proof fn law_hash_ignores_missing_files(contents: Seq<Option<Seq<u8>>>, i: int)
    requires
        0 <= i <= contents.len(),
    ensures
        present_bytes(contents.insert(i, None)) == present_bytes(contents),
        any_present(contents.insert(i, None)) == any_present(contents),
    decreases contents.len(),
{
    let c2 = contents.insert(i, None);
    if i == contents.len() {
        assert(c2.drop_last() =~= contents);
        assert(present_bytes(c2) =~= present_bytes(contents) + Seq::<u8>::empty());
    } else {
        let d = contents.drop_last();
        law_hash_ignores_missing_files(d, i);
        assert(c2.drop_last() =~= d.insert(i, None));
        assert(c2.last() == contents.last());
    }
    assert(any_present(c2) == any_present(contents)) by {
        if any_present(c2) {
            let k = choose|k: int| 0 <= k < c2.len() && (#[trigger] c2[k]) is Some;
            if k < i {
                assert(contents[k] is Some);
            } else {
                assert(contents[k - 1] is Some);
            }
        }
        if any_present(contents) {
            let k = choose|k: int| 0 <= k < contents.len() && (#[trigger] contents[k]) is Some;
            if k < i {
                assert(c2[k] is Some);
            } else {
                assert(c2[k + 1] is Some);
            }
        }
    }
}

// ----- the cache entry -----
/// The cache entry of one flake.
#[derive(Debug, Clone)]
pub struct NixProfileCache {
    pub cache_dir: String,
    pub flake_inputs_dir: String,
    pub flake_reference: FlakeReference,
    pub files_to_watch: Vec<String>,
    pub profile_symlink: String,
    pub profile_rc_file: String,
    pub evaluation_mode: EvaluationMode,
}

impl NixProfileCache {
    /// The entry for a flake under `cache_dir`. `watched_contents` holds the
    /// contents of `flake_reference.files_to_watch()`, in order, `None` for a
    /// missing file. A local flake is keyed by the digest of those contents
    /// (`NoFilesToHash` when none exists), any other by the digest of its
    /// reference.
    pub fn new(
        cache_dir: String,
        flake_reference: FlakeReference,
        evaluation_mode: EvaluationMode,
        watched_contents: &Vec<Option<Vec<u8>>>,
    ) -> (r: Result<Self, CacheError>)
        ensures
            flake_reference.flake_dir is Some && !any_present(contents_view(watched_contents@)) ==> r == Err::<
                Self,
                CacheError,
            >(CacheError::NoFilesToHash),
            (flake_reference.flake_dir is None || any_present(contents_view(watched_contents@))) ==> r is Ok,
            r matches Ok(c) ==> ({
                let hash = if flake_reference.flake_dir is Some {
                    sha1_hex(present_bytes(contents_view(watched_contents@)))
                } else {
                    sha1_hex(encode_utf8(flake_reference.flake_reference_string@))
                };
                &&& c.cache_dir@ == cache_dir@
                &&& c.flake_inputs_dir@ == path_join(cache_dir@, "flake-inputs"@)
                &&& c.flake_reference.flake_reference_string@ == flake_reference.flake_reference_string@
                &&& opt_dir(c.flake_reference.flake_dir) == opt_dir(flake_reference.flake_dir)
                &&& views(c.files_to_watch@) == watched_files(opt_dir(flake_reference.flake_dir))
                &&& c.profile_symlink@ == path_join(cache_dir@, "flake-profile-"@ + hash)
                &&& c.profile_rc_file@ == path_join(cache_dir@, "flake-profile-"@ + hash) + ".rc"@
                &&& c.evaluation_mode == evaluation_mode
            }),
    {
        let flake_inputs_dir = join_path(cache_dir.as_str(), "flake-inputs");
        let files_to_watch = flake_reference.files_to_watch();
        let hash = match &flake_reference.flake_dir {
            Some(_) => match hash_files(watched_contents) {
                Ok(h) => h,
                Err(e) => return Err(e),
            },
            None => hash_flake_reference(flake_reference.flake_reference_string.as_str()),
        };
        let mut name = String::from_str("flake-profile-");
        name.append(hash.as_str());
        let profile_symlink = join_path(cache_dir.as_str(), name.as_str());
        let mut profile_rc_file = profile_symlink.clone();
        profile_rc_file.append(".rc");
        Ok(NixProfileCache {
            cache_dir,
            flake_inputs_dir,
            flake_reference,
            files_to_watch,
            profile_symlink,
            profile_rc_file,
            evaluation_mode,
        })
    }

    /// The script that sets the flake's environment.
    pub fn profile_rc(&self) -> (r: &String)
        ensures
            r@ == self.profile_rc_file@,
    {
        &self.profile_rc_file
    }

    /// Whether the profile must be rebuilt: the script (`rc_mtime`, its
    /// modification time, `None` when missing) or the profile link is missing,
    /// or a watched file (`watched_mtimes`, `None` when unreadable, which
    /// counts as the epoch) changed after the script was written.
    pub fn needs_update(&self, rc_mtime: Option<u128>, profile_is_file: bool, watched_mtimes: &Vec<Option<u128>>) -> (r: bool)
        ensures
            r == (rc_mtime is None || !profile_is_file || exists|i: int|
                0 <= i < watched_mtimes@.len() && mtime_or_epoch(#[trigger] watched_mtimes@[i]) > rc_mtime.unwrap()),
    {
        match rc_mtime {
            None => true,
            Some(rc) => {
                if !profile_is_file {
                    return true;
                }
                let mut i: usize = 0;
                while i < watched_mtimes.len()
                    invariant
                        i <= watched_mtimes@.len(),
                        rc_mtime == Some(rc),
                        forall|j: int| 0 <= j < i ==> mtime_or_epoch(#[trigger] watched_mtimes@[j]) <= rc,
                    decreases watched_mtimes@.len() - i,
                {
                    let m: u128 = match watched_mtimes[i] {
                        Some(t) => t,
                        None => 0,
                    };
                    proof {
                        assert(m == mtime_or_epoch(watched_mtimes@[i as int]));
                        assert(rc_mtime.unwrap() == rc);
                    }
                    if m > rc {
                        proof {
                            assert(mtime_or_epoch(watched_mtimes@[i as int]) > rc);
                        }
                        return true;
                    }
                    i = i + 1;
                }
                false
            },
        }
    }

    fn push_impure(&self, args: &mut Vec<String>)
        ensures
            views(final(args)@) == views(old(args)@) + impure_flag(self.evaluation_mode),
    {
        match self.evaluation_mode {
            EvaluationMode::Impure => {
                let ghost before = args@;
                args.push(String::from_str("--impure"));
                proof {
                    assert(views(args@) =~= views(before) + impure_flag(self.evaluation_mode));
                }
            },
            EvaluationMode::Pure => {
                proof {
                    assert(views(args@) =~= views(args@) + impure_flag(self.evaluation_mode));
                }
            },
        }
    }

    /// Where `nix print-dev-env` writes the profile before it is pinned.
    pub fn tmp_profile(&self, pid: &str) -> (r: String)
        ensures
            r@ == path_join(self.cache_dir@, "flake-tmp-profile."@ + pid@),
    {
        let mut name = String::from_str("flake-tmp-profile.");
        name.append(pid);
        join_path(self.cache_dir.as_str(), name.as_str())
    }

    /// `print-dev-env [--impure] --no-write-lock-file --profile <tmp_profile> <flake>`.
    pub fn print_dev_env_args(&self, tmp_profile: &str) -> (r: Vec<String>)
        ensures
            views(r@) == seq!["print-dev-env"@] + impure_flag(self.evaluation_mode) + seq![
                "--no-write-lock-file"@,
                "--profile"@,
                tmp_profile@,
                self.flake_reference.flake_reference_string@,
            ],
    {
        let mut args: Vec<String> = Vec::new();
        args.push(String::from_str("print-dev-env"));
        self.push_impure(&mut args);
        let ghost before = args@;
        args.push(String::from_str("--no-write-lock-file"));
        args.push(String::from_str("--profile"));
        args.push(String::from_str(tmp_profile));
        args.push(self.flake_reference.flake_reference_string.clone());
        proof {
            assert(views(args@) =~= views(before) + seq![
                "--no-write-lock-file"@,
                "--profile"@,
                tmp_profile@,
                self.flake_reference.flake_reference_string@,
            ]);
        }
        args
    }

    /// `build [--impure] --out-link <out_link> <installable>`: pins a store
    /// path with a GC root.
    pub fn build_args(&self, out_link: &str, installable: &str) -> (r: Vec<String>)
        ensures
            views(r@) == seq!["build"@] + impure_flag(self.evaluation_mode) + seq!["--out-link"@, out_link@, installable@],
    {
        let mut args: Vec<String> = Vec::new();
        args.push(String::from_str("build"));
        self.push_impure(&mut args);
        let ghost before = args@;
        args.push(String::from_str("--out-link"));
        args.push(String::from_str(out_link));
        args.push(String::from_str(installable));
        proof {
            assert(views(args@) =~= views(before) + seq!["--out-link"@, out_link@, installable@]);
        }
        args
    }

    /// `flake archive [--impure] --json --no-write-lock-file <flake>`: lists
    /// the flake's inputs.
    pub fn flake_archive_args(&self) -> (r: Vec<String>)
        ensures
            views(r@) == seq!["flake"@, "archive"@] + impure_flag(self.evaluation_mode) + seq![
                "--json"@,
                "--no-write-lock-file"@,
                self.flake_reference.flake_reference_string@,
            ],
    {
        let mut args: Vec<String> = Vec::new();
        args.push(String::from_str("flake"));
        args.push(String::from_str("archive"));
        let ghost first = args@;
        self.push_impure(&mut args);
        let ghost before = args@;
        args.push(String::from_str("--json"));
        args.push(String::from_str("--no-write-lock-file"));
        args.push(self.flake_reference.flake_reference_string.clone());
        proof {
            assert(views(first) =~= seq!["flake"@, "archive"@]);
            assert(views(args@) =~= views(before) + seq![
                "--json"@,
                "--no-write-lock-file"@,
                self.flake_reference.flake_reference_string@,
            ]);
        }
        args
    }

    /// The GC root of a flake input: its store directory's name under `flake-inputs/`.
    pub fn input_gcroot(&self, input: &str) -> (r: String)
        ensures
            r@ == path_join(self.flake_inputs_dir@, input@),
    {
        join_path(self.flake_inputs_dir.as_str(), input)
    }
}

pub open spec fn mtime_or_epoch(m: Option<u128>) -> u128 {
    match m {
        Some(t) => t,
        None => 0,
    }
}

/// A reported store path without its `/nix/store/` prefix: the first 11
/// characters go when there are more than 11.
pub fn get_path(path: &str) -> (r: String)
    ensures
        r@ == if path@.len() > 11 {
            path@.subrange(11, path@.len() as int)
        } else {
            path@
        },
{
    let n = path.unicode_len();
    if n > 11 {
        substring(path, 11, n)
    } else {
        String::from_str(path)
    }
}

/// The store path of a flake input's directory name.
pub fn store_path(input: &str) -> (r: String)
    ensures
        r@ == path_join("/nix/store"@, input@),
{
    join_path("/nix/store", input)
}

} // verus!
