//! Insertion-ordered variable maps, held in `indexmap` collections.
//!
//! A map is modelled as the sequence of its entries, in insertion order, with
//! unique keys.
use indexmap::IndexMap;
use vstd::prelude::*;

verus! {

#[verifier::external_type_specification]
#[verifier::external_body]
#[verifier::reject_recursive_types(K)]
#[verifier::reject_recursive_types(V)]
#[verifier::reject_recursive_types(S)]
pub struct ExIndexMap<K, V, S>(IndexMap<K, V, S>);

/// Relies on `IndexMap::clone`, which copies the map; nothing is claimed of the copy.
pub assume_specification<K, V, S>[ <IndexMap<K, V, S> as Clone>::clone ](m: &IndexMap<K, V, S>) -> IndexMap<K, V, S>
    where
        K: Clone,
        V: Clone,
        S: Clone,
;

// ----- model -----
/// True when some entry has key `k`.
pub open spec fn has_key<V>(e: Seq<(Seq<char>, V)>, k: Seq<char>) -> bool {
    exists|i: int| 0 <= i < e.len() && #[trigger] e[i].0 == k
}

/// No two entries share a key.
pub open spec fn keys_unique<V>(e: Seq<(Seq<char>, V)>) -> bool {
    forall|i: int, j: int| 0 <= i < e.len() && 0 <= j < e.len() && i != j ==> #[trigger] e[i].0 != #[trigger] e[j].0
}

/// The position of the entry with key `k` (meaningful when `has_key(e, k)`).
pub open spec fn key_index<V>(e: Seq<(Seq<char>, V)>, k: Seq<char>) -> int {
    choose|i: int| 0 <= i < e.len() && #[trigger] e[i].0 == k
}

/// The value stored under `k`, if any.
pub open spec fn lookup<V>(e: Seq<(Seq<char>, V)>, k: Seq<char>) -> Option<V> {
    if has_key(e, k) {
        Some(e[key_index(e, k)].1)
    } else {
        None
    }
}

/// Inserting into an ordered map: an existing key keeps its place and takes
/// the new value; a new key goes last.
pub open spec fn entries_insert<V>(e: Seq<(Seq<char>, V)>, k: Seq<char>, v: V) -> Seq<(Seq<char>, V)> {
    if has_key(e, k) {
        e.update(key_index(e, k), (k, v))
    } else {
        e.push((k, v))
    }
}

/// Removing a key, shifting the entries after it.
pub open spec fn entries_remove<V>(e: Seq<(Seq<char>, V)>, k: Seq<char>) -> Seq<(Seq<char>, V)> {
    if has_key(e, k) {
        e.remove(key_index(e, k))
    } else {
        e
    }
}

pub open spec fn opt_view(o: Option<String>) -> Option<Seq<char>> {
    match o {
        Some(s) => Some(s@),
        None => None,
    }
}

/// With unique keys, the entry found at any index with key `k` is the one `lookup` gives.
pub proof fn lemma_lookup_at<V>(e: Seq<(Seq<char>, V)>, i: int)
    requires
        keys_unique(e),
        0 <= i < e.len(),
    ensures
        has_key(e, e[i].0),
        key_index(e, e[i].0) == i,
        lookup(e, e[i].0) == Some(e[i].1),
{
    assert(e[i].0 == e[i].0);
    let j = key_index(e, e[i].0);
    assert(e[j].0 == e[i].0);
}

/// Insertion keeps keys unique and gives the inserted value back on lookup.
pub proof fn lemma_insert<V>(e: Seq<(Seq<char>, V)>, k: Seq<char>, v: V)
    requires
        keys_unique(e),
    ensures
        keys_unique(entries_insert(e, k, v)),
        lookup(entries_insert(e, k, v), k) == Some(v),
        forall|k2: Seq<char>| k2 != k ==> lookup(entries_insert(e, k, v), k2) == lookup(e, k2),
        forall|k2: Seq<char>| has_key(entries_insert(e, k, v), k2) <==> (has_key(e, k2) || k2 == k),
{
    let r = entries_insert(e, k, v);
    if has_key(e, k) {
        let idx = key_index(e, k);
        assert(e[idx].0 == k);
        assert(keys_unique(r));
        lemma_lookup_at(r, idx);
        assert forall|k2: Seq<char>| k2 != k implies lookup(r, k2) == lookup(e, k2) by {
            if has_key(e, k2) {
                let j = key_index(e, k2);
                lemma_lookup_at(e, j);
                lemma_lookup_at(r, j);
            } else {
                if has_key(r, k2) {
                    let j = key_index(r, k2);
                    assert(r[j].0 == k2);
                    assert(e[j].0 == k2);
                }
            }
        }
        assert forall|k2: Seq<char>| has_key(r, k2) <==> (has_key(e, k2) || k2 == k) by {
            if has_key(e, k2) {
                let j = key_index(e, k2);
                assert(r[j].0 == k2);
            }
            if has_key(r, k2) {
                let j = key_index(r, k2);
                if j != idx {
                    assert(e[j].0 == k2);
                }
            }
        }
    } else {
        assert(keys_unique(r));
        lemma_lookup_at(r, e.len() as int);
        assert forall|k2: Seq<char>| k2 != k implies lookup(r, k2) == lookup(e, k2) by {
            if has_key(e, k2) {
                let j = key_index(e, k2);
                lemma_lookup_at(e, j);
                lemma_lookup_at(r, j);
            } else if has_key(r, k2) {
                let j = key_index(r, k2);
                assert(e[j].0 == k2);
            }
        }
        assert forall|k2: Seq<char>| has_key(r, k2) <==> (has_key(e, k2) || k2 == k) by {
            if has_key(e, k2) {
                let j = key_index(e, k2);
                assert(r[j].0 == k2);
            }
            if k2 == k {
                assert(r[e.len() as int].0 == k2);
            }
            if has_key(r, k2) {
                let j = key_index(r, k2);
                if j < e.len() {
                    assert(e[j].0 == k2);
                }
            }
        }
    }
}

// ----- trusted access to `IndexMap<String, String>` -----
/// What an `IndexMap<String, String>` holds: its entries, in order.
pub uninterp spec fn var_entries(m: IndexMap<String, String>) -> Seq<(Seq<char>, Seq<char>)>;

/// Relies on `IndexMap::new`: a new map is empty.
#[verifier::external_body]
fn var_map_new() -> (r: IndexMap<String, String>)
    ensures
        var_entries(r) == Seq::<(Seq<char>, Seq<char>)>::empty(),
{
    IndexMap::new()
}

/// Relies on `IndexMap::len`: the number of entries.
#[verifier::external_body]
fn var_map_len(m: &IndexMap<String, String>) -> (r: usize)
    ensures
        r == var_entries(*m).len(),
{
    m.len()
}

/// Relies on `IndexMap::get_index`: the entry at a position, in insertion order.
#[verifier::external_body]
fn var_map_get_index(m: &IndexMap<String, String>, i: usize) -> (r: Option<(&String, &String)>)
    ensures
        i < var_entries(*m).len() ==> r is Some && (r.unwrap().0@, r.unwrap().1@) == var_entries(*m)[i as int],
        i >= var_entries(*m).len() ==> r is None,
{
    m.get_index(i)
}

/// Relies on `IndexMap::get`: the value stored under a key.
#[verifier::external_body]
fn var_map_get<'a>(m: &'a IndexMap<String, String>, k: &str) -> (r: Option<&'a String>)
    ensures
        match r {
            Some(v) => lookup(var_entries(*m), k@) == Some(v@),
            None => !has_key(var_entries(*m), k@),
        },
{
    m.get(k)
}

/// Relies on `IndexMap::insert`: an existing key keeps its place and takes the
/// new value; a new key goes last.
#[verifier::external_body]
fn var_map_insert(m: &mut IndexMap<String, String>, k: String, v: String)
    ensures
        var_entries(*final(m)) == entries_insert(var_entries(*old(m)), k@, v@),
{
    m.insert(k, v);
}

/// Relies on `IndexMap::shift_remove`: the entry goes, and those after it
/// shift down, keeping their order.
#[verifier::external_body]
fn var_map_shift_remove(m: &mut IndexMap<String, String>, k: &str) -> (r: Option<String>)
    ensures
        var_entries(*final(m)) == entries_remove(var_entries(*old(m)), k@),
        opt_view(r) == lookup(var_entries(*old(m)), k@),
{
    m.shift_remove(k)
}

// ----- trusted access to `IndexMap<String, Option<String>>` -----
/// What an `IndexMap<String, Option<String>>` holds: its entries, in order.
pub uninterp spec fn state_entries(m: IndexMap<String, Option<String>>) -> Seq<(Seq<char>, Option<Seq<char>>)>;

/// Relies on `IndexMap::new`: a new map is empty.
#[verifier::external_body]
fn state_map_new() -> (r: IndexMap<String, Option<String>>)
    ensures
        state_entries(r) == Seq::<(Seq<char>, Option<Seq<char>>)>::empty(),
{
    IndexMap::new()
}

/// Relies on `IndexMap::len`: the number of entries.
#[verifier::external_body]
fn state_map_len(m: &IndexMap<String, Option<String>>) -> (r: usize)
    ensures
        r == state_entries(*m).len(),
{
    m.len()
}

/// Relies on `IndexMap::get_index`: the entry at a position, in insertion order.
#[verifier::external_body]
fn state_map_get_index(m: &IndexMap<String, Option<String>>, i: usize) -> (r: Option<(&String, &Option<String>)>)
    ensures
        i < state_entries(*m).len() ==> r is Some && (r.unwrap().0@, opt_view(*r.unwrap().1)) == state_entries(*m)[i as int],
        i >= state_entries(*m).len() ==> r is None,
{
    m.get_index(i)
}

/// Relies on `IndexMap::contains_key`: whether some entry has the key.
#[verifier::external_body]
fn state_map_contains_key(m: &IndexMap<String, Option<String>>, k: &str) -> (r: bool)
    ensures
        r == has_key(state_entries(*m), k@),
{
    m.contains_key(k)
}

/// Relies on `IndexMap::insert`: an existing key keeps its place and takes the
/// new value; a new key goes last.
#[verifier::external_body]
fn state_map_insert(m: &mut IndexMap<String, Option<String>>, k: String, v: Option<String>)
    ensures
        state_entries(*final(m)) == entries_insert(state_entries(*old(m)), k@, opt_view(v)),
{
    m.insert(k, v);
}

// ----- the library's maps -----
/// Environment variables: names to values, in insertion order.
#[derive(Debug, Clone, Default, PartialEq, Eq)]
pub struct EnvVars(IndexMap<String, String>);

/// Changes to apply to an environment: a name maps to a value to set, or to
/// `None` to unset the variable.
#[derive(Debug, Clone, Default, PartialEq, Eq)]
pub struct EnvVarsState(IndexMap<String, Option<String>>);

impl View for EnvVars {
    type V = Seq<(Seq<char>, Seq<char>)>;

    closed spec fn view(&self) -> Self::V {
        var_entries(self.0)
    }
}

impl View for EnvVarsState {
    type V = Seq<(Seq<char>, Option<Seq<char>>)>;

    closed spec fn view(&self) -> Self::V {
        state_entries(self.0)
    }
}

impl EnvVars {
    /// Keys are unique.
    pub open spec fn wf(&self) -> bool {
        keys_unique(self@)
    }

    pub fn new() -> (r: Self)
        ensures
            r@ == Seq::<(Seq<char>, Seq<char>)>::empty(),
            r.wf(),
    {
        EnvVars(var_map_new())
    }

    /// Builds a map from pairs, inserting each in order: a repeated name keeps
    /// its first place and takes its last value.
    pub fn from_iter(pairs: Vec<(String, String)>) -> (r: Self)
        ensures
            r.wf(),
            r@ == extend_entries(Seq::<(Seq<char>, Seq<char>)>::empty(), pairs@.map_values(|p: (String, String)| (p.0@, p.1@))),
    {
        let mut r = EnvVars::new();
        let mut i: usize = 0;
        let ghost pv = pairs@.map_values(|p: (String, String)| (p.0@, p.1@));
        while i < pairs.len()
            invariant
                i <= pairs@.len(),
                pv == pairs@.map_values(|p: (String, String)| (p.0@, p.1@)),
                r.wf(),
                r@ == extend_entries(Seq::<(Seq<char>, Seq<char>)>::empty(), pv.take(i as int)),
            decreases pairs@.len() - i,
        {
            let k = pairs[i].0.clone();
            let v = pairs[i].1.clone();
            proof {
                lemma_insert(r@, k@, v@);
                assert(pv.take(i + 1).drop_last() =~= pv.take(i as int));
            }
            r.insert(k, v);
            i = i + 1;
        }
        proof {
            assert(pv.take(pairs@.len() as int) =~= pv);
        }
        r
    }

    pub fn len(&self) -> (r: usize)
        ensures
            r == self@.len(),
    {
        var_map_len(&self.0)
    }

    pub fn is_empty(&self) -> (r: bool)
        ensures
            r == (self@.len() == 0),
    {
        var_map_len(&self.0) == 0
    }

    /// The entry at position `i`, in insertion order.
    pub fn get_index(&self, i: usize) -> (r: Option<(&String, &String)>)
        ensures
            i < self@.len() ==> r is Some && (r.unwrap().0@, r.unwrap().1@) == self@[i as int],
            i >= self@.len() ==> r is None,
    {
        var_map_get_index(&self.0, i)
    }

    pub fn get(&self, k: &str) -> (r: Option<&String>)
        ensures
            match r {
                Some(v) => lookup(self@, k@) == Some(v@),
                None => !has_key(self@, k@),
            },
    {
        var_map_get(&self.0, k)
    }

    pub fn contains_key(&self, k: &str) -> (r: bool)
        ensures
            r == has_key(self@, k@),
    {
        var_map_get(&self.0, k).is_some()
    }

    pub fn insert(&mut self, k: String, v: String)
        ensures
            final(self)@ == entries_insert(old(self)@, k@, v@),
    {
        var_map_insert(&mut self.0, k, v)
    }

    pub fn shift_remove(&mut self, k: &str) -> (r: Option<String>)
        ensures
            final(self)@ == entries_remove(old(self)@, k@),
            opt_view(r) == lookup(old(self)@, k@),
    {
        var_map_shift_remove(&mut self.0, k)
    }

    /// The names, in order.
    pub fn keys(&self) -> (r: Vec<String>)
        ensures
            r@.len() == self@.len(),
            forall|i: int| 0 <= i < r@.len() ==> #[trigger] r@[i]@ == self@[i].0,
    {
        let mut r: Vec<String> = Vec::new();
        let n = self.len();
        let mut i: usize = 0;
        while i < n
            invariant
                n == self@.len(),
                i <= n,
                r@.len() == i,
                forall|j: int| 0 <= j < i ==> #[trigger] r@[j]@ == self@[j].0,
            decreases n - i,
        {
            match self.get_index(i) {
                Some((k, _)) => r.push(k.clone()),
                None => {},
            }
            i = i + 1;
        }
        r
    }
}

impl EnvVarsState {
    /// Keys are unique.
    pub open spec fn wf(&self) -> bool {
        keys_unique(self@)
    }

    pub fn new() -> (r: Self)
        ensures
            r@ == Seq::<(Seq<char>, Option<Seq<char>>)>::empty(),
            r.wf(),
    {
        EnvVarsState(state_map_new())
    }

    /// Builds a state from pairs, inserting each in order: a repeated name
    /// keeps its first place and takes its last value.
    pub fn from_iter(pairs: Vec<(String, Option<String>)>) -> (r: Self)
        ensures
            r.wf(),
            r@ == extend_entries(
                Seq::<(Seq<char>, Option<Seq<char>>)>::empty(),
                pairs@.map_values(|p: (String, Option<String>)| (p.0@, opt_view(p.1))),
            ),
    {
        let mut r = EnvVarsState::new();
        let ghost pv = pairs@.map_values(|p: (String, Option<String>)| (p.0@, opt_view(p.1)));
        let mut i: usize = 0;
        while i < pairs.len()
            invariant
                i <= pairs@.len(),
                pv == pairs@.map_values(|p: (String, Option<String>)| (p.0@, opt_view(p.1))),
                r.wf(),
                r@ == extend_entries(Seq::<(Seq<char>, Option<Seq<char>>)>::empty(), pv.take(i as int)),
            decreases pairs@.len() - i,
        {
            let k = pairs[i].0.clone();
            let v = match &pairs[i].1 {
                Some(s) => Some(s.clone()),
                None => None,
            };
            proof {
                lemma_insert(r@, k@, opt_view(v));
                assert(pv.take(i + 1).drop_last() =~= pv.take(i as int));
            }
            r.insert(k, v);
            i = i + 1;
        }
        proof {
            assert(pv.take(pairs@.len() as int) =~= pv);
        }
        r
    }

    /// Every variable of `vars` becomes a value to set, in the same order.
    pub fn from(vars: EnvVars) -> (r: Self)
        requires
            vars.wf(),
        ensures
            r@ == promote(vars@),
            r.wf(),
    {
        let mut r = EnvVarsState::new();
        let n = vars.len();
        let mut i: usize = 0;
        while i < n
            invariant
                n == vars@.len(),
                i <= n,
                vars.wf(),
                r@ == promote(vars@.take(i as int)),
            decreases n - i,
        {
            match vars.get_index(i) {
                Some((k, v)) => {
                    proof {
                        assert(!has_key(r@, k@)) by {
                            if has_key(r@, k@) {
                                let j = key_index(r@, k@);
                                assert(vars@[j].0 == vars@[i as int].0);
                            }
                        }
                    }
                    r.insert(k.clone(), Some(v.clone()));
                    proof {
                        assert(promote(vars@.take(i + 1)) =~= promote(vars@.take(i as int)).push((k@, Some(v@))));
                    }
                },
                None => {},
            }
            i = i + 1;
        }
        proof {
            assert(vars@.take(n as int) =~= vars@);
            lemma_promote_unique(vars@);
        }
        r
    }

    pub fn len(&self) -> (r: usize)
        ensures
            r == self@.len(),
    {
        state_map_len(&self.0)
    }

    pub fn is_empty(&self) -> (r: bool)
        ensures
            r == (self@.len() == 0),
    {
        state_map_len(&self.0) == 0
    }

    /// The entry at position `i`, in insertion order.
    pub fn get_index(&self, i: usize) -> (r: Option<(&String, &Option<String>)>)
        ensures
            i < self@.len() ==> r is Some && (r.unwrap().0@, opt_view(*r.unwrap().1)) == self@[i as int],
            i >= self@.len() ==> r is None,
    {
        state_map_get_index(&self.0, i)
    }

    pub fn contains_key(&self, k: &str) -> (r: bool)
        ensures
            r == has_key(self@, k@),
    {
        state_map_contains_key(&self.0, k)
    }

    pub fn insert(&mut self, k: String, v: Option<String>)
        ensures
            final(self)@ == entries_insert(old(self)@, k@, opt_view(v)),
    {
        state_map_insert(&mut self.0, k, v)
    }

    /// Inserts every entry of `other` in order, so that its values win.
    pub fn extend(&mut self, other: &EnvVarsState)
        ensures
            final(self)@ == extend_entries(old(self)@, other@),
    {
        let n = other.len();
        let mut i: usize = 0;
        while i < n
            invariant
                n == other@.len(),
                i <= n,
                self@ == extend_entries(old(self)@, other@.take(i as int)),
            decreases n - i,
        {
            match other.get_index(i) {
                Some((k, v)) => {
                    self.insert(k.clone(), v.clone());
                    proof {
                        assert(other@.take(i + 1).drop_last() =~= other@.take(i as int));
                    }
                },
                None => {},
            }
            i = i + 1;
        }
        proof {
            assert(other@.take(n as int) =~= other@);
        }
    }
}

/// Removing a key keeps the others unique, and removes only that key.
pub proof fn lemma_remove<V>(e: Seq<(Seq<char>, V)>, k: Seq<char>)
    requires
        keys_unique(e),
    ensures
        keys_unique(entries_remove(e, k)),
        !has_key(entries_remove(e, k), k),
{
    if has_key(e, k) {
        let i = key_index(e, k);
        let r = e.remove(i);
        assert forall|a: int, b: int| 0 <= a < r.len() && 0 <= b < r.len() && a != b implies #[trigger] r[a].0 != #[trigger] r[b].0 by {
            let a2 = if a < i { a } else { a + 1 };
            let b2 = if b < i { b } else { b + 1 };
            assert(r[a] == e[a2]);
            assert(r[b] == e[b2]);
        }
        if has_key(r, k) {
            let j = key_index(r, k);
            let j2 = if j < i { j } else { j + 1 };
            assert(r[j] == e[j2]);
        }
    }
}

/// The names of the entries, in order.
pub open spec fn keys_of<V>(e: Seq<(Seq<char>, V)>) -> Seq<Seq<char>> {
    e.map_values(|p: (Seq<char>, V)| p.0)
}

/// Every entry becomes a value to set.
pub open spec fn promote(e: Seq<(Seq<char>, Seq<char>)>) -> Seq<(Seq<char>, Option<Seq<char>>)> {
    e.map_values(|p: (Seq<char>, Seq<char>)| (p.0, Some(p.1)))
}

pub proof fn lemma_promote_unique(e: Seq<(Seq<char>, Seq<char>)>)
    requires
        keys_unique(e),
    ensures
        keys_unique(promote(e)),
{
    assert forall|i: int, j: int| 0 <= i < e.len() && 0 <= j < e.len() && i != j implies #[trigger] promote(e)[i].0 != #[trigger] promote(e)[j].0 by {
        assert(e[i].0 != e[j].0);
    }
}

/// Inserting the entries of `b` into `a`, in order.
pub open spec fn extend_entries<V>(a: Seq<(Seq<char>, V)>, b: Seq<(Seq<char>, V)>) -> Seq<(Seq<char>, V)>
    decreases b.len(),
{
    if b.len() == 0 {
        a
    } else {
        entries_insert(extend_entries(a, b.drop_last()), b.last().0, b.last().1)
    }
}

} // verus!
