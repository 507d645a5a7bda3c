//! `StrMap`: a map from text keys to values that keeps its entries in
//! ascending key order, as `BTreeMap` orders `String` keys.

use vstd::prelude::*;
use crate::text::{same_text, to_chars, text_lt, lex_lt, lemma_lex_total, lemma_lex_transitive, lemma_lex_irreflexive};

verus! {

/// Some entry has key `k`.
pub open spec fn has_key<V>(s: Seq<(Seq<char>, V)>, k: Seq<char>) -> bool {
    exists|i: int| 0 <= i < s.len() && #[trigger] s[i].0 == k
}

/// `i` is the first position whose key is `k`.
pub open spec fn first_at<V>(s: Seq<(Seq<char>, V)>, k: Seq<char>, i: int) -> bool {
    0 <= i < s.len() && s[i].0 == k && forall|j: int| 0 <= j < i ==> #[trigger] s[j].0 != k
}

/// The first position of key `k` (meaningful when `has_key(s, k)`).
pub open spec fn key_index<V>(s: Seq<(Seq<char>, V)>, k: Seq<char>) -> int {
    choose|i: int| first_at(s, k, i)
}

/// The first position of a present key is the one `key_index` names.
pub proof fn lemma_first_at<V>(s: Seq<(Seq<char>, V)>, k: Seq<char>, i: int)
    requires
        first_at(s, k, i),
    ensures
        has_key(s, k),
        key_index(s, k) == i,
{
    let j = key_index(s, k);
    assert(first_at(s, k, j));
    if j < i {
        assert(s[j].0 != k);
    } else if i < j {
        assert(s[i].0 != k);
    }
}

/// A present key has a first position.
pub proof fn lemma_has_first<V>(s: Seq<(Seq<char>, V)>, k: Seq<char>)
    requires
        has_key(s, k),
    ensures
        first_at(s, k, key_index(s, k)),
    decreases s.len(),
{
    if s.last().0 == k && !has_key(s.drop_last(), k) {
        assert forall|j: int| 0 <= j < s.len() - 1 implies #[trigger] s[j].0 != k by {
            assert(s.drop_last()[j] == s[j]);
        }
        assert(first_at(s, k, s.len() - 1));
    } else {
        if !has_key(s.drop_last(), k) {
            let i = choose|i: int| 0 <= i < s.len() && #[trigger] s[i].0 == k;
            if i < s.len() - 1 {
                assert(s.drop_last()[i].0 == k);
            }
        }
        lemma_has_first(s.drop_last(), k);
        let i = key_index(s.drop_last(), k);
        assert forall|j: int| 0 <= j < i implies #[trigger] s[j].0 != k by {
            assert(s.drop_last()[j] == s[j]);
        }
        assert(first_at(s, k, i));
    }
}

/// The value stored under `k`, if any.
pub open spec fn lookup<V>(s: Seq<(Seq<char>, V)>, k: Seq<char>) -> Option<V> {
    if has_key(s, k) {
        Some(s[key_index(s, k)].1)
    } else {
        None
    }
}

/// Keys strictly ascending in text order.
pub open spec fn keys_sorted<V>(s: Seq<(Seq<char>, V)>) -> bool {
    forall|i: int, j: int| 0 <= i < j < s.len() ==> lex_lt(#[trigger] s[i].0, #[trigger] s[j].0)
}

/// How many keys of `s` come before `k` in text order.
pub open spec fn below<V>(s: Seq<(Seq<char>, V)>, k: Seq<char>) -> nat
    decreases s.len(),
{
    if s.len() == 0 {
        0
    } else {
        below(s.drop_last(), k) + if lex_lt(s.last().0, k) {
            1nat
        } else {
            0nat
        }
    }
}

/// `s` after storing `v` under `k`: an existing entry keeps its position and
/// takes the new value; a new key goes after the keys that come before it.
pub open spec fn put<V>(s: Seq<(Seq<char>, V)>, k: Seq<char>, v: V) -> Seq<(Seq<char>, V)> {
    if has_key(s, k) {
        s.update(key_index(s, k), (k, v))
    } else {
        s.insert(below(s, k) as int, (k, v))
    }
}

pub proof fn lemma_below_bound<V>(s: Seq<(Seq<char>, V)>, k: Seq<char>)
    ensures
        below(s, k) <= s.len(),
    decreases s.len(),
{
    if s.len() > 0 {
        lemma_below_bound(s.drop_last(), k);
    }
}

/// In a sorted map the keys before `k` are exactly the first `below` ones.
pub proof fn lemma_below_split<V>(s: Seq<(Seq<char>, V)>, k: Seq<char>)
    requires
        keys_sorted(s),
    ensures
        below(s, k) <= s.len(),
        forall|i: int| 0 <= i < below(s, k) ==> lex_lt(#[trigger] s[i].0, k),
        forall|i: int| below(s, k) <= i < s.len() ==> !lex_lt(#[trigger] s[i].0, k),
    decreases s.len(),
{
    lemma_below_bound(s, k);
    if s.len() > 0 {
        let d = s.drop_last();
        assert(keys_sorted(d)) by {
            assert forall|i: int, j: int| 0 <= i < j < d.len() implies lex_lt(#[trigger] d[i].0, #[trigger] d[j].0) by {
                assert(d[i] == s[i] && d[j] == s[j]);
            }
        }
        lemma_below_split(d, k);
        let n = s.len() - 1;
        if lex_lt(s[n].0, k) {
            if below(d, k) < d.len() {
                let i = below(d, k) as int;
                assert(d[i] == s[i]);
                lemma_lex_transitive(s[i].0, s[n].0, k);
            }
            assert forall|i: int| 0 <= i < below(s, k) implies lex_lt(#[trigger] s[i].0, k) by {
                if i < n {
                    lemma_lex_transitive(s[i].0, s[n].0, k);
                }
            }
        } else {
            assert forall|i: int| 0 <= i < below(s, k) implies lex_lt(#[trigger] s[i].0, k) by {
                assert(d[i] == s[i]);
            }
            assert forall|i: int| below(s, k) <= i < s.len() implies !lex_lt(#[trigger] s[i].0, k) by {
                if i < n {
                    assert(d[i] == s[i]);
                }
            }
        }
    }
}

/// When every key comes before `k`, `k` goes at the end.
pub proof fn lemma_below_all<V>(s: Seq<(Seq<char>, V)>, k: Seq<char>)
    requires
        forall|i: int| 0 <= i < s.len() ==> lex_lt(#[trigger] s[i].0, k),
    ensures
        below(s, k) == s.len(),
        !has_key(s, k),
    decreases s.len(),
{
    if s.len() > 0 {
        let d = s.drop_last();
        assert forall|i: int| 0 <= i < d.len() implies lex_lt(#[trigger] d[i].0, k) by {
            assert(d[i] == s[i]);
        }
        lemma_below_all(d, k);
        assert(lex_lt(s[s.len() - 1].0, k));
    }
    if has_key(s, k) {
        let i = choose|i: int| 0 <= i < s.len() && #[trigger] s[i].0 == k;
        assert(lex_lt(s[i].0, k));
        lemma_lex_irreflexive(k);
    }
}

/// After storing `v` under `k`, looking `k` up gives `v`.
pub proof fn lemma_put_facts<V>(s: Seq<(Seq<char>, V)>, k: Seq<char>, v: V)
    ensures
        has_key(put(s, k, v), k),
        lookup(put(s, k, v), k) == Some(v),
{
    let r = put(s, k, v);
    if has_key(s, k) {
        lemma_has_first(s, k);
        let j = key_index(s, k);
        assert forall|i: int| 0 <= i < j implies #[trigger] r[i].0 != k by {
            assert(r[i] == s[i]);
        }
        assert(first_at(r, k, j));
        lemma_first_at(r, k, j);
    } else {
        lemma_below_bound(s, k);
        let n = below(s, k) as int;
        assert forall|i: int| 0 <= i < n implies #[trigger] r[i].0 != k by {
            assert(r[i] == s[i]);
        }
        assert(first_at(r, k, n));
        lemma_first_at(r, k, n);
    }
}

/// Storing twice under one key is storing the second value.
pub proof fn lemma_put_put<V>(s: Seq<(Seq<char>, V)>, k: Seq<char>, a: V, b: V)
    ensures
        put(put(s, k, a), k, b) == put(s, k, b),
{
    let r = put(s, k, a);
    if has_key(s, k) {
        lemma_has_first(s, k);
        let j = key_index(s, k);
        assert forall|i: int| 0 <= i < j implies #[trigger] r[i].0 != k by {
            assert(r[i] == s[i]);
        }
        lemma_first_at(r, k, j);
        assert(put(r, k, b) =~= put(s, k, b));
    } else {
        lemma_below_bound(s, k);
        let n = below(s, k) as int;
        assert forall|i: int| 0 <= i < n implies #[trigger] r[i].0 != k by {
            assert(r[i] == s[i]);
        }
        lemma_first_at(r, k, n);
        assert(put(r, k, b) =~= put(s, k, b));
    }
}

/// The values of `s` passed through `f`, keys unchanged.
pub open spec fn mapv<V, W>(s: Seq<(Seq<char>, V)>, f: spec_fn(V) -> W) -> Seq<(Seq<char>, W)> {
    s.map_values(|e: (Seq<char>, V)| (e.0, f(e.1)))
}

pub proof fn lemma_below_mapv<V, W>(s: Seq<(Seq<char>, V)>, k: Seq<char>, f: spec_fn(V) -> W)
    ensures
        below(mapv(s, f), k) == below(s, k),
    decreases s.len(),
{
    if s.len() > 0 {
        lemma_below_mapv(s.drop_last(), k, f);
        assert(mapv(s, f).drop_last() =~= mapv(s.drop_last(), f));
    }
}

/// Mapping the values commutes with lookup and with storing.
pub proof fn lemma_mapv<V, W>(s: Seq<(Seq<char>, V)>, k: Seq<char>, v: V, f: spec_fn(V) -> W)
    ensures
        has_key(mapv(s, f), k) == has_key(s, k),
        has_key(s, k) ==> key_index(mapv(s, f), k) == key_index(s, k),
        lookup(mapv(s, f), k) == (match lookup(s, k) {
            Some(x) => Some(f(x)),
            None => None::<W>,
        }),
        put(mapv(s, f), k, f(v)) == mapv(put(s, k, v), f),
{
    let m = mapv(s, f);
    if has_key(s, k) {
        lemma_has_first(s, k);
        let j = key_index(s, k);
        assert(m[j].0 == k);
        assert forall|i: int| 0 <= i < j implies #[trigger] m[i].0 != k by {
            assert(s[i].0 != k);
        }
        lemma_first_at(m, k, j);
        assert(put(m, k, f(v)) =~= mapv(put(s, k, v), f));
    } else {
        assert(!has_key(m, k)) by {
            if has_key(m, k) {
                let i = choose|i: int| 0 <= i < m.len() && #[trigger] m[i].0 == k;
                assert(s[i].0 == k);
            }
        }
        lemma_below_mapv(s, k, f);
        lemma_below_bound(s, k);
        assert(put(m, k, f(v)) =~= mapv(put(s, k, v), f));
    }
}

/// Storing under a key keeps the keys sorted.
pub proof fn lemma_put_sorted<V>(s: Seq<(Seq<char>, V)>, k: Seq<char>, v: V)
    requires
        keys_sorted(s),
    ensures
        keys_sorted(put(s, k, v)),
{
    let r = put(s, k, v);
    if has_key(s, k) {
        lemma_has_first(s, k);
        let j = key_index(s, k);
        assert forall|a: int, b: int| 0 <= a < b < r.len() implies lex_lt(#[trigger] r[a].0, #[trigger] r[b].0) by {
            assert(r[a].0 == s[a].0 && r[b].0 == s[b].0);
        }
    } else {
        lemma_below_split(s, k);
        let p = below(s, k) as int;
        assert forall|i: int| p <= i < s.len() implies lex_lt(k, #[trigger] s[i].0) by {
            lemma_lex_total(k, s[i].0);
            assert(s[i].0 != k);
        }
        assert forall|a: int, b: int| 0 <= a < b < r.len() implies lex_lt(#[trigger] r[a].0, #[trigger] r[b].0) by {
            if b < p {
                assert(r[a] == s[a] && r[b] == s[b]);
            } else if b == p {
                assert(r[a] == s[a]);
            } else if a == p {
                assert(r[b] == s[b - 1]);
            } else if a < p {
                assert(r[a] == s[a] && r[b] == s[b - 1]);
            } else {
                assert(r[a] == s[a - 1] && r[b] == s[b - 1]);
            }
        }
    }
}

/// A value held in a map is smaller than the map.
pub proof fn lemma_value_decreases<V>(m: StrMap<V>, i: int)
    requires
        0 <= i < m@.len(),
    ensures
        decreases_to!(m => m@[i].1),
{
    assert(decreases_to!(m => m.entries));
    assert(decreases_to!(m.entries => m.entries@));
    assert(decreases_to!(m.entries@ => m.entries@[i]));
    assert(decreases_to!(m.entries@[i] => m.entries@[i].1));
    assert(m@[i].1 == m.entries@[i].1);
}

/// A map from text keys to values, keys in ascending text order, each once.
#[derive(Debug, PartialEq)]
pub struct StrMap<V> {
    entries: Vec<(String, V)>,
}

impl<V> View for StrMap<V> {
    type V = Seq<(Seq<char>, V)>;

    closed spec fn view(&self) -> Seq<(Seq<char>, V)> {
        self.entries@.map_values(|e: (String, V)| (e.0@, e.1))
    }
}

impl<V> StrMap<V> {
    /// Well-formed: keys strictly ascending, so each occurs once. `new`
    /// establishes it and `insert` keeps it.
    pub open spec fn wf(&self) -> bool {
        keys_sorted(self@)
    }

    /// The empty map.
    pub fn new() -> (r: Self)
        ensures
            r@ == Seq::<(Seq<char>, V)>::empty(),
        r.wf(),
    {
        let r = StrMap { entries: Vec::new() };
        assert(r@ =~= Seq::<(Seq<char>, V)>::empty());
        r
    }

    /// Appends an entry whose key the caller knows to be new.
    pub(crate) fn push_new(&mut self, k: String, v: V)
        ensures
            final(self)@ == old(self)@.push((k@, v)),
            old(self).wf() && (forall|i: int| 0 <= i < old(self)@.len() ==> lex_lt(#[trigger] old(self)@[i].0, k@))
                ==> final(self).wf(),
    {
        self.entries.push((k, v));
        assert(self@ =~= old(self)@.push((k@, v)));
    }

    /// The number of entries.
    pub fn len(&self) -> (r: usize)
        ensures
            r == self@.len(),
    {
        self.entries.len()
    }

    /// Whether the map has no entry.
    pub fn is_empty(&self) -> (r: bool)
        ensures
            r == (self@.len() == 0),
    {
        self.entries.len() == 0
    }

    /// The key of the entry at position `i`.
    pub fn key_at(&self, i: usize) -> (r: &String)
        requires
            i < self@.len(),
        ensures
            r@ == self@[i as int].0,
    {
        &self.entries[i].0
    }

    /// The value of the entry at position `i`.
    pub fn value_at(&self, i: usize) -> (r: &V)
        requires
            i < self@.len(),
        ensures
            *r == self@[i as int].1,
    {
        &self.entries[i].1
    }

    /// The position of key `k`, if present.
    pub fn position(&self, k: &str) -> (r: Option<usize>)
        ensures
            match r {
                Some(i) => i < self@.len() && self@[i as int].0 == k@ && has_key(self@, k@)
                    && key_index(self@, k@) == i,
                None => !has_key(self@, k@),
            },
    {
        assert(self@.len() == self.entries@.len());
        let mut i: usize = 0;
        while i < self.entries.len()
            invariant
                i <= self@.len(),
                self@.len() == self.entries@.len(),
                forall|j: int| 0 <= j < i ==> self@[j].0 != k@,
            decreases self.entries.len() - i,
        {
            if same_text(self.entries[i].0.as_str(), k) {
                proof {
                    lemma_first_at(self@, k@, i as int);
                }
                return Some(i);
            }
            i = i + 1;
        }
        None
    }

    /// Whether some entry has key `k`.
    pub fn contains_key(&self, k: &str) -> (r: bool)
        ensures
            r == has_key(self@, k@),
    {
        self.position(k).is_some()
    }

    /// The value stored under `k`, if any.
    pub fn get(&self, k: &str) -> (r: Option<&V>)
        ensures
            match r {
                Some(v) => lookup(self@, k@) == Some(*v),
                None => lookup(self@, k@) is None,
            },
    {
        match self.position(k) {
            Some(i) => Some(&self.entries[i].1),
            None => None,
        }
    }

    /// Stores `v` under `k`: an existing entry keeps its place, a new key goes
    /// where text order puts it.
    pub fn insert(&mut self, k: String, v: V)
        ensures
            final(self)@ == put(old(self)@, k@, v),
            old(self).wf() ==> final(self).wf(),
            has_key(final(self)@, k@),
            lookup(final(self)@, k@) == Some(v),
    {
        let pos = self.position(k.as_str());
        proof {
            lemma_put_facts(self@, k@, v);
            if self.wf() {
                lemma_put_sorted(self@, k@, v);
            }
        }
        match pos {
            Some(i) => {
                self.entries.remove(i);
                self.entries.insert(i, (k, v));
                assert(self@ =~= put(old(self)@, k@, v));
            },
            None => {
                let kc = to_chars(k.as_str());
                let n = self.entries.len();
                let mut p: usize = 0;
                let mut i: usize = 0;
                while i < n
                    invariant
                        n == self.entries@.len(),
                        self@ == old(self)@,
                        kc@ == k@,
                        p <= i <= n,
                        p == below(self@.subrange(0, i as int), k@),
                    decreases n - i,
                {
                    assert(self@.subrange(0, i + 1).drop_last() =~= self@.subrange(0, i as int));
                    assert(self@.subrange(0, i + 1).last() == self@[i as int]);
                    if text_lt(&to_chars(self.entries[i].0.as_str()), &kc) {
                        p = p + 1;
                    }
                    i = i + 1;
                }
                assert(self@.subrange(0, n as int) =~= self@);
                self.entries.insert(p, (k, v));
                assert(self@ =~= put(old(self)@, k@, v));
            },
        }
    }

    /// Puts `v` in place of the value under `k` and hands back the one it
    /// replaced; without that key the map is left as it is.
    pub fn swap_value(&mut self, k: &str, v: V) -> (r: Option<V>)
        ensures
            match r {
                Some(prev) => has_key(old(self)@, k@) && lookup(old(self)@, k@) == Some(prev)
                    && final(self)@ == put(old(self)@, k@, v),
                None => !has_key(old(self)@, k@) && final(self)@ == old(self)@,
            },
    {
        let pos = self.position(k);
        match pos {
            Some(i) => {
                let (key, prev) = self.entries.remove(i);
                self.entries.insert(i, (key, v));
                assert(self@ =~= put(old(self)@, k@, v));
                Some(prev)
            },
            None => None,
        }
    }
}

} // verus!
