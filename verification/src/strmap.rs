//! Ordered associations keyed by strings.
//!
//! Entries are kept sorted by key in the order std gives `String`, so walking
//! the entries visits keys exactly as a `BTreeMap<String, _>` would.
use vstd::prelude::*;
use crate::text::{str_views, chars_of, compare_chars, lemma_lex_irreflexive, lemma_lex_transitive, lemma_strictly_sorted_distinct, lex_le, lex_lt, str_eq, strictly_sorted, Order};

verus! {

/// The map that a sequence of (key, value) pairs denotes; later pairs win.
pub open spec fn pairs_to_map<T>(s: Seq<(Seq<char>, T)>) -> Map<Seq<char>, T>
    decreases s.len(),
{
    if s.len() == 0 {
        Map::empty()
    } else {
        pairs_to_map(s.drop_last()).insert(s.last().0, s.last().1)
    }
}

/// Keys of a sequence of pairs.
pub open spec fn pair_keys<T>(s: Seq<(Seq<char>, T)>) -> Seq<Seq<char>> {
    s.map_values(|p: (Seq<char>, T)| p.0)
}

pub proof fn lemma_pairs_to_map_dom<T>(s: Seq<(Seq<char>, T)>, k: Seq<char>)
    ensures
        pairs_to_map(s).dom().contains(k) <==> exists|i: int| 0 <= i < s.len() && s[i].0 == k,
    decreases s.len(),
{
    if s.len() > 0 {
        lemma_pairs_to_map_dom(s.drop_last(), k);
        if exists|i: int| 0 <= i < s.len() && s[i].0 == k {
            let i = choose|i: int| 0 <= i < s.len() && s[i].0 == k;
            if i < s.len() - 1 {
                assert(s.drop_last()[i].0 == k);
            }
        }
        if exists|i: int| 0 <= i < s.len() - 1 && s.drop_last()[i].0 == k {
            let i = choose|i: int| 0 <= i < s.len() - 1 && s.drop_last()[i].0 == k;
            assert(s[i].0 == k);
        }
    }
}

pub proof fn lemma_pairs_to_map_value<T>(s: Seq<(Seq<char>, T)>, i: int)
    requires
        0 <= i < s.len(),
        strictly_sorted(pair_keys(s)),
    ensures
        pairs_to_map(s).dom().contains(s[i].0),
        pairs_to_map(s)[s[i].0] == s[i].1,
    decreases s.len(),
{
    lemma_pairs_to_map_dom(s, s[i].0);
    if i < s.len() - 1 {
        let t = s.drop_last();
        assert(pair_keys(t) =~= pair_keys(s).drop_last());
        assert(strictly_sorted(pair_keys(t))) by {
            assert forall|a: int, b: int| 0 <= a < b < pair_keys(t).len() implies lex_lt(
                #[trigger] pair_keys(t)[a],
                #[trigger] pair_keys(t)[b],
            ) by {
                assert(pair_keys(t)[a] == pair_keys(s)[a]);
                assert(pair_keys(t)[b] == pair_keys(s)[b]);
            }
        }
        lemma_pairs_to_map_value(t, i);
        assert(pair_keys(s)[i] == s[i].0);
        assert(pair_keys(s)[s.len() - 1] == s.last().0);
        lemma_strictly_sorted_distinct(pair_keys(s), i, s.len() - 1);
    }
}

/// Sorted string-keyed association list.
#[derive(Debug, Clone, PartialEq, Eq)]
pub struct StrMap<T> {
    entries: Vec<(String, T)>,
}

impl<T> StrMap<T> {
    /// The entries as (key characters, value) pairs, in key order.
    pub closed spec fn pairs(&self) -> Seq<(Seq<char>, T)> {
        self.entries@.map_values(|e: (String, T)| (e.0@, e.1))
    }

    /// Keys in increasing order.
    pub open spec fn keys(&self) -> Seq<Seq<char>> {
        pair_keys(self.pairs())
    }

    /// The association as a map.
    pub open spec fn map(&self) -> Map<Seq<char>, T> {
        pairs_to_map(self.pairs())
    }

    /// Keys are kept strictly increasing.
    pub closed spec fn wf(&self) -> bool {
        strictly_sorted(pair_keys(self.pairs()))
    }

    /// Keys are strictly increasing, and the map agrees with the entries.
    pub proof fn lemma_well_formed(&self)
        requires
            self.wf(),
        ensures
            strictly_sorted(self.keys()),
            forall|i: int|
                0 <= i < self.pairs().len() ==> #[trigger] self.map().dom().contains(
                    self.pairs()[i].0,
                ) && self.map()[self.pairs()[i].0] == self.pairs()[i].1,
            forall|k: Seq<char>|
                #[trigger] self.map().dom().contains(k) <==> exists|i: int|
                    0 <= i < self.pairs().len() && self.pairs()[i].0 == k,
    {
        assert forall|i: int| 0 <= i < self.pairs().len() implies #[trigger] self.map().dom().contains(
            self.pairs()[i].0,
        ) && self.map()[self.pairs()[i].0] == self.pairs()[i].1 by {
            lemma_pairs_to_map_value(self.pairs(), i);
        }
        assert forall|k: Seq<char>| #[trigger]
            self.map().dom().contains(k) <==> exists|i: int|
                0 <= i < self.pairs().len() && self.pairs()[i].0 == k by {
            lemma_pairs_to_map_dom(self.pairs(), k);
        }
    }

    /// The keys, as a set, are the map's domain.
    pub proof fn lemma_keys_to_set(&self)
        requires
            self.wf(),
        ensures
            self.keys().to_set() == self.map().dom(),
    {
        self.lemma_well_formed();
        assert forall|k: Seq<char>| self.keys().to_set().contains(k) <==> self.map().dom().contains(k) by {
            if self.keys().contains(k) {
                let i = choose|i: int| 0 <= i < self.keys().len() && self.keys()[i] == k;
                assert(self.pairs()[i].0 == k);
            }
            if self.map().dom().contains(k) {
                let i = choose|i: int| 0 <= i < self.pairs().len() && self.pairs()[i].0 == k;
                assert(self.keys()[i] == k);
            }
        }
        assert(self.keys().to_set() =~= self.map().dom());
    }

    pub fn new() -> (m: Self)
        ensures
            m.wf(),
            m.pairs() == Seq::<(Seq<char>, T)>::empty(),
            m.map() == Map::<Seq<char>, T>::empty(),
    {
        let m = StrMap { entries: Vec::new() };
        assert(m.pairs() =~= Seq::<(Seq<char>, T)>::empty());
        m
    }

    pub fn len(&self) -> (n: usize)
        ensures
            n == self.pairs().len(),
    {
        self.entries.len()
    }

    pub fn key_at(&self, i: usize) -> (k: &String)
        requires
            i < self.pairs().len(),
        ensures
            k@ == self.pairs()[i as int].0,
    {
        &self.entries[i].0
    }

    pub fn value_at(&self, i: usize) -> (v: &T)
        requires
            i < self.pairs().len(),
        ensures
            *v == self.pairs()[i as int].1,
    {
        &self.entries[i].1
    }

    /// Position of `key`, when present.
    pub fn find(&self, key: &str) -> (r: Option<usize>)
        requires
            self.wf(),
        ensures
            r matches Some(i) ==> i < self.pairs().len() && self.pairs()[i as int].0 == key@,
            r is None ==> !self.map().dom().contains(key@),
            r is Some <==> self.map().dom().contains(key@),
    {
        proof {
            self.lemma_well_formed();
        }
        let mut i: usize = 0;
        while i < self.entries.len()
            invariant
                self.wf(),
                i <= self.pairs().len(),
                self.pairs().len() == self.entries@.len(),
                forall|k: int| 0 <= k < i ==> self.pairs()[k].0 != key@,
            decreases self.entries@.len() - i,
        {
            if str_eq(self.entries[i].0.as_str(), key) {
                proof {
                    self.lemma_well_formed();
                    assert(self.map().dom().contains(self.pairs()[i as int].0));
                }
                return Some(i);
            }
            i = i + 1;
        }
        None
    }

    /// Whether `key` is present.
    pub fn contains(&self, key: &str) -> (b: bool)
        requires
            self.wf(),
        ensures
            b == self.map().dom().contains(key@),
    {
        self.find(key).is_some()
    }

    /// Value stored under `key`.
    pub fn get(&self, key: &str) -> (r: Option<&T>)
        requires
            self.wf(),
        ensures
            r is Some <==> self.map().dom().contains(key@),
            r matches Some(v) ==> *v == self.map()[key@],
    {
        proof {
            self.lemma_well_formed();
        }
        match self.find(key) {
            Some(i) => Some(&self.entries[i].1),
            None => None,
        }
    }

    /// Replaces the value at position `i`, keeping its key.
    pub fn set_value_at(&mut self, i: usize, value: T)
        requires
            old(self).wf(),
            i < old(self).pairs().len(),
        ensures
            final(self).wf(),
            final(self).pairs() == old(self).pairs().update(
                i as int,
                (old(self).pairs()[i as int].0, value),
            ),
    {
        let key = self.entries[i].0.clone();
        let ghost old_pairs = self.pairs();
        self.entries.set(i, (key, value));
        proof {
            assert(self.pairs() =~= old_pairs.update(i as int, (old_pairs[i as int].0, value)));
            assert(pair_keys(self.pairs()) =~= pair_keys(old_pairs));
        }
    }

    /// Removes the entry at position `i`.
    pub fn remove_at(&mut self, i: usize) -> (removed: (String, T))
        requires
            old(self).wf(),
            i < old(self).pairs().len(),
        ensures
            final(self).wf(),
            final(self).pairs() == old(self).pairs().remove(i as int),
            removed.0@ == old(self).pairs()[i as int].0,
            removed.1 == old(self).pairs()[i as int].1,
    {
        let ghost old_pairs = self.pairs();
        let removed = self.entries.remove(i);
        proof {
            assert(self.pairs() =~= old_pairs.remove(i as int));
            let ok = pair_keys(old_pairs);
            let nk = pair_keys(self.pairs());
            assert forall|a: int, b: int| 0 <= a < b < nk.len() implies lex_lt(
                #[trigger] nk[a],
                #[trigger] nk[b],
            ) by {
                let oa = if a < i { a } else { a + 1 };
                let ob = if b < i { b } else { b + 1 };
                assert(nk[a] == ok[oa]);
                assert(nk[b] == ok[ob]);
            }
        }
        removed
    }

    /// Inserts `key -> value`, replacing any previous value under `key`.
    /// Returns the previous value's position when the key was already present.
    pub fn insert(&mut self, key: String, value: T) -> (r: Option<usize>)
        requires
            old(self).wf(),
        ensures
            final(self).wf(),
            final(self).map() == old(self).map().insert(key@, value),
            r is Some <==> old(self).map().dom().contains(key@),
            r matches Some(i) ==> i < old(self).pairs().len() && old(self).pairs()[i as int].0
                == key@ && final(self).pairs() == old(self).pairs().update(
                i as int,
                (key@, value),
            ),
            r is None ==> exists|j: int|
                0 <= j <= old(self).pairs().len() && final(self).pairs() == old(
                    self,
                ).pairs().insert(j, (key@, value)),
    {
        proof {
            self.lemma_well_formed();
        }
        let ghost old_pairs = self.pairs();
        let ghost old_map = self.map();
        let kc = chars_of(key.as_str());
        let mut i: usize = 0;
        let mut above = false;
        while i < self.entries.len() && !above
            invariant
                self.wf(),
                strictly_sorted(pair_keys(old_pairs)),
                i <= self.pairs().len(),
                self.pairs().len() == self.entries@.len(),
                self.pairs() == old_pairs,
                old_pairs == old(self).pairs(),
                old_map == pairs_to_map(old_pairs),
                kc@ == key@,
                forall|k: int| 0 <= k < i ==> lex_lt(#[trigger] old_pairs[k].0, key@),
                above ==> i < old_pairs.len() && lex_lt(key@, old_pairs[i as int].0),
            decreases self.entries@.len() - i + (if above { 0int } else { 1 }),
        {
            let ec = chars_of(self.entries[i].0.as_str());
            match compare_chars(ec.as_slice(), kc.as_slice()) {
                Order::Less => {
                    i = i + 1;
                },
                Order::Equal => {
                    self.set_value_at(i, value);
                    proof {
                        assert(old_pairs[i as int].0 == key@);
                        lemma_pairs_update_map(old_pairs, i as int, value);
                        lemma_pairs_to_map_dom(old_pairs, key@);
                    }
                    return Some(i);
                },
                Order::Greater => {
                    above = true;
                },
            }
        }
        proof {
            // every earlier key is below `key`, every later key above it
            assert forall|k: int| i <= k < old_pairs.len() implies lex_lt(
                key@,
                #[trigger] old_pairs[k].0,
            ) by {
                if k > i {
                    assert(pair_keys(old_pairs)[i as int] == old_pairs[i as int].0);
                    assert(pair_keys(old_pairs)[k] == old_pairs[k].0);
                    assert(lex_lt(old_pairs[i as int].0, old_pairs[k].0));
                    lemma_lex_transitive(key@, old_pairs[i as int].0, old_pairs[k].0);
                }
            }
        }
        let ghost new_pairs = old_pairs.insert(i as int, (key@, value));
        proof {
            assert forall|k: int| 0 <= k < old_pairs.len() implies #[trigger] old_pairs[k].0
                != key@ by {
                if k < i {
                    lemma_lex_irreflexive(key@);
                } else {
                    lemma_lex_irreflexive(key@);
                }
            }
        }
        self.insert_at(i, key, value);
        proof {
            assert(self.pairs() == new_pairs);
            lemma_pairs_insert_map(old_pairs, i as int, key@, value);
        }
        None
    }

    /// Inserts at a position known to keep keys sorted.
    fn insert_at(&mut self, i: usize, key: String, value: T)
        requires
            old(self).wf(),
            i <= old(self).pairs().len(),
            forall|k: int| 0 <= k < i ==> lex_lt(#[trigger] old(self).pairs()[k].0, key@),
            forall|k: int|
                i <= k < old(self).pairs().len() ==> lex_lt(key@, #[trigger] old(self).pairs()[k].0),
        ensures
            final(self).wf(),
            final(self).pairs() == old(self).pairs().insert(i as int, (key@, value)),
    {
        let ghost old_pairs = self.pairs();
        let ghost kv = key@;
        self.entries.insert(i, (key, value));
        proof {
            assert(self.pairs() =~= old_pairs.insert(i as int, (kv, value)));
            let ok = pair_keys(old_pairs);
            let nk = pair_keys(self.pairs());
            assert forall|a: int, b: int| 0 <= a < b < nk.len() implies lex_lt(
                #[trigger] nk[a],
                #[trigger] nk[b],
            ) by {
                if a < i && b < i {
                    assert(nk[a] == ok[a] && nk[b] == ok[b]);
                } else if a < i && b == i {
                    assert(nk[a] == old_pairs[a].0);
                } else if a < i {
                    assert(nk[a] == old_pairs[a].0);
                    assert(nk[b] == old_pairs[b - 1].0);
                    lemma_lex_transitive(nk[a], kv, nk[b]);
                } else if a == i {
                    assert(nk[b] == old_pairs[b - 1].0);
                } else {
                    assert(nk[a] == ok[a - 1] && nk[b] == ok[b - 1]);
                }
            }
        }
    }
}

pub proof fn lemma_pairs_update_map<T>(s: Seq<(Seq<char>, T)>, i: int, v: T)
    requires
        0 <= i < s.len(),
        strictly_sorted(pair_keys(s)),
    ensures
        pairs_to_map(s.update(i, (s[i].0, v))) == pairs_to_map(s).insert(s[i].0, v),
        strictly_sorted(pair_keys(s.update(i, (s[i].0, v)))),
{
    let t = s.update(i, (s[i].0, v));
    assert(pair_keys(t) =~= pair_keys(s));
    let m1 = pairs_to_map(t);
    let m2 = pairs_to_map(s).insert(s[i].0, v);
    assert forall|k: Seq<char>| m1.dom().contains(k) <==> m2.dom().contains(k) by {
        lemma_pairs_to_map_dom(t, k);
        lemma_pairs_to_map_dom(s, k);
        if exists|j: int| 0 <= j < s.len() && s[j].0 == k {
            let j = choose|j: int| 0 <= j < s.len() && s[j].0 == k;
            assert(t[j].0 == k);
        }
    }
    assert forall|k: Seq<char>| m1.dom().contains(k) implies m1[k] == m2[k] by {
        lemma_pairs_to_map_dom(t, k);
        let j = choose|j: int| 0 <= j < t.len() && t[j].0 == k;
        lemma_pairs_to_map_value(t, j);
        if j != i {
            lemma_pairs_to_map_value(s, j);
            assert(pair_keys(s)[j] == s[j].0);
            assert(pair_keys(s)[i] == s[i].0);
            lemma_strictly_sorted_distinct(pair_keys(s), i, j);
        }
    }
    assert(m1 =~= m2);
}

pub proof fn lemma_pairs_insert_map<T>(s: Seq<(Seq<char>, T)>, i: int, k0: Seq<char>, v: T)
    requires
        0 <= i <= s.len(),
        strictly_sorted(pair_keys(s.insert(i, (k0, v)))),
    ensures
        pairs_to_map(s.insert(i, (k0, v))) == pairs_to_map(s).insert(k0, v),
{
    let t = s.insert(i, (k0, v));
    let m1 = pairs_to_map(t);
    let m2 = pairs_to_map(s).insert(k0, v);
    assert(t[i] == (k0, v));
    assert forall|k: Seq<char>| m1.dom().contains(k) <==> m2.dom().contains(k) by {
        lemma_pairs_to_map_dom(t, k);
        lemma_pairs_to_map_dom(s, k);
        if exists|j: int| 0 <= j < s.len() && s[j].0 == k {
            let j = choose|j: int| 0 <= j < s.len() && s[j].0 == k;
            if j < i {
                assert(t[j].0 == k);
            } else {
                assert(t[j + 1].0 == k);
            }
        }
        if exists|j: int| 0 <= j < t.len() && t[j].0 == k {
            let j = choose|j: int| 0 <= j < t.len() && t[j].0 == k;
            if j < i {
                assert(s[j].0 == k);
            } else if j > i {
                assert(s[j - 1].0 == k);
            }
        }
    }
    assert forall|k: Seq<char>| m1.dom().contains(k) implies m1[k] == m2[k] by {
        lemma_pairs_to_map_dom(t, k);
        let j = choose|j: int| 0 <= j < t.len() && t[j].0 == k;
        lemma_pairs_to_map_value(t, j);
        if j != i {
            assert(pair_keys(t)[j] == t[j].0);
            assert(pair_keys(t)[i] == t[i].0);
            lemma_strictly_sorted_distinct(pair_keys(t), i, j);
            let sj = if j < i { j } else { j - 1 };
            assert(s[sj] == t[j]);
            // s is t without position i, so it is sorted too
            assert(strictly_sorted(pair_keys(s))) by {
                assert forall|a: int, b: int| 0 <= a < b < pair_keys(s).len() implies lex_lt(
                    #[trigger] pair_keys(s)[a],
                    #[trigger] pair_keys(s)[b],
                ) by {
                    let ta = if a < i { a } else { a + 1 };
                    let tb = if b < i { b } else { b + 1 };
                    assert(pair_keys(s)[a] == pair_keys(t)[ta]);
                    assert(pair_keys(s)[b] == pair_keys(t)[tb]);
                }
            }
            lemma_pairs_to_map_value(s, sj);
        }
    }
    assert(m1 =~= m2);
}

impl<T> StrMap<T> {
    /// The keys, in increasing order.
    pub fn keys_vec(&self) -> (r: Vec<String>)
        ensures
            str_views(r@) == self.keys(),
    {
        let mut r: Vec<String> = Vec::new();
        let mut i: usize = 0;
        while i < self.entries.len()
            invariant
                i <= self.pairs().len(),
                self.pairs().len() == self.entries@.len(),
                str_views(r@) == self.keys().take(i as int),
            decreases self.entries@.len() - i,
        {
            let k = self.entries[i].0.clone();
            proof {
                assert(self.keys()[i as int] == self.pairs()[i as int].0);
                assert(self.pairs()[i as int].0 == self.entries@[i as int].0@);
            }
            let ghost old_r = r@;
            r.push(k);
            proof {
                assert(str_views(r@) =~= str_views(old_r).push(k@));
                assert(self.keys().take(i + 1) =~= self.keys().take(i as int).push(self.keys()[i as int]));
            }
            i = i + 1;
            assert(str_views(r@) =~= self.keys().take(i as int));
        }
        assert(self.keys().take(i as int) =~= self.keys());
        r
    }
}

/// The set of distinct strings in `v`, kept sorted.
pub fn str_set_from(v: &Vec<String>) -> (s: StrMap<()>)
    ensures
        s.wf(),
        s.map().dom() == str_views(v@).to_set(),
{
    let mut s: StrMap<()> = StrMap::new();
    let mut i: usize = 0;
    while i < v.len()
        invariant
            s.wf(),
            i <= v@.len(),
            s.map().dom() == str_views(v@).take(i as int).to_set(),
        decreases v@.len() - i,
    {
        s.insert(v[i].clone(), ());
        proof {
            let t = str_views(v@).take(i + 1);
            assert(t =~= str_views(v@).take(i as int).push(v@[i as int]@));
            assert(t.to_set() =~= str_views(v@).take(i as int).to_set().insert(v@[i as int]@)) by {
                assert forall|x: Seq<char>| t.to_set().contains(x) <==> str_views(v@).take(
                    i as int,
                ).to_set().insert(v@[i as int]@).contains(x) by {
                    if t.contains(x) {
                        let j = choose|j: int| 0 <= j < t.len() && t[j] == x;
                        if j < i {
                            assert(str_views(v@).take(i as int)[j] == x);
                        }
                    }
                    if str_views(v@).take(i as int).contains(x) {
                        let j = choose|j: int|
                            0 <= j < i && str_views(v@).take(i as int)[j] == x;
                        assert(t[j] == x);
                    }
                    if x == v@[i as int]@ {
                        assert(t[i as int] == x);
                    }
                }
            }
            assert(s.map().dom() =~= t.to_set());
        }
        i = i + 1;
    }
    assert(str_views(v@).take(v@.len() as int) =~= str_views(v@));
    s
}


/// The least key (in string order) of `m` whose entry is `bad`, if any.
pub open spec fn least_key_where<T>(m: Map<Seq<char>, T>, bad: spec_fn(Seq<char>, T) -> bool) -> Option<
    Seq<char>,
> {
    if exists|k: Seq<char>| m.dom().contains(k) && bad(k, m[k]) {
        Some(
            choose|k: Seq<char>|
                m.dom().contains(k) && bad(k, m[k]) && forall|k2: Seq<char>|
                    m.dom().contains(k2) && bad(k2, m[k2]) ==> #[trigger] lex_le(k, k2),
        )
    } else {
        None
    }
}

impl<T> StrMap<T> {
    /// Walking the entries in order, the first bad one has the least bad key.
    pub proof fn lemma_least_key_found(&self, i: int, bad: spec_fn(Seq<char>, T) -> bool)
        requires
            self.wf(),
            0 <= i < self.pairs().len(),
            bad(self.pairs()[i].0, self.pairs()[i].1),
            forall|j: int| 0 <= j < i ==> !bad(#[trigger] self.pairs()[j].0, self.pairs()[j].1),
        ensures
            least_key_where(self.map(), bad) == Some(self.pairs()[i].0),
    {
        self.lemma_well_formed();
        let m = self.map();
        let k = self.pairs()[i].0;
        assert(m.dom().contains(k) && m[k] == self.pairs()[i].1);
        assert forall|k2: Seq<char>| m.dom().contains(k2) && bad(k2, m[k2]) implies #[trigger] lex_le(k, k2) by {
            let j = choose|j: int| 0 <= j < self.pairs().len() && self.pairs()[j].0 == k2;
            assert(m[self.pairs()[j].0] == self.pairs()[j].1);
            if j < i {
                assert(!bad(self.pairs()[j].0, self.pairs()[j].1));
            } else if j > i {
                assert(self.keys()[i] == k && self.keys()[j] == k2);
            }
        }
        let c = choose|c: Seq<char>|
            m.dom().contains(c) && bad(c, m[c]) && forall|k2: Seq<char>|
                m.dom().contains(k2) && bad(k2, m[k2]) ==> #[trigger] lex_le(c, k2);
        assert(lex_le(c, k) && lex_le(k, c));
        if c != k {
            crate::text::lemma_lex_asymmetric(c, k);
        }
    }

    /// The domain has one key per entry.
    pub proof fn lemma_dom_len(&self)
        requires
            self.wf(),
        ensures
            self.map().dom().len() == self.pairs().len(),
            self.map().dom().finite(),
    {
        self.lemma_well_formed();
        self.lemma_keys_to_set();
        assert(self.keys().no_duplicates()) by {
            assert forall|i: int, j: int| 0 <= i < self.keys().len() && 0 <= j < self.keys().len() && i != j
                implies self.keys()[i] != self.keys()[j] by {
                lemma_strictly_sorted_distinct(self.keys(), i, j);
            }
        }
        self.keys().unique_seq_to_set();
        vstd::seq_lib::seq_to_set_is_finite(self.keys());
    }

    /// With no bad entry there is no bad key.
    pub proof fn lemma_least_key_none(&self, bad: spec_fn(Seq<char>, T) -> bool)
        requires
            self.wf(),
            forall|j: int| 0 <= j < self.pairs().len() ==> !bad(#[trigger] self.pairs()[j].0, self.pairs()[j].1),
        ensures
            least_key_where(self.map(), bad) is None,
    {
        self.lemma_well_formed();
        let m = self.map();
        assert forall|k: Seq<char>| m.dom().contains(k) implies !bad(k, m[k]) by {
            let j = choose|j: int| 0 <= j < self.pairs().len() && self.pairs()[j].0 == k;
            assert(m[self.pairs()[j].0] == self.pairs()[j].1);
        }
    }
}

/// Views of (key, value) string pairs, keys as characters.
pub open spec fn keyed_pairs(v: Seq<(String, String)>) -> Seq<(Seq<char>, String)> {
    v.map_values(|p: (String, String)| (p.0@, p.1))
}

/// The map that `v` denotes (later pairs win), kept sorted by key.
pub fn str_map_from_pairs(v: &Vec<(String, String)>) -> (m: StrMap<String>)
    ensures
        m.wf(),
        m.map() == pairs_to_map(keyed_pairs(v@)),
{
    let mut m: StrMap<String> = StrMap::new();
    let mut i: usize = 0;
    while i < v.len()
        invariant
            m.wf(),
            i <= v@.len(),
            m.map() == pairs_to_map(keyed_pairs(v@).take(i as int)),
        decreases v@.len() - i,
    {
        let k = v[i].0.clone();
        let x = v[i].1.clone();
        m.insert(k, x);
        proof {
            let t = keyed_pairs(v@).take(i + 1);
            assert(t.drop_last() =~= keyed_pairs(v@).take(i as int));
            assert(t.last() == (k@, x));
        }
        i = i + 1;
    }
    assert(keyed_pairs(v@).take(v@.len() as int) =~= keyed_pairs(v@));
    m
}

} // verus!
