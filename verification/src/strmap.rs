use crate::text::{lemma_lex_irreflexive, lemma_lex_total, lemma_lex_transitive, lex_lt, str_eq, str_lt};
use vstd::prelude::*;

verus! {

/// Whether each text of `keys` comes strictly before all later ones.
pub open spec fn increasing(keys: Seq<Seq<char>>) -> bool {
    forall|i: int, j: int|
        0 <= i < j < keys.len() ==> lex_lt(#[trigger] keys[i], #[trigger] keys[j])
}

/// The number of leading texts of `keys` that come before `key`.
pub open spec fn rank(keys: Seq<Seq<char>>, key: Seq<char>) -> int
    decreases keys.len(),
{
    if keys.len() == 0 || !lex_lt(keys[0], key) {
        0
    } else {
        1 + rank(keys.skip(1), key)
    }
}

/// In an increasing sequence no text stands twice.
pub proof fn lemma_increasing_distinct(keys: Seq<Seq<char>>, i: int, j: int)
    requires
        increasing(keys),
        0 <= i < keys.len(),
        0 <= j < keys.len(),
        keys[i] == keys[j],
    ensures
        i == j,
{
    lemma_lex_irreflexive(keys[i]);
}

/// `rank` is the one position that parts the texts before `key` from the others.
pub proof fn lemma_rank_is(keys: Seq<Seq<char>>, key: Seq<char>, p: int)
    requires
        0 <= p <= keys.len(),
        forall|i: int| 0 <= i < p ==> lex_lt(#[trigger] keys[i], key),
        p < keys.len() ==> !lex_lt(keys[p], key),
    ensures
        rank(keys, key) == p,
    decreases keys.len(),
{
    if p > 0 {
        assert(lex_lt(keys[0], key));
        let rest = keys.skip(1);
        assert forall|i: int| 0 <= i < p - 1 implies lex_lt(#[trigger] rest[i], key) by {
            assert(rest[i] == keys[i + 1]);
        }
        if p - 1 < rest.len() {
            assert(rest[p - 1] == keys[p]);
        }
        lemma_rank_is(rest, key, p - 1);
    }
}

/// A text that comes behind all of `keys` is none of them and ranks behind them.
pub proof fn lemma_rank_behind_all(keys: Seq<Seq<char>>, key: Seq<char>)
    requires
        forall|i: int| 0 <= i < keys.len() ==> lex_lt(#[trigger] keys[i], key),
    ensures
        rank(keys, key) == keys.len(),
        !keys.contains(key),
{
    lemma_rank_is(keys, key, keys.len() as int);
    lemma_lex_irreflexive(key);
}

/// Two increasing sequences that hold the same texts are the same sequence.
pub proof fn lemma_increasing_same_texts(a: Seq<Seq<char>>, b: Seq<Seq<char>>)
    requires
        increasing(a),
        increasing(b),
        forall|k: Seq<char>| a.contains(k) <==> b.contains(k),
    ensures
        a == b,
    decreases a.len(),
{
    if a.len() == 0 {
        if b.len() > 0 {
            assert(b.contains(b[0]));
        }
        assert(a =~= b);
    } else {
        assert(a.contains(a[0]));
        let j = b.index_of(a[0]);
        assert(b.contains(b[0]));
        let i = a.index_of(b[0]);
        if j > 0 {
            assert(lex_lt(b[0], b[j]));
            if i > 0 {
                assert(lex_lt(a[0], a[i]));
                lemma_lex_transitive(a[0], b[0], a[0]);
            }
            lemma_lex_irreflexive(a[0]);
        }
        assert(a[0] == b[0]);
        let ta = a.skip(1);
        let tb = b.skip(1);
        assert forall|x: int, y: int| 0 <= x < y < ta.len() implies lex_lt(
            #[trigger] ta[x],
            #[trigger] ta[y],
        ) by {
            assert(lex_lt(a[x + 1], a[y + 1]));
        }
        assert forall|x: int, y: int| 0 <= x < y < tb.len() implies lex_lt(
            #[trigger] tb[x],
            #[trigger] tb[y],
        ) by {
            assert(lex_lt(b[x + 1], b[y + 1]));
        }
        assert forall|k: Seq<char>| ta.contains(k) <==> tb.contains(k) by {
            if ta.contains(k) {
                let x = ta.index_of(k);
                assert(a[x + 1] == k);
                assert(a.contains(k));
                let y = b.index_of(k);
                if y == 0 {
                    assert(lex_lt(a[0], a[x + 1]));
                    lemma_lex_irreflexive(k);
                }
                assert(tb[y - 1] == k);
            }
            if tb.contains(k) {
                let y = tb.index_of(k);
                assert(b[y + 1] == k);
                assert(b.contains(k));
                let x = a.index_of(k);
                if x == 0 {
                    assert(lex_lt(b[0], b[y + 1]));
                    lemma_lex_irreflexive(k);
                }
                assert(ta[x - 1] == k);
            }
        }
        lemma_increasing_same_texts(ta, tb);
        assert(a =~= seq![a[0]] + ta);
        assert(b =~= seq![b[0]] + tb);
    }
}

/// A map from texts to values that is walked in the order of its keys.
#[derive(Debug)]
pub struct StrMap<V> {
    entries: Vec<(String, V)>,
}

impl<V> StrMap<V> {
    /// The keys, in the order in which the map is walked.
    pub closed spec fn keys(&self) -> Seq<Seq<char>> {
        self.entries@.map_values(|e: (String, V)| e.0@)
    }

    /// The values, each at the position of its key.
    pub closed spec fn values(&self) -> Seq<V> {
        self.entries@.map_values(|e: (String, V)| e.1)
    }

    /// The keys are in strictly increasing order, so none stands twice.
    #[verifier::type_invariant]
    pub open spec fn wf(&self) -> bool {
        increasing(self.keys())
    }

    /// Whether `key` is a key of the map.
    pub open spec fn has(&self, key: Seq<char>) -> bool {
        self.keys().contains(key)
    }

    /// The value that stands under `key`, if any.
    pub open spec fn lookup(&self, key: Seq<char>) -> Option<V> {
        if self.has(key) {
            Some(self.values()[self.keys().index_of(key)])
        } else {
            None
        }
    }

    /// The map as a mathematical map from keys to values.
    pub open spec fn map(&self) -> Map<Seq<char>, V> {
        Map::new(|k: Seq<char>| self.has(k), |k: Seq<char>| self.values()[self.keys().index_of(k)])
    }

    /// Two maps that hold the same values under the same keys are walked alike: the walk
    /// is settled by what a map holds.
    pub proof fn law_walk_is_settled(&self, other: Self)
        requires
            self.wf(),
            other.wf(),
            self.map() == other.map(),
        ensures
            self.keys() == other.keys(),
            self.values() == other.values(),
    {
        assert forall|k: Seq<char>| self.keys().contains(k) <==> other.keys().contains(k) by {
            assert(self.map().contains_key(k) == self.has(k));
            assert(other.map().contains_key(k) == other.has(k));
        }
        lemma_increasing_same_texts(self.keys(), other.keys());
        assert forall|i: int| 0 <= i < self.values().len() implies self.values()[i]
            == other.values()[i] by {
            self.lemma_lookup_at(i);
            other.lemma_lookup_at(i);
            let k = self.keys()[i];
            assert(self.map()[k] == self.values()[i]);
            assert(other.map()[k] == other.values()[i]);
        }
        assert(self.values() =~= other.values());
    }

    /// A key is found at one position only, and `lookup` gives the value there.
    pub proof fn lemma_lookup_at(&self, i: int)
        requires
            self.wf(),
            0 <= i < self.keys().len(),
        ensures
            self.has(self.keys()[i]),
            self.keys().index_of(self.keys()[i]) == i,
            self.lookup(self.keys()[i]) == Some(self.values()[i]),
    {
        let k = self.keys()[i];
        let j = self.keys().index_of(k);
        lemma_increasing_distinct(self.keys(), i, j);
    }

    /// The map that holds nothing.
    pub fn new() -> (m: Self)
        ensures
            m.keys() == Seq::<Seq<char>>::empty(),
            m.values() == Seq::<V>::empty(),
            m.wf(),
    {
        let m = StrMap { entries: Vec::new() };
        assert(m.keys() =~= Seq::<Seq<char>>::empty());
        assert(m.values() =~= Seq::<V>::empty());
        m
    }

    /// The number of keys.
    pub fn len(&self) -> (n: usize)
        ensures
            n == self.keys().len(),
            n == self.values().len(),
            self.wf(),
    {
        proof {
            use_type_invariant(self);
        }
        self.entries.len()
    }

    /// Whether the map holds nothing.
    pub fn is_empty(&self) -> (r: bool)
        ensures
            r == (self.keys().len() == 0),
            self.wf(),
    {
        proof {
            use_type_invariant(self);
        }
        self.entries.len() == 0
    }

    /// The key at position `i` of the walk.
    pub fn key_at(&self, i: usize) -> (key: &str)
        requires
            i < self.keys().len(),
        ensures
            key@ == self.keys()[i as int],
    {
        self.entries[i].0.as_str()
    }

    /// The value at position `i` of the walk.
    pub fn value_at(&self, i: usize) -> (value: &V)
        requires
            i < self.keys().len(),
        ensures
            *value == self.values()[i as int],
    {
        &self.entries[i].1
    }

    /// The position at which `key` stands or would have to be put.
    fn position(&self, key: &str) -> (r: (usize, bool))
        ensures
            self.wf(),
            r.0 == rank(self.keys(), key@),
            r.0 <= self.keys().len(),
            r.1 == self.has(key@),
            r.1 ==> r.0 < self.keys().len() && self.keys()[r.0 as int] == key@,
            forall|i: int| 0 <= i < r.0 ==> lex_lt(#[trigger] self.keys()[i], key@),
            !r.1 ==> forall|i: int|
                r.0 <= i < self.keys().len() ==> lex_lt(key@, #[trigger] self.keys()[i]),
    {
        proof {
            use_type_invariant(self);
        }
        let mut i: usize = 0;
        while i < self.entries.len()
            invariant
                i <= self.entries.len(),
                self.wf(),
                forall|j: int| 0 <= j < i ==> lex_lt(#[trigger] self.keys()[j], key@),
            decreases self.entries.len() - i,
        {
            let k = self.entries[i].0.as_str();
            if !str_lt(k, key) {
                let found = str_eq(k, key);
                proof {
                    let keys = self.keys();
                    lemma_rank_is(keys, key@, i as int);
                    lemma_lex_total(k@, key@);
                    lemma_lex_irreflexive(key@);
                    assert forall|j: int| i < j < keys.len() implies lex_lt(key@, #[trigger] keys[j]) by {
                        if found {
                            assert(lex_lt(keys[i as int], keys[j]));
                        } else {
                            lemma_lex_transitive(key@, keys[i as int], keys[j]);
                        }
                    }
                    if found {
                        assert(keys[i as int] == key@);
                    } else {
                        assert forall|j: int| 0 <= j < keys.len() implies keys[j] != key@ by {
                            if j < i {
                                assert(lex_lt(keys[j], key@));
                            } else {
                                assert(lex_lt(key@, keys[j]));
                            }
                        }
                    }
                }
                return (i, found);
            }
            i += 1;
        }
        proof {
            let keys = self.keys();
            lemma_rank_is(keys, key@, i as int);
            lemma_lex_irreflexive(key@);
            assert forall|j: int| 0 <= j < keys.len() implies keys[j] != key@ by {
                assert(lex_lt(keys[j], key@));
            }
        }
        (i, false)
    }

    /// Whether the map holds `key`.
    pub fn contains_key(&self, key: &str) -> (r: bool)
        ensures
            r == self.has(key@),
            r == self.map().contains_key(key@),
            self.wf(),
    {
        self.position(key).1
    }

    /// The value under `key`, if the map holds one.
    pub fn get(&self, key: &str) -> (r: Option<&V>)
        ensures
            self.wf(),
            match r {
                Some(v) => self.lookup(key@) == Some(*v) && self.map().contains_key(key@)
                    && self.map()[key@] == *v,
                None => self.lookup(key@) is None && !self.map().contains_key(key@),
            },
    {
        let (i, found) = self.position(key);
        if found {
            proof {
                self.lemma_lookup_at(i as int);
            }
            Some(&self.entries[i].1)
        } else {
            None
        }
    }

    /// The entries of the map, in the order of their keys.
    pub fn into_entries(self) -> (entries: Vec<(String, V)>)
        ensures
            self.wf(),
            entries@.len() == self.keys().len(),
            entries@.len() == self.values().len(),
            forall|i: int|
                0 <= i < entries@.len() ==> (#[trigger] entries@[i]).0@ == self.keys()[i]
                    && entries@[i].1 == self.values()[i],
    {
        proof {
            use_type_invariant(&self);
        }
        self.entries
    }

    /// Takes the entries out, leaving the map empty.
    fn take_entries(&mut self) -> (entries: Vec<(String, V)>)
        ensures
            entries == old(self).entries,
            final(self).entries@.len() == 0,
    {
        let mut entries: Vec<(String, V)> = Vec::new();
        core::mem::swap(&mut self.entries, &mut entries);
        entries
    }

    /// Puts `value` under `key`, in place of the value that stood there, which is
    /// returned.
    pub fn insert(&mut self, key: String, value: V) -> (old_value: Option<V>)
        ensures
            final(self).wf(),
            old_value == old(self).lookup(key@),
            final(self).map() == old(self).map().insert(key@, value),
            final(self).keys().len() == old(self).keys().len() + if old(self).has(key@) {
                0int
            } else {
                1
            },
            0 <= rank(old(self).keys(), key@) <= old(self).keys().len(),
            old(self).has(key@) ==> {
                &&& final(self).keys() == old(self).keys()
                &&& final(self).values() == old(self).values().update(
                    old(self).keys().index_of(key@),
                    value,
                )
            },
            !old(self).has(key@) ==> {
                &&& final(self).keys() == old(self).keys().insert(
                    rank(old(self).keys(), key@),
                    key@,
                )
                &&& final(self).values() == old(self).values().insert(
                    rank(old(self).keys(), key@),
                    value,
                )
            },
    {
        let (i, found) = self.position(key.as_str());
        let ghost before = *self;
        let ghost keys = self.keys();
        let mut entries = self.take_entries();
        if found {
            proof {
                before.lemma_lookup_at(i as int);
            }
            let old_entry = entries.remove(i);
            entries.insert(i, (key, value));
            proof {
                let after = StrMap { entries };
                assert(after.keys() =~= keys);
                assert(after.values() =~= before.values().update(i as int, value));
                assert forall|k: Seq<char>| after.has(k) implies #[trigger] after.map()[k] == (if k
                    == key@ {
                    value
                } else {
                    before.map()[k]
                }) by {
                    let a = keys.index_of(k);
                    if k == key@ {
                        lemma_increasing_distinct(keys, a, i as int);
                    }
                }
                assert(after.map() =~= before.map().insert(key@, value));
            }
            self.entries = entries;
            Some(old_entry.1)
        } else {
            entries.insert(i, (key, value));
            proof {
                let after = StrMap { entries };
                assert(after.keys() =~= keys.insert(i as int, key@));
                assert(after.values() =~= before.values().insert(i as int, value));
                assert forall|a: int, b: int| 0 <= a < b < after.keys().len() implies lex_lt(
                    #[trigger] after.keys()[a],
                    #[trigger] after.keys()[b],
                ) by {
                    if a < i && b > i {
                        assert(lex_lt(keys[a], keys[b - 1]));
                    } else if a > i {
                        assert(lex_lt(keys[a - 1], keys[b - 1]));
                    } else if b < i {
                        assert(lex_lt(keys[a], keys[b]));
                    } else if a == i {
                        assert(lex_lt(key@, keys[b - 1]));
                    } else {
                        assert(lex_lt(keys[a], key@));
                    }
                }
                let new_keys = after.keys();
                assert(new_keys[i as int] == key@);
                assert forall|k: Seq<char>| after.has(k) == (k == key@ || before.has(k)) by {
                    if after.has(k) {
                        let a = new_keys.index_of(k);
                        if a < i {
                            assert(keys[a] == k);
                        } else if a > i {
                            assert(keys[a - 1] == k);
                        }
                    }
                    if before.has(k) {
                        let a = keys.index_of(k);
                        if a < i {
                            assert(new_keys[a] == k);
                        } else {
                            assert(new_keys[a + 1] == k);
                        }
                    }
                }
                assert forall|k: Seq<char>| after.has(k) implies #[trigger] after.map()[k] == (if k
                    == key@ {
                    value
                } else {
                    before.map()[k]
                }) by {
                    let a = new_keys.index_of(k);
                    if k == key@ {
                        lemma_increasing_distinct(new_keys, a, i as int);
                    } else {
                        let b = keys.index_of(k);
                        let b1 = if b < i { b } else { b + 1 };
                        assert(new_keys[b1] == k);
                        lemma_increasing_distinct(new_keys, a, b1);
                    }
                }
                assert(after.map() =~= before.map().insert(key@, value));
            }
            self.entries = entries;
            None
        }
    }

    /// Takes `key` out of the map and returns the value that stood under it.
    pub fn remove(&mut self, key: &str) -> (old_value: Option<V>)
        ensures
            final(self).wf(),
            old_value == old(self).lookup(key@),
            final(self).map() == old(self).map().remove(key@),
            old(self).has(key@) ==> {
                &&& final(self).keys() == old(self).keys().remove(old(self).keys().index_of(key@))
                &&& final(self).values() == old(self).values().remove(
                    old(self).keys().index_of(key@),
                )
            },
            !old(self).has(key@) ==> {
                &&& final(self).keys() == old(self).keys()
                &&& final(self).values() == old(self).values()
            },
    {
        let (i, found) = self.position(key);
        if found {
            let ghost before = *self;
            let ghost keys = self.keys();
            proof {
                before.lemma_lookup_at(i as int);
            }
            let mut entries = self.take_entries();
            let old_entry = entries.remove(i);
            proof {
                let after = StrMap { entries };
                assert(after.keys() =~= keys.remove(i as int));
                assert(after.values() =~= before.values().remove(i as int));
                assert forall|a: int, b: int| 0 <= a < b < after.keys().len() implies lex_lt(
                    #[trigger] after.keys()[a],
                    #[trigger] after.keys()[b],
                ) by {
                    let a0 = if a < i { a } else { a + 1 };
                    let b0 = if b < i { b } else { b + 1 };
                    assert(lex_lt(keys[a0], keys[b0]));
                }
                let new_keys = after.keys();
                assert forall|k: Seq<char>| after.has(k) == (k != key@ && before.has(k)) by {
                    if after.has(k) {
                        let a = new_keys.index_of(k);
                        let a0 = if a < i { a } else { a + 1 };
                        assert(keys[a0] == k);
                        lemma_increasing_distinct(keys, a0, keys.index_of(k));
                        if k == key@ {
                            lemma_increasing_distinct(keys, a0, i as int);
                        }
                    }
                    if before.has(k) && k != key@ {
                        let b = keys.index_of(k);
                        let b1 = if b < i { b } else { b - 1 };
                        assert(new_keys[b1] == k);
                    }
                }
                assert forall|k: Seq<char>| after.has(k) implies #[trigger] after.map()[k]
                    == before.map()[k] by {
                    let a = new_keys.index_of(k);
                    let a0 = if a < i { a } else { a + 1 };
                    assert(keys[a0] == k);
                    lemma_increasing_distinct(keys, a0, keys.index_of(k));
                }
                assert(after.map() =~= before.map().remove(key@));
            }
            self.entries = entries;
            Some(old_entry.1)
        } else {
            assert(self.map() =~= self.map().remove(key@));
            None
        }
    }
}

/// A map of texts with each value as a sequence of characters.
pub open spec fn text_map(m: StrMap<String>) -> Map<Seq<char>, Seq<char>> {
    m.map().map_values(|v: String| v@)
}

} // verus!
