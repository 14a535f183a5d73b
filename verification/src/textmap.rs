//! Ordered maps and sets keyed by text, iterated in code-point order of their keys
//! (the order in which std's `BTreeMap<String, _>` walks its entries).
use vstd::prelude::*;
use crate::text::{chars_of};

verus! {

/// Strict lexicographic order on texts, comparing characters by code point.
pub open spec fn text_lt(a: Seq<char>, b: Seq<char>) -> bool
    decreases a.len(),
{
    if a.len() == 0 {
        b.len() > 0
    } else if b.len() == 0 {
        false
    } else if a[0] != b[0] {
        a[0] < b[0]
    } else {
        text_lt(a.drop_first(), b.drop_first())
    }
}

pub proof fn lemma_text_lt_irreflexive(a: Seq<char>)
    ensures
        !text_lt(a, a),
    decreases a.len(),
{
    if a.len() > 0 {
        lemma_text_lt_irreflexive(a.drop_first());
    }
}

pub proof fn lemma_text_lt_total(a: Seq<char>, b: Seq<char>)
    ensures
        a == b || text_lt(a, b) || text_lt(b, a),
        !(text_lt(a, b) && text_lt(b, a)),
    decreases a.len(),
{
    if a.len() > 0 && b.len() > 0 {
        if a[0] == b[0] {
            lemma_text_lt_total(a.drop_first(), b.drop_first());
            if a.drop_first() == b.drop_first() {
                assert(a =~= seq![a[0]] + a.drop_first());
                assert(b =~= seq![b[0]] + b.drop_first());
            }
        }
    } else if a.len() == 0 && b.len() == 0 {
        assert(a =~= b);
    }
}

pub proof fn lemma_text_lt_transitive(a: Seq<char>, b: Seq<char>, c: Seq<char>)
    requires
        text_lt(a, b),
        text_lt(b, c),
    ensures
        text_lt(a, c),
    decreases a.len(),
{
    if a.len() > 0 && b.len() > 0 && c.len() > 0 {
        if a[0] == b[0] && b[0] == c[0] {
            lemma_text_lt_transitive(a.drop_first(), b.drop_first(), c.drop_first());
        }
    }
}

/// Exec comparison: `a` sorts strictly before `b`.
pub fn text_less(a: &[char], b: &[char]) -> (r: bool)
    ensures
        r == text_lt(a@, b@),
{
    let mut i: usize = 0;
    proof {
        assert(a@.subrange(0, a@.len() as int) =~= a@);
        assert(b@.subrange(0, b@.len() as int) =~= b@);
    }
    while i < a.len() && i < b.len() && a[i] == b[i]
        invariant
            i <= a@.len(),
            i <= b@.len(),
            forall|j: int| 0 <= j < i ==> a@[j] == b@[j],
            text_lt(a@, b@) == text_lt(a@.subrange(i as int, a@.len() as int), b@.subrange(i as int, b@.len() as int)),
        decreases a@.len() - i,
    {
        proof {
            let x = a@.subrange(i as int, a@.len() as int);
            let y = b@.subrange(i as int, b@.len() as int);
            assert(x.drop_first() =~= a@.subrange(i + 1, a@.len() as int));
            assert(y.drop_first() =~= b@.subrange(i + 1, b@.len() as int));
        }
        i = i + 1;
    }
    proof {
        assert(a@.subrange(0, a@.len() as int) =~= a@);
        assert(b@.subrange(0, b@.len() as int) =~= b@);
    }
    if i == a.len() {
        i < b.len()
    } else if i == b.len() {
        false
    } else {
        proof {
            let x = a@.subrange(i as int, a@.len() as int);
            let y = b@.subrange(i as int, b@.len() as int);
            assert(x[0] == a@[i as int]);
            assert(y[0] == b@[i as int]);
        }
        a[i] < b[i]
    }
}

/// Whether `keys` is strictly increasing.
pub open spec fn strictly_sorted(keys: Seq<Seq<char>>) -> bool {
    forall|i: int, j: int| 0 <= i < j < keys.len() ==> text_lt(#[trigger] keys[i], #[trigger] keys[j])
}

/// A strictly increasing sequence of texts holds no text twice.
pub proof fn lemma_sorted_distinct(keys: Seq<Seq<char>>)
    requires
        strictly_sorted(keys),
    ensures
        keys.no_duplicates(),
{
    assert forall|i: int, j: int| 0 <= i < keys.len() && 0 <= j < keys.len() && i != j
        implies keys[i] != keys[j] by {
        if i < j {
            lemma_text_lt_irreflexive(keys[i]);
        } else {
            lemma_text_lt_irreflexive(keys[j]);
        }
    }
}

/// A map from text keys to values, kept in increasing key order.
#[derive(Debug)]
pub struct TextMap<V> {
    entries: Vec<(String, V)>,
}

impl<V> TextMap<V> {
    /// The keys, in iteration order.
    pub closed spec fn keys(&self) -> Seq<Seq<char>> {
        self.entries@.map_values(|e: (String, V)| e.0@)
    }

    /// The values, in iteration order.
    pub closed spec fn values(&self) -> Seq<V> {
        self.entries@.map_values(|e: (String, V)| e.1)
    }

    #[verifier::type_invariant]
    closed spec fn inv(&self) -> bool {
        strictly_sorted(self.keys())
    }

    /// The value stored under `k`, if any.
    pub open spec fn lookup(&self, k: Seq<char>) -> Option<V> {
        if self.keys().contains(k) {
            Some(self.values()[self.keys().index_of(k)])
        } else {
            None
        }
    }

    /// The map as a mathematical map.
    pub open spec fn as_map(&self) -> Map<Seq<char>, V> {
        Map::new(|k: Seq<char>| self.keys().contains(k), |k: Seq<char>| self.lookup(k)->0)
    }

    proof fn lemma_wf(&self)
        requires
            strictly_sorted(self.keys()),
        ensures
            self.keys().len() == self.values().len(),
            forall|i: int, j: int| 0 <= i < self.keys().len() && 0 <= j < self.keys().len() && i != j
                ==> self.keys()[i] != self.keys()[j],
    {
        assert forall|i: int, j: int| 0 <= i < self.keys().len() && 0 <= j < self.keys().len() && i != j
            implies self.keys()[i] != self.keys()[j] by {
            if i < j {
                lemma_text_lt_irreflexive(self.keys()[i]);
            } else {
                lemma_text_lt_irreflexive(self.keys()[j]);
            }
        }
    }

    /// The value at a position where key `k` is found.
    proof fn lemma_lookup_at(&self, i: int)
        requires
            strictly_sorted(self.keys()),
            0 <= i < self.keys().len(),
        ensures
            self.lookup(self.keys()[i]) == Some(self.values()[i]),
    {
        self.lemma_wf();
        let k = self.keys()[i];
        assert(self.keys().contains(k));
        let j = self.keys().index_of(k);
        assert(self.keys()[j] == k);
    }

    /// An empty map.
    pub fn new() -> (m: Self)
        ensures
            m.keys().len() == 0,
            m.values().len() == 0,
            forall|k: Seq<char>| m.lookup(k) is None,
    {
        let m = TextMap { entries: Vec::new() };
        proof {
            assert(m.keys() =~= Seq::<Seq<char>>::empty());
        }
        m
    }

    /// The number of entries.
    pub fn len(&self) -> (n: usize)
        ensures
            n == self.keys().len(),
            n == self.values().len(),
            strictly_sorted(self.keys()),
    {
        proof {
            use_type_invariant(self);
        }
        self.entries.len()
    }

    /// Whether the map has no entries.
    pub fn is_empty(&self) -> (b: bool)
        ensures
            b == (self.keys().len() == 0),
    {
        self.entries.len() == 0
    }

    /// The key of the `i`-th entry in iteration order.
    pub fn key_at(&self, i: usize) -> (k: &String)
        requires
            i < self.keys().len(),
        ensures
            k@ == self.keys()[i as int],
    {
        &self.entries[i].0
    }

    /// The value of the `i`-th entry in iteration order.
    pub fn value_at(&self, i: usize) -> (v: &V)
        requires
            i < self.keys().len(),
        ensures
            *v == self.values()[i as int],
    {
        &self.entries[i].1
    }

    /// The `i`-th entry in iteration order; it is the entry of its key.
    pub fn entry_at(&self, i: usize) -> (r: (&String, &V))
        requires
            i < self.keys().len(),
        ensures
            r.0@ == self.keys()[i as int],
            *r.1 == self.values()[i as int],
            self.lookup(self.keys()[i as int]) == Some(self.values()[i as int]),
    {
        proof {
            use_type_invariant(self);
            self.lemma_lookup_at(i as int);
        }
        (&self.entries[i].0, &self.entries[i].1)
    }

    /// The first position whose key does not sort before `k`, and whether that key is `k`.
    fn locate(&self, k: &[char]) -> (r: (usize, bool))
        ensures
            r.0 <= self.keys().len(),
            forall|j: int| 0 <= j < r.0 ==> text_lt(#[trigger] self.keys()[j], k@),
            r.0 < self.keys().len() ==> !text_lt(self.keys()[r.0 as int], k@),
            r.1 == (r.0 < self.keys().len() && self.keys()[r.0 as int] == k@),
            r.1 ==> self.lookup(k@) == Some(self.values()[r.0 as int]),
            !r.1 ==> self.lookup(k@) is None,
    {
        proof {
            use_type_invariant(self);
            self.lemma_wf();
        }
        let mut i: usize = 0;
        let n = self.entries.len();
        while i < n
            invariant
                n == self.keys().len(),
                i <= n,
                strictly_sorted(self.keys()),
                forall|j: int| 0 <= j < i ==> text_lt(#[trigger] self.keys()[j], k@),
            ensures
                i <= n,
                forall|j: int| 0 <= j < i ==> text_lt(#[trigger] self.keys()[j], k@),
                i < n ==> !text_lt(self.keys()[i as int], k@),
            decreases n - i,
        {
            let key = chars_of(self.entries[i].0.as_str());
            assert(key@ == self.keys()[i as int]);
            if !text_less(&key, k) {
                break;
            }
            i = i + 1;
        }
        let found = if i < n {
            let key = chars_of(self.entries[i].0.as_str());
            crate::text::chars_eq(&key, k)
        } else {
            false
        };
        proof {
            if found {
                self.lemma_lookup_at(i as int);
            } else {
                assert forall|j: int| 0 <= j < self.keys().len() implies self.keys()[j] != k@ by {
                    if j < i {
                        lemma_text_lt_irreflexive(k@);
                    } else if j > i {
                        assert(text_lt(self.keys()[i as int], self.keys()[j]));
                        lemma_text_lt_total(self.keys()[i as int], k@);
                        if self.keys()[j] == k@ {
                            lemma_text_lt_total(self.keys()[i as int], self.keys()[j]);
                        }
                    }
                }
            }
        }
        (i, found)
    }

    /// The value stored under `key`.
    pub fn get(&self, key: &str) -> (r: Option<&V>)
        ensures
            r matches Some(v) ==> self.lookup(key@) == Some(*v),
            r is None ==> self.lookup(key@) is None,
    {
        let k = chars_of(key);
        let (i, found) = self.locate(&k);
        if found {
            Some(&self.entries[i].1)
        } else {
            None
        }
    }

    /// The position of `key` in iteration order.
    pub fn position(&self, key: &str) -> (r: Option<usize>)
        ensures
            r matches Some(i) ==> i < self.keys().len() && self.keys()[i as int] == key@
                && self.lookup(key@) == Some(self.values()[i as int]),
            r is None ==> self.lookup(key@) is None && !self.keys().contains(key@),
    {
        let k = chars_of(key);
        let (i, found) = self.locate(&k);
        if found {
            Some(i)
        } else {
            None
        }
    }

    /// Whether `key` has an entry.
    pub fn contains_key(&self, key: &str) -> (b: bool)
        ensures
            b == self.lookup(key@) is Some,
            b == self.keys().contains(key@),
    {
        let k = chars_of(key);
        let (i, found) = self.locate(&k);
        found
    }

    /// Stores `value` under `key`, replacing a previous value.
    pub fn insert(&mut self, key: String, value: V)
        ensures
            final(self).lookup(key@) == Some(value),
            forall|k: Seq<char>| k != key@ ==> final(self).lookup(k) == old(self).lookup(k),
            final(self).keys().to_set() == old(self).keys().to_set().insert(key@),
    {
        proof {
            use_type_invariant(&*self);
            self.lemma_wf();
        }
        let ghost old_self = *self;
        let k = chars_of(key.as_str());
        let (i, found) = self.locate(&k);
        let ghost old_keys = self.keys();
        let ghost old_values = self.values();
        if found {
            let mut entries: Vec<(String, V)> = Vec::new();
            std::mem::swap(&mut entries, &mut self.entries);
            entries.remove(i);
            entries.insert(i, (key, value));
            proof {
                let nk = entries@.map_values(|e: (String, V)| e.0@);
                assert(nk =~= old_keys.update(i as int, k@));
            }
            self.entries = entries;
        } else {
            let mut entries: Vec<(String, V)> = Vec::new();
            std::mem::swap(&mut entries, &mut self.entries);
            entries.insert(i, (key, value));
            proof {
                let nk = entries@.map_values(|e: (String, V)| e.0@);
                assert(nk =~= old_keys.insert(i as int, k@));
                assert forall|a: int, b: int| 0 <= a < b < nk.len() implies text_lt(#[trigger] nk[a], #[trigger] nk[b]) by {
                    if b == i {
                    } else if a == i {
                        if i < old_keys.len() {
                            lemma_text_lt_total(old_keys[i as int], k@);
                            if b - 1 > i {
                                lemma_text_lt_transitive(k@, old_keys[i as int], old_keys[b - 1]);
                            }
                        }
                    } else if a < i && b > i {
                        if i < old_keys.len() {
                            lemma_text_lt_total(old_keys[i as int], k@);
                        }
                        lemma_text_lt_total(old_keys[i as int], k@);
                    }
                }
            }
            self.entries = entries;
        }
        proof {
            use_type_invariant(&*self);
            self.lemma_wf();
            let nk = self.keys();
            assert(nk.contains(key@)) by {
                assert(nk[i as int] == key@);
            }
            assert(self.lookup(key@) == Some(value)) by {
                self.lemma_lookup_at(i as int);
            }
            assert forall|q: Seq<char>| q != key@ implies self.lookup(q) == old_self.lookup(q) by {
                if old_keys.contains(q) {
                    let j = old_keys.index_of(q);
                    old_self.lemma_lookup_at(j);
                    if found {
                        assert(j != i);
                        assert(nk[j] == q);
                        self.lemma_lookup_at(j);
                    } else if j < i {
                        assert(nk[j] == q);
                        self.lemma_lookup_at(j);
                    } else {
                        assert(nk[j + 1] == q);
                        self.lemma_lookup_at(j + 1);
                    }
                }
                if nk.contains(q) {
                    let j = nk.index_of(q);
                    if found {
                        assert(old_keys[j] == q);
                    } else if j < i {
                        assert(old_keys[j] == q);
                    } else if j > i {
                        assert(old_keys[j - 1] == q);
                    }
                }
            }
            assert(nk.to_set() =~= old_keys.to_set().insert(key@)) by {
                assert forall|q: Seq<char>| nk.to_set().contains(q) <==> old_keys.to_set().insert(key@).contains(q) by {
                    if nk.contains(q) {
                        let j = nk.index_of(q);
                        if q != key@ {
                            if found {
                                assert(old_keys[j] == q);
                            } else if j < i {
                                assert(old_keys[j] == q);
                            } else {
                                assert(old_keys[j - 1] == q);
                            }
                        }
                    }
                    if old_keys.contains(q) {
                        let j = old_keys.index_of(q);
                        if found {
                            if j == i {
                                assert(nk[i as int] == key@);
                            } else {
                                assert(nk[j] == q);
                            }
                        } else if j < i {
                            assert(nk[j] == q);
                        } else {
                            assert(nk[j + 1] == q);
                        }
                    }
                }
            }
        }
    }

    /// Removes the entry for `key`, returning its value.
    pub fn remove(&mut self, key: &str) -> (r: Option<V>)
        ensures
            r == old(self).lookup(key@),
            final(self).lookup(key@) is None,
            forall|k: Seq<char>| k != key@ ==> final(self).lookup(k) == old(self).lookup(k),
            final(self).keys().to_set() == old(self).keys().to_set().remove(key@),
    {
        proof {
            use_type_invariant(&*self);
            self.lemma_wf();
        }
        let ghost old_self = *self;
        let ghost old_keys = self.keys();
        let k = chars_of(key);
        let (i, found) = self.locate(&k);
        if !found {
            proof {
                assert(old_keys.to_set().remove(key@) =~= old_keys.to_set());
            }
            return None;
        }
        let mut entries: Vec<(String, V)> = Vec::new();
        std::mem::swap(&mut entries, &mut self.entries);
        let (_, v) = entries.remove(i);
        proof {
            let nk = entries@.map_values(|e: (String, V)| e.0@);
            assert(nk =~= old_keys.remove(i as int));
            assert forall|a: int, b: int| 0 <= a < b < nk.len() implies text_lt(#[trigger] nk[a], #[trigger] nk[b]) by {
                if a < i && b >= i {
                    assert(nk[b] == old_keys[b + 1]);
                } else if a >= i {
                    assert(nk[a] == old_keys[a + 1]);
                }
            }
        }
        self.entries = entries;
        proof {
            use_type_invariant(&*self);
            self.lemma_wf();
            let nk = self.keys();
            assert(nk =~= old_keys.remove(i as int));
            assert(nk.to_set() =~= old_keys.to_set().remove(key@)) by {
                assert forall|q: Seq<char>| nk.to_set().contains(q) <==> old_keys.to_set().remove(key@).contains(q) by {
                    if nk.contains(q) {
                        let j = nk.index_of(q);
                        if j < i {
                            assert(old_keys[j] == q);
                        } else {
                            assert(old_keys[j + 1] == q);
                        }
                    }
                    if old_keys.contains(q) && q != key@ {
                        let j = old_keys.index_of(q);
                        if j < i {
                            assert(nk[j] == q);
                        } else {
                            assert(nk[j - 1] == q);
                        }
                    }
                }
            }
            assert forall|q: Seq<char>| q != key@ implies self.lookup(q) == old_self.lookup(q) by {
                if old_keys.contains(q) {
                    let j = old_keys.index_of(q);
                    old_self.lemma_lookup_at(j);
                    if j < i {
                        assert(nk[j] == q);
                        self.lemma_lookup_at(j);
                    } else {
                        assert(j != i);
                        assert(nk[j - 1] == q);
                        self.lemma_lookup_at(j - 1);
                    }
                }
                if nk.contains(q) {
                    let j = nk.index_of(q);
                    if j < i {
                        assert(old_keys[j] == q);
                    } else {
                        assert(old_keys[j + 1] == q);
                    }
                }
            }
            if nk.contains(key@) {
                let j = nk.index_of(key@);
                if j < i {
                    assert(old_keys[j] == key@);
                } else {
                    assert(old_keys[j + 1] == key@);
                }
            }
        }
        Some(v)
    }

    /// Replaces the value of the `i`-th entry.
    pub fn set_value(&mut self, i: usize, value: V)
        requires
            i < old(self).keys().len(),
        ensures
            final(self).keys() == old(self).keys(),
            final(self).values() == old(self).values().update(i as int, value),
            final(self).lookup(old(self).keys()[i as int]) == Some(value),
            forall|k: Seq<char>| k != old(self).keys()[i as int] ==> final(self).lookup(k) == old(self).lookup(k),
    {
        proof {
            use_type_invariant(&*self);
            self.lemma_wf();
        }
        let ghost old_self = *self;
        let ghost old_keys = self.keys();
        let mut entries: Vec<(String, V)> = Vec::new();
        std::mem::swap(&mut entries, &mut self.entries);
        let (key, _) = entries.remove(i);
        entries.insert(i, (key, value));
        proof {
            let nk = entries@.map_values(|e: (String, V)| e.0@);
            assert(nk =~= old_keys);
        }
        self.entries = entries;
        proof {
            assert(self.keys() =~= old_keys);
            assert(self.values() =~= old_self.values().update(i as int, value));
            self.lemma_lookup_at(i as int);
            assert forall|q: Seq<char>| q != old_keys[i as int] implies self.lookup(q) == old_self.lookup(q) by {
                if old_keys.contains(q) {
                    let j = old_keys.index_of(q);
                    old_self.lemma_lookup_at(j);
                    self.lemma_lookup_at(j);
                }
            }
        }
    }
}

impl<V: Clone> Clone for TextMap<V> {
    /// A copy with the same keys; each value is a clone of the value it copies.
    fn clone(&self) -> (r: Self)
        ensures
            r.keys() == self.keys(),
            r.values().len() == self.values().len(),
            forall|i: int| 0 <= i < self.values().len() ==> cloned(self.values()[i], #[trigger] r.values()[i]),
    {
        proof {
            use_type_invariant(self);
        }
        let mut entries: Vec<(String, V)> = Vec::new();
        let mut i: usize = 0;
        while i < self.entries.len()
            invariant
                i <= self.entries@.len(),
                strictly_sorted(self.keys()),
                entries@.len() == i,
                forall|j: int| 0 <= j < i ==> (#[trigger] entries@[j]).0@ == self.entries@[j].0@,
                forall|j: int| 0 <= j < i ==> cloned(self.entries@[j].1, #[trigger] entries@[j].1),
            decreases self.entries@.len() - i,
        {
            let k = self.entries[i].0.clone();
            let v = self.entries[i].1.clone();
            entries.push((k, v));
            i = i + 1;
        }
        proof {
            assert(entries@.map_values(|e: (String, V)| e.0@) =~= self.keys());
        }
        let r = TextMap { entries };
        proof {
            assert(r.keys() =~= self.keys());
        }
        r
    }
}

/// A set of texts, iterated in code-point order.
#[derive(Debug)]
pub struct TextSet {
    map: TextMap<()>,
}

impl TextSet {
    /// The members, in iteration order.
    pub closed spec fn items(&self) -> Seq<Seq<char>> {
        self.map.keys()
    }

    /// The members as a mathematical set.
    pub open spec fn as_set(&self) -> Set<Seq<char>> {
        self.items().to_set()
    }

    /// An empty set.
    pub fn new() -> (s: Self)
        ensures
            s.items().len() == 0,
            s.as_set() == Set::<Seq<char>>::empty(),
    {
        let s = TextSet { map: TextMap::new() };
        proof {
            assert(s.as_set() =~= Set::<Seq<char>>::empty());
        }
        s
    }

    /// Adds `item`.
    pub fn insert(&mut self, item: String)
        ensures
            final(self).as_set() == old(self).as_set().insert(item@),
    {
        self.map.insert(item, ());
    }

    /// Whether `item` is a member.
    pub fn contains(&self, item: &str) -> (b: bool)
        ensures
            b == self.as_set().contains(item@),
    {
        self.map.contains_key(item)
    }

    /// Removes `item`.
    pub fn remove(&mut self, item: &str)
        ensures
            final(self).as_set() == old(self).as_set().remove(item@),
    {
        self.map.remove(item);
    }

    /// The number of members; the members are iterated in strictly increasing
    /// code-point order, so none occurs twice.
    pub fn len(&self) -> (n: usize)
        ensures
            n == self.items().len(),
            strictly_sorted(self.items()),
            self.items().no_duplicates(),
    {
        let n = self.map.len();
        proof {
            lemma_sorted_distinct(self.map.keys());
        }
        n
    }

    /// Whether the set is empty.
    pub fn is_empty(&self) -> (b: bool)
        ensures
            b == (self.items().len() == 0),
    {
        self.map.is_empty()
    }

    /// The `i`-th member in iteration order.
    pub fn item_at(&self, i: usize) -> (t: &String)
        requires
            i < self.items().len(),
        ensures
            t@ == self.items()[i as int],
    {
        self.map.key_at(i)
    }
}

impl Clone for TextSet {
    fn clone(&self) -> (r: Self)
        ensures
            r.items() == self.items(),
    {
        TextSet { map: self.map.clone() }
    }
}

} // verus!
