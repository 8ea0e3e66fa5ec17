//! A small map for keys that are compared by what they say, not by where they
//! live: each key occurs once, and the contracts speak of a `Map` from the
//! keys' views to the values.

use vstd::prelude::*;

verus! {

/// A key of an [`AssocMap`]: two keys are the same key when their views are equal.
pub trait Key: View + Sized {
    fn same(&self, other: &Self) -> (r: bool)
        ensures
            r == (self@ == other@),
    ;
}

impl Key for String {
    fn same(&self, other: &Self) -> (r: bool) {
        *self == *other
    }
}

impl<A: Key, B: Key> Key for (A, B) {
    fn same(&self, other: &Self) -> (r: bool) {
        self.0.same(&other.0) && self.1.same(&other.1)
    }
}

/// The views of the keys of `s`, in the order of `s`.
pub open spec fn key_views<K: Key, V>(s: Seq<(K, V)>) -> Seq<K::V> {
    s.map_values(|e: (K, V)| e.0@)
}

/// Whether some entry of `s` has the key `k`.
pub open spec fn has_key<K: Key, V>(s: Seq<(K, V)>, k: K::V) -> bool {
    exists|i: int| 0 <= i < s.len() && (#[trigger] s[i]).0@ == k
}

/// An index of `s` at which the key `k` stands.
pub open spec fn index_of<K: Key, V>(s: Seq<(K, V)>, k: K::V) -> int {
    choose|i: int| 0 <= i < s.len() && (#[trigger] s[i]).0@ == k
}

/// The map that the entries `s` stand for.
pub open spec fn entries_map<K: Key, V>(s: Seq<(K, V)>) -> Map<K::V, V> {
    Map::new(|k: K::V| has_key(s, k), |k: K::V| s[index_of(s, k)].1)
}

/// Where no key occurs twice, each entry is found under its key.
pub proof fn lemma_entry_found<K: Key, V>(s: Seq<(K, V)>, j: int)
    requires
        key_views(s).no_duplicates(),
        0 <= j < s.len(),
    ensures
        entries_map(s).contains_key(s[j].0@),
        entries_map(s)[s[j].0@] == s[j].1,
        index_of(s, s[j].0@) == j,
{
    let k = s[j].0@;
    assert(has_key(s, k));
    let i = index_of(s, k);
    assert(key_views(s)[i] == key_views(s)[j]);
}

/// The keys of the map are the keys of the entries, and there are finitely many.
pub proof fn lemma_entries_dom<K: Key, V>(s: Seq<(K, V)>)
    ensures
        entries_map(s).dom() =~= key_views(s).to_set(),
        entries_map(s).dom().finite(),
        key_views(s).no_duplicates() ==> entries_map(s).len() == s.len(),
{
    let keys = key_views(s);
    assert forall|k: K::V| entries_map(s).dom().contains(k) <==> keys.to_set().contains(k) by {
        if has_key(s, k) {
            let i = index_of(s, k);
            assert(keys[i] == k);
        }
        if keys.contains(k) {
            let i = choose|i: int| 0 <= i < keys.len() && keys[i] == k;
            assert(s[i].0@ == k);
        }
    }
    assert(entries_map(s).dom() =~= keys.to_set());
    vstd::seq_lib::seq_to_set_is_finite(keys);
    if keys.no_duplicates() {
        keys.unique_seq_to_set();
    }
}

/// A finite map in which each key occurs once. Its view is the `Map` from the
/// views of the keys to the values.
#[derive(Debug)]
pub struct AssocMap<K: Key, V> {
    entries: Vec<(K, V)>,
}

impl<K: Key, V> View for AssocMap<K, V> {
    type V = Map<K::V, V>;

    closed spec fn view(&self) -> Map<K::V, V> {
        entries_map(self.entries@)
    }
}

impl<K: Key, V> AssocMap<K, V> {
    #[verifier::type_invariant]
    spec fn unique_keys(self) -> bool {
        key_views(self.entries@).no_duplicates()
    }

    /// The views of the keys in the order in which the map holds them.
    pub closed spec fn keys(&self) -> Seq<K::V> {
        key_views(self.entries@)
    }

    /// The map's domain is finite and is made of the listed keys.
    pub proof fn lemma_keys(&self)
        ensures
            self@.dom().finite(),
            self@.dom() =~= self.keys().to_set(),
    {
        lemma_entries_dom(self.entries@);
    }

    pub fn new() -> (m: Self)
        ensures
            m@ == Map::<K::V, V>::empty(),
            m.keys() == Seq::<K::V>::empty(),
    {
        let m = AssocMap { entries: Vec::new() };
        assert(m@ =~= Map::<K::V, V>::empty());
        assert(m.keys() =~= Seq::<K::V>::empty());
        m
    }

    /// The number of keys.
    pub fn len(&self) -> (n: usize)
        ensures
            n == self@.len(),
            n == self.keys().len(),
            self.keys().no_duplicates(),
            self@.dom() == self.keys().to_set(),
    {
        proof {
            use_type_invariant(self);
            lemma_entries_dom(self.entries@);
        }
        self.entries.len()
    }

    pub fn is_empty(&self) -> (r: bool)
        ensures
            r == (self@.len() == 0),
            r == (self@ == Map::<K::V, V>::empty()),
    {
        proof {
            use_type_invariant(self);
            lemma_entries_dom(self.entries@);
            if self.entries@.len() == 0 {
                assert(self@ =~= Map::<K::V, V>::empty());
            }
        }
        self.entries.len() == 0
    }

    /// The position of the key `k` among the entries, if it is there.
    fn position(&self, k: &K) -> (r: Option<usize>)
        ensures
            match r {
                Some(i) => i < self.entries@.len() && self.entries@[i as int].0@ == k@,
                None => !has_key(self.entries@, k@),
            },
    {
        let mut i: usize = 0;
        while i < self.entries.len()
            invariant
                i <= self.entries@.len(),
                forall|j: int| 0 <= j < i ==> (#[trigger] self.entries@[j]).0@ != k@,
            decreases self.entries@.len() - i,
        {
            if self.entries[i].0.same(k) {
                return Some(i);
            }
            i = i + 1;
        }
        None
    }

    pub fn contains_key(&self, k: &K) -> (r: bool)
        ensures
            r == self@.contains_key(k@),
    {
        self.position(k).is_some()
    }

    pub fn get(&self, k: &K) -> (r: Option<&V>)
        ensures
            match r {
                Some(v) => self@.contains_key(k@) && *v == self@[k@],
                None => !self@.contains_key(k@),
            },
    {
        match self.position(k) {
            Some(i) => {
                proof {
                    use_type_invariant(self);
                    lemma_entry_found(self.entries@, i as int);
                }
                Some(&self.entries[i].1)
            },
            None => None,
        }
    }

    /// The key at position `i`.
    pub fn key_at(&self, i: usize) -> (r: &K)
        requires
            i < self.keys().len(),
        ensures
            r@ == self.keys()[i as int],
            self@.contains_key(r@),
    {
        proof {
            use_type_invariant(self);
            lemma_entry_found(self.entries@, i as int);
        }
        &self.entries[i].0
    }

    /// The value under the key at position `i`.
    pub fn value_at(&self, i: usize) -> (r: &V)
        requires
            i < self.keys().len(),
        ensures
            self@.contains_key(self.keys()[i as int]),
            *r == self@[self.keys()[i as int]],
    {
        proof {
            use_type_invariant(self);
            lemma_entry_found(self.entries@, i as int);
        }
        &self.entries[i].1
    }

    /// Puts `v` under the key `k` and hands back what stood there before.
    pub fn insert(&mut self, k: K, v: V) -> (r: Option<V>)
        ensures
            final(self)@ == old(self)@.insert(k@, v),
            r == if old(self)@.contains_key(k@) {
                Some(old(self)@[k@])
            } else {
                None
            },
            !old(self)@.contains_key(k@) ==> final(self).keys() == old(self).keys().push(k@),
            old(self)@.contains_key(k@) ==> final(self).keys() == old(self).keys(),
    {
        proof {
            use_type_invariant(&*self);
        }
        let found = self.position(&k);
        let mut entries: Vec<(K, V)> = Vec::new();
        core::mem::swap(&mut entries, &mut self.entries);
        let ghost before = entries@;
        let r = match found {
            Some(i) => {
                let old_entry = entries.remove(i);
                entries.insert(i, (k, v));
                proof {
                    lemma_entry_found(before, i as int);
                    assert(key_views(entries@) =~= key_views(before));
                    lemma_map_after_update(before, entries@, i as int);
                }
                Some(old_entry.1)
            },
            None => {
                entries.push((k, v));
                proof {
                    lemma_map_after_push(before, (k, v));
                    assert(key_views(entries@) =~= key_views(before).push(k@));
                }
                None
            },
        };
        self.entries = entries;
        r
    }

    /// Takes the key `k` out and hands back what stood under it.
    pub fn remove(&mut self, k: &K) -> (r: Option<V>)
        ensures
            final(self)@ == old(self)@.remove(k@),
            r == if old(self)@.contains_key(k@) {
                Some(old(self)@[k@])
            } else {
                None
            },
    {
        proof {
            use_type_invariant(&*self);
        }
        let found = self.position(k);
        match found {
            Some(i) => {
                let mut entries: Vec<(K, V)> = Vec::new();
                core::mem::swap(&mut entries, &mut self.entries);
                let ghost before = entries@;
                let old_entry = entries.remove(i);
                proof {
                    lemma_entry_found(before, i as int);
                    lemma_map_after_remove(before, i as int);
                }
                self.entries = entries;
                Some(old_entry.1)
            },
            None => {
                assert(self@ =~= old(self)@.remove(k@));
                None
            },
        }
    }

    /// The keys of the map, each once, the last one first.
    pub fn into_keys(self) -> (r: Vec<K>)
        ensures
            r@.map_values(|k: K| k@) == self.keys().reverse(),
            r@.map_values(|k: K| k@).no_duplicates(),
            r@.map_values(|k: K| k@).to_set() == self@.dom(),
            r@.len() == self@.len(),
    {
        proof {
            use_type_invariant(&self);
            lemma_entries_dom(self.entries@);
        }
        let ghost all = self.entries@;
        let mut entries = self.entries;
        let mut keys: Vec<K> = Vec::new();
        while entries.len() > 0
            invariant
                entries@.len() + keys@.len() == all.len(),
                forall|j: int| 0 <= j < entries@.len() ==> entries@[j] == all[j],
                forall|j: int|
                    0 <= j < keys@.len() ==> (#[trigger] keys@[j])@ == all[all.len() - 1 - j].0@,
            decreases entries@.len(),
        {
            let entry = entries.pop();
            match entry {
                Some(e) => {
                    keys.push(e.0);
                },
                None => {},
            }
        }
        proof {
            let out = keys@.map_values(|k: K| k@);
            let ks = key_views(all);
            assert forall|i: int, j: int| 0 <= i < j < out.len() implies out[i] != out[j] by {
                assert(out[i] == ks[all.len() - 1 - i]);
                assert(out[j] == ks[all.len() - 1 - j]);
            }
            assert forall|x: K::V| out.to_set().contains(x) <==> ks.to_set().contains(x) by {
                if out.contains(x) {
                    let i = choose|i: int| 0 <= i < out.len() && out[i] == x;
                    assert(ks[all.len() - 1 - i] == x);
                }
                if ks.contains(x) {
                    let i = choose|i: int| 0 <= i < ks.len() && ks[i] == x;
                    assert(out[all.len() - 1 - i] == x);
                }
            }
            assert(out.to_set() =~= ks.to_set());
            assert(out =~= ks.reverse());
        }
        keys
    }
}

/// Adding an entry with a new key adds that key to the map.
pub proof fn lemma_map_after_push<K: Key, V>(s: Seq<(K, V)>, e: (K, V))
    requires
        key_views(s).no_duplicates(),
        !has_key(s, e.0@),
    ensures
        key_views(s.push(e)).no_duplicates(),
        entries_map(s.push(e)) == entries_map(s).insert(e.0@, e.1),
{
    let t = s.push(e);
    assert forall|i: int, j: int| 0 <= i < j < t.len() implies key_views(t)[i] != key_views(
        t,
    )[j] by {
        assert(key_views(t)[i] == s[i].0@);
        if j < s.len() {
            assert(key_views(s)[i] != key_views(s)[j]);
        }
    }
    assert forall|k: K::V| #[trigger] entries_map(t).contains_key(k) <==> entries_map(s).insert(
        e.0@,
        e.1,
    ).contains_key(k) by {
        if has_key(t, k) {
            let i = index_of(t, k);
            if i < s.len() {
                assert(s[i].0@ == k);
            }
        }
        if has_key(s, k) {
            let i = index_of(s, k);
            assert(t[i].0@ == k);
        }
        if k == e.0@ {
            assert(t[s.len() as int].0@ == k);
        }
    }
    assert forall|k: K::V| #[trigger] entries_map(t).contains_key(k) implies entries_map(t)[k]
        == entries_map(s).insert(e.0@, e.1)[k] by {
        let i = index_of(t, k);
        lemma_entry_found(t, i);
        if i < s.len() {
            assert(t[i] == s[i]);
            lemma_entry_found(s, i);
        }
    }
    assert(entries_map(t) =~= entries_map(s).insert(e.0@, e.1));
}

/// Changing the value of the entry at `i` changes the map under that key only.
pub proof fn lemma_map_after_update<K: Key, V>(s: Seq<(K, V)>, t: Seq<(K, V)>, i: int)
    requires
        key_views(s).no_duplicates(),
        0 <= i < s.len(),
        t.len() == s.len(),
        t[i].0@ == s[i].0@,
        forall|j: int| 0 <= j < s.len() && j != i ==> t[j] == s[j],
    ensures
        key_views(t) == key_views(s),
        entries_map(t) == entries_map(s).insert(s[i].0@, t[i].1),
{
    assert(key_views(t) =~= key_views(s));
    assert forall|k: K::V| #[trigger] entries_map(t).contains_key(k) <==> entries_map(s).insert(
        s[i].0@,
        t[i].1,
    ).contains_key(k) by {
        if has_key(t, k) {
            let j = index_of(t, k);
            assert(s[j].0@ == k);
        }
        if has_key(s, k) {
            let j = index_of(s, k);
            assert(t[j].0@ == k);
        }
        if k == s[i].0@ {
            assert(t[i].0@ == k);
        }
    }
    assert forall|k: K::V| #[trigger] entries_map(t).contains_key(k) implies entries_map(t)[k]
        == entries_map(s).insert(s[i].0@, t[i].1)[k] by {
        let j = index_of(t, k);
        lemma_entry_found(t, j);
        lemma_entry_found(s, j);
        if j != i {
            assert(t[j] == s[j]);
            assert(key_views(s)[j] != key_views(s)[i]);
        }
    }
    assert(entries_map(t) =~= entries_map(s).insert(s[i].0@, t[i].1));
}

/// Taking the entry at `i` out takes its key out of the map.
pub proof fn lemma_map_after_remove<K: Key, V>(s: Seq<(K, V)>, i: int)
    requires
        key_views(s).no_duplicates(),
        0 <= i < s.len(),
    ensures
        key_views(s.remove(i)).no_duplicates(),
        entries_map(s.remove(i)) == entries_map(s).remove(s[i].0@),
{
    let t = s.remove(i);
    assert forall|a: int, b: int| 0 <= a < b < t.len() implies key_views(t)[a] != key_views(
        t,
    )[b] by {
        let a2 = if a < i { a } else { a + 1 };
        let b2 = if b < i { b } else { b + 1 };
        assert(key_views(t)[a] == key_views(s)[a2]);
        assert(key_views(t)[b] == key_views(s)[b2]);
    }
    assert forall|k: K::V| #[trigger] entries_map(t).contains_key(k) <==> entries_map(s).remove(
        s[i].0@,
    ).contains_key(k) by {
        if has_key(t, k) {
            let j = index_of(t, k);
            let j2 = if j < i { j } else { j + 1 };
            assert(s[j2].0@ == k);
            assert(key_views(s)[j2] == k);
            assert(key_views(s)[i] == s[i].0@);
        }
        if has_key(s, k) && k != s[i].0@ {
            let j = index_of(s, k);
            let j2 = if j < i { j } else { j - 1 };
            assert(t[j2].0@ == k);
        }
    }
    assert forall|k: K::V| #[trigger] entries_map(t).contains_key(k) implies entries_map(t)[k]
        == entries_map(s).remove(s[i].0@)[k] by {
        let j = index_of(t, k);
        let j2 = if j < i { j } else { j + 1 };
        lemma_entry_found(t, j);
        assert(t[j] == s[j2]);
        lemma_entry_found(s, j2);
    }
    assert(entries_map(t) =~= entries_map(s).remove(s[i].0@));
}

} // verus!
