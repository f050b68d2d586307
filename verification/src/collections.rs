//! A small map kept as a vector of entries with distinct keys, in insertion
//! order. Keys are compared by their views.
use vstd::prelude::*;
use crate::primitives::primitives::{hash_eq, network_id_eq, Blake2bHash, NetworkId};

verus! {

/// Keys that can be compared by value.
pub trait KeyView: View + Sized {
    fn key_eq(&self, other: &Self) -> (r: bool)
        ensures
            r == (self@ == other@),
    ;
}

impl KeyView for Blake2bHash {
    fn key_eq(&self, other: &Self) -> (r: bool) {
        hash_eq(self, other)
    }
}

impl KeyView for (Blake2bHash, Blake2bHash) {
    fn key_eq(&self, other: &Self) -> (r: bool) {
        hash_eq(&self.0, &other.0) && hash_eq(&self.1, &other.1)
    }
}

impl KeyView for NetworkId {
    fn key_eq(&self, other: &Self) -> (r: bool) {
        network_id_eq(self, other)
    }
}

impl KeyView for (NetworkId, NetworkId) {
    fn key_eq(&self, other: &Self) -> (r: bool) {
        network_id_eq(&self.0, &other.0) && network_id_eq(&self.1, &other.1)
    }
}

impl KeyView for String {
    fn key_eq(&self, other: &Self) -> (r: bool) {
        *self == *other
    }
}

/// Views of the keys of a sequence of entries.
pub open spec fn keys_of<K: View, V>(s: Seq<(K, V)>) -> Seq<K::V> {
    s.map_values(|e: (K, V)| e.0@)
}

/// Index of the entry whose key has view `k`.
pub open spec fn index_in<K: View, V>(s: Seq<(K, V)>, k: K::V) -> int {
    choose|i: int| 0 <= i < s.len() && s[i].0@ == k
}

/// Entries after binding `k` to `v`: the entry of `k` replaced in its place,
/// or a new entry at the end.
pub open spec fn inserted_seq<K: View, V>(s: Seq<(K, V)>, k: K, v: V) -> Seq<(K, V)> {
    if keys_of(s).contains(k@) {
        s.update(index_in(s, k@), (k, v))
    } else {
        s.push((k, v))
    }
}

/// The map that a sequence of entries with distinct keys stands for.
pub open spec fn map_of<K: View, V>(s: Seq<(K, V)>) -> Map<K::V, V> {
    Map::new(|k: K::V| keys_of(s).contains(k), |k: K::V| s[index_in(s, k)].1)
}

proof fn lemma_index<K: View, V>(s: Seq<(K, V)>, i: int)
    requires
        keys_of(s).no_duplicates(),
        0 <= i < s.len(),
    ensures
        map_of(s).contains_key(s[i].0@),
        map_of(s)[s[i].0@] == s[i].1,
        index_in(s, s[i].0@) == i,
{
    let k = s[i].0@;
    assert(keys_of(s)[i] == k);
    let j = index_in(s, k);
    assert(keys_of(s)[j] == k);
}

proof fn lemma_entries<K: View, V>(s: Seq<(K, V)>)
    requires
        keys_of(s).no_duplicates(),
    ensures
        forall|i: int|
            0 <= i < s.len() ==> #[trigger] map_of(s).contains_key(s[i].0@) && map_of(s)[s[i].0@]
                == s[i].1,
        forall|k: K::V|
            map_of(s).contains_key(k) ==> exists|i: int| 0 <= i < s.len() && #[trigger] s[i].0@ == k,
{
    assert forall|i: int| 0 <= i < s.len() implies #[trigger] map_of(s).contains_key(s[i].0@)
        && map_of(s)[s[i].0@] == s[i].1 by {
        lemma_index(s, i);
    }
    assert forall|k: K::V| map_of(s).contains_key(k) implies exists|i: int|
        0 <= i < s.len() && #[trigger] s[i].0@ == k by {
        let i = choose|i: int| 0 <= i < keys_of(s).len() && keys_of(s)[i] == k;
        assert(s[i].0@ == k);
    }
}

/// Map from keys to values, held as entries with distinct keys.
#[derive(Debug)]
pub struct VecMap<K: KeyView, V> {
    entries: Vec<(K, V)>,
}

impl<K: KeyView, V> VecMap<K, V> {
    /// Keys are distinct.
    #[verifier::type_invariant]
    closed spec fn wf(&self) -> bool {
        keys_of(self.entries@).no_duplicates()
    }

    /// The entries, in insertion order.
    pub closed spec fn entry_seq(&self) -> Seq<(K, V)> {
        self.entries@
    }

    pub open spec fn view(&self) -> Map<K::V, V> {
        map_of(self.entry_seq())
    }

    pub fn new() -> (m: Self)
        ensures
            m@ == Map::<K::V, V>::empty(),
            m.entry_seq().len() == 0,
    {
        let m = VecMap { entries: Vec::new() };
        assert(m@ =~= Map::<K::V, V>::empty());
        m
    }

    fn find(&self, k: &K) -> (r: Option<usize>)
        ensures
            match r {
                Some(i) => i < self.entries@.len() && self.entries@[i as int].0@ == k@,
                None => !keys_of(self.entries@).contains(k@),
            },
    {
        let mut i: usize = 0;
        while i < self.entries.len()
            invariant
                0 <= i <= self.entries@.len(),
                forall|j: int| 0 <= j < i ==> self.entries@[j].0@ != k@,
            decreases self.entries@.len() - i,
        {
            if self.entries[i].0.key_eq(k) {
                return Some(i);
            }
            i = i + 1;
        }
        proof {
            if keys_of(self.entries@).contains(k@) {
                let j = choose|j: int| 0 <= j < keys_of(self.entries@).len() && keys_of(self.entries@)[j] == k@;
                assert(self.entries@[j].0@ == k@);
            }
        }
        None
    }

    pub fn contains_key(&self, k: &K) -> (r: bool)
        ensures
            r == self@.contains_key(k@),
    {
        proof {
            use_type_invariant(self);
        }
        match self.find(k) {
            Some(i) => {
                proof {
                    lemma_index(self.entries@, i as int);
                }
                true
            },
            None => false,
        }
    }

    pub fn get(&self, k: &K) -> (r: Option<&V>)
        ensures
            match r {
                Some(v) => self@.contains_key(k@) && *v == self@[k@],
                None => !self@.contains_key(k@),
            },
    {
        proof {
            use_type_invariant(self);
        }
        match self.find(k) {
            Some(i) => {
                proof {
                    lemma_index(self.entries@, i as int);
                }
                Some(&self.entries[i].1)
            },
            None => None,
        }
    }

    /// Number of keys.
    pub fn len(&self) -> (n: usize)
        ensures
            n == self@.dom().len(),
            n == self.entry_seq().len(),
    {
        proof {
            use_type_invariant(self);
            assert(self@.dom() =~= keys_of(self.entries@).to_set());
            keys_of(self.entries@).unique_seq_to_set();
        }
        self.entries.len()
    }

    /// Binds `k` to `v`, replacing an earlier value of `k` in its place.
    pub fn insert(&mut self, k: K, v: V)
        ensures
            final(self)@ == old(self)@.insert(k@, v),
            old(self)@.contains_key(k@) ==> exists|i: int|
                0 <= i < old(self).entry_seq().len() && old(self).entry_seq()[i].0@ == k@ && old(self).entry_seq()[i].1
                    == old(self)@[k@] && final(self).entry_seq() == old(self).entry_seq().update(i, (k, v)),
            !old(self)@.contains_key(k@) ==> final(self).entry_seq() == old(self).entry_seq().push((k, v)),
            final(self).entry_seq() == inserted_seq(old(self).entry_seq(), k, v),
    {
        proof {
            use_type_invariant(&*self);
        }
        let ghost old_s = self.entries@;
        let ghost kv = k@;
        let pos = self.find(&k);
        let mut entries: Vec<(K, V)> = Vec::new();
        std::mem::swap(&mut entries, &mut self.entries);
        match pos {
            Some(i) => {
                entries.set(i, (k, v));
                proof {
                    let s = entries@;
                    assert(keys_of(s) =~= keys_of(old_s).update(i as int, kv));
                    assert(keys_of(s) =~= keys_of(old_s));
                    assert(keys_of(old_s)[i as int] == kv);
                    assert forall|kk: K::V| #[trigger] map_of(s).contains_key(kk) == map_of(old_s).insert(kv, v).contains_key(kk) by {
                    }
                    assert forall|kk: K::V| map_of(s).contains_key(kk) implies #[trigger] map_of(s)[kk] == map_of(old_s).insert(kv, v)[kk] by {
                        let j = choose|j: int| 0 <= j < keys_of(s).len() && keys_of(s)[j] == kk;
                        lemma_index(s, j);
                        if kk != kv {
                            assert(j != i);
                            assert(s[j] == old_s[j]);
                            lemma_index(old_s, j);
                        } else {
                            lemma_index(s, i as int);
                        }
                    }
                    assert(map_of(s) =~= map_of(old_s).insert(kv, v));
                    lemma_index(old_s, i as int);
                }
            },
            None => {
                entries.push((k, v));
                proof {
                    let s = entries@;
                    assert(keys_of(s) =~= keys_of(old_s).push(kv));
                    assert forall|a: int, b: int| 0 <= a < b < keys_of(s).len() implies keys_of(s)[a] != keys_of(s)[b] by {
                        assert(keys_of(old_s)[a] == keys_of(s)[a]);
                        if b < keys_of(s).len() - 1 {
                            assert(keys_of(old_s)[b] == keys_of(s)[b]);
                        }
                    }
                    assert forall|kk: K::V| #[trigger] map_of(s).contains_key(kk) == map_of(old_s).insert(kv, v).contains_key(kk) by {
                        if kk != kv && keys_of(s).contains(kk) {
                            let j = choose|j: int| 0 <= j < keys_of(s).len() && keys_of(s)[j] == kk;
                            assert(keys_of(old_s)[j] == kk);
                        }
                        if keys_of(old_s).contains(kk) {
                            let j = choose|j: int| 0 <= j < keys_of(old_s).len() && keys_of(old_s)[j] == kk;
                            assert(keys_of(s)[j] == kk);
                        }
                        if kk == kv {
                            assert(keys_of(s)[keys_of(s).len() - 1] == kv);
                        }
                    }
                    assert forall|kk: K::V| map_of(s).contains_key(kk) implies #[trigger] map_of(s)[kk] == map_of(old_s).insert(kv, v)[kk] by {
                        let j = choose|j: int| 0 <= j < keys_of(s).len() && keys_of(s)[j] == kk;
                        lemma_index(s, j);
                        if kk != kv {
                            lemma_index(old_s, j);
                        }
                    }
                    assert(map_of(s) =~= map_of(old_s).insert(kv, v));
                }
            },
        }
        self.entries = entries;
    }

    /// Unbinds `k`, returning its value if it had one.
    pub fn remove(&mut self, k: &K) -> (r: Option<V>)
        ensures
            final(self)@ == old(self)@.remove(k@),
            match r {
                Some(v) => old(self)@.contains_key(k@) && v == old(self)@[k@],
                None => !old(self)@.contains_key(k@),
            },
            r is Some ==> exists|i: int|
                0 <= i < old(self).entry_seq().len() && old(self).entry_seq()[i].0@ == k@ && old(self).entry_seq()[i].1
                    == old(self)@[k@] && final(self).entry_seq() == old(self).entry_seq().remove(i),
            r is None ==> final(self).entry_seq() == old(self).entry_seq(),
    {
        proof {
            use_type_invariant(&*self);
        }
        let ghost old_s = self.entries@;
        match self.find(k) {
            Some(i) => {
                proof {
                    lemma_index(old_s, i as int);
                }
                let mut entries: Vec<(K, V)> = Vec::new();
                std::mem::swap(&mut entries, &mut self.entries);
                let e = entries.remove(i);
                proof {
                    let s = entries@;
                    assert(keys_of(s) =~= keys_of(old_s).remove(i as int));
                    assert forall|a: int, b: int| 0 <= a < b < keys_of(s).len() implies keys_of(s)[a] != keys_of(s)[b] by {
                        let a2 = if a < i { a } else { a + 1 };
                        let b2 = if b < i { b } else { b + 1 };
                        assert(keys_of(s)[a] == keys_of(old_s)[a2]);
                        assert(keys_of(s)[b] == keys_of(old_s)[b2]);
                    }
                    assert forall|kk: K::V| #[trigger] map_of(s).contains_key(kk) == map_of(old_s).remove(k@).contains_key(kk) by {
                        if keys_of(s).contains(kk) {
                            let j = choose|j: int| 0 <= j < keys_of(s).len() && keys_of(s)[j] == kk;
                            let j2 = if j < i { j } else { j + 1 };
                            assert(keys_of(old_s)[j2] == kk);
                            assert(keys_of(old_s)[i as int] == k@);
                        }
                        if keys_of(old_s).contains(kk) && kk != k@ {
                            let j = choose|j: int| 0 <= j < keys_of(old_s).len() && keys_of(old_s)[j] == kk;
                            assert(j != i);
                            let j2 = if j < i { j } else { j - 1 };
                            assert(keys_of(s)[j2] == kk);
                        }
                    }
                    assert forall|kk: K::V| map_of(s).contains_key(kk) implies #[trigger] map_of(s)[kk] == map_of(old_s).remove(k@)[kk] by {
                        let j = choose|j: int| 0 <= j < keys_of(s).len() && keys_of(s)[j] == kk;
                        lemma_index(s, j);
                        let j2 = if j < i { j } else { j + 1 };
                        assert(old_s[j2] == s[j]);
                        lemma_index(old_s, j2);
                    }
                    assert(map_of(s) =~= map_of(old_s).remove(k@));
                }
                self.entries = entries;
                Some(e.1)
            },
            None => {
                proof {
                    assert(map_of(old_s) =~= map_of(old_s).remove(k@));
                }
                None
            },
        }
    }

    /// The entries, in insertion order; each key once.
    pub fn entries(&self) -> (r: &Vec<(K, V)>)
        ensures
            r@ == self.entry_seq(),
            keys_of(r@).no_duplicates(),
            forall|i: int|
                0 <= i < r@.len() ==> #[trigger] self@.contains_key(r@[i].0@) && self@[r@[i].0@]
                    == r@[i].1,
            forall|k: K::V|
                self@.contains_key(k) ==> exists|i: int| 0 <= i < r@.len() && #[trigger] r@[i].0@ == k,
    {
        proof {
            use_type_invariant(self);
            lemma_entries(self.entries@);
        }
        &self.entries
    }
}

} // verus!
