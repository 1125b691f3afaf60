//! A map keyed by strings, held as a vector of distinct keys.

use vstd::prelude::*;
use crate::text::str_eq;

verus! {

/// Entries keyed by strings; no key occurs twice.
pub struct StrMap<V> {
    entries: Vec<(String, V)>,
}

impl<V: DeepView> View for StrMap<V> {
    type V = Map<Seq<char>, V::V>;

    closed spec fn view(&self) -> Map<Seq<char>, V::V> {
        Map::new(
            |k: Seq<char>| exists|i: int| 0 <= i < self.entries.len() && #[trigger] self.entries@[i].0@ == k,
            |k: Seq<char>| self.entries@[choose|i: int| 0 <= i < self.entries.len() && #[trigger] self.entries@[i].0@ == k].1.deep_view(),
        )
    }
}

impl<V> StrMap<V> {
    #[verifier::type_invariant]
    closed spec fn keys_unique(&self) -> bool {
        forall|i: int, j: int|
            0 <= i < self.entries.len() && 0 <= j < self.entries.len() && i != j
                ==> #[trigger] self.entries@[i].0@ != #[trigger] self.entries@[j].0@
    }
}

impl<V: DeepView> StrMap<V> {
    proof fn lemma_entry(&self, i: int)
        requires
            self.keys_unique(),
            0 <= i < self.entries.len(),
        ensures
            self@.contains_key(self.entries@[i].0@),
            self@[self.entries@[i].0@] == self.entries@[i].1.deep_view(),
    {
        let k = self.entries@[i].0@;
        assert(self.entries@[i].0@ == k);
        let j = choose|j: int| 0 <= j < self.entries.len() && #[trigger] self.entries@[j].0@ == k;
        assert(j == i);
    }

    /// An empty map.
    pub fn new() -> (r: Self)
        ensures
            r@ == Map::<Seq<char>, V::V>::empty(),
    {
        let r = StrMap { entries: Vec::new() };
        assert(r@ =~= Map::<Seq<char>, V::V>::empty());
        r
    }

    /// Number of keys.
    pub fn len(&self) -> (r: usize)
        ensures
            r == self@.len(),
            self@.dom().finite(),
    {
        proof {
            use_type_invariant(self);
            self.lemma_len();
        }
        self.entries.len()
    }

    proof fn lemma_len(&self)
        requires
            self.keys_unique(),
        ensures
            self@.len() == self.entries.len(),
            self@.dom().finite(),
        decreases self.entries.len(),
    {
        let keys = Seq::new(self.entries.len() as nat, |i: int| self.entries@[i].0@);
        assert forall|i: int, j: int| 0 <= i < keys.len() && 0 <= j < keys.len() && i != j implies keys[i] != keys[j] by {}
        assert(keys.no_duplicates());
        keys.unique_seq_to_set();
        vstd::seq_lib::seq_to_set_is_finite(keys);
        assert(self@.dom() =~= keys.to_set()) by {
            assert forall|k: Seq<char>| self@.dom().contains(k) implies keys.to_set().contains(k) by {
                let i = choose|i: int| 0 <= i < self.entries.len() && #[trigger] self.entries@[i].0@ == k;
                assert(keys[i] == k);
            }
            assert forall|k: Seq<char>| keys.to_set().contains(k) implies self@.dom().contains(k) by {
                let i = choose|i: int| 0 <= i < keys.len() && keys[i] == k;
                assert(self.entries@[i].0@ == k);
            }
        }
    }

    fn find(&self, k: &str) -> (r: Option<usize>)
        ensures
            match r {
                Some(i) => i < self.entries.len() && self.entries@[i as int].0@ == k@,
                None => !self@.contains_key(k@),
            },
    {
        let mut i: usize = 0;
        while i < self.entries.len()
            invariant
                i <= self.entries.len(),
                forall|j: int| 0 <= j < i ==> self.entries@[j].0@ != k@,
            decreases self.entries.len() - i,
        {
            if str_eq(self.entries[i].0.as_str(), k) {
                return Some(i);
            }
            i += 1;
        }
        None
    }

    /// Whether `k` is a key.
    pub fn contains_key(&self, k: &str) -> (r: bool)
        ensures
            r == self@.contains_key(k@),
    {
        proof {
            use_type_invariant(self);
        }
        match self.find(k) {
            Some(i) => {
                proof {
                    self.lemma_entry(i as int);
                }
                true
            },
            None => false,
        }
    }

    /// The value under `k`, if any.
    pub fn get(&self, k: &str) -> (r: Option<&V>)
        ensures
            match r {
                Some(v) => self@.contains_key(k@) && v.deep_view() == self@[k@],
                None => !self@.contains_key(k@),
            },
    {
        proof {
            use_type_invariant(self);
        }
        match self.find(k) {
            Some(i) => {
                proof {
                    self.lemma_entry(i as int);
                }
                Some(&self.entries[i].1)
            },
            None => None,
        }
    }

    fn take(&mut self) -> (r: Vec<(String, V)>)
        ensures
            r == old(self).entries,
            forall|i: int, j: int|
                0 <= i < r.len() && 0 <= j < r.len() && i != j
                    ==> #[trigger] r@[i].0@ != #[trigger] r@[j].0@,
    {
        let mut tmp = StrMap { entries: Vec::new() };
        std::mem::swap(self, &mut tmp);
        proof {
            use_type_invariant(&tmp);
        }
        let StrMap { entries } = tmp;
        entries
    }

    /// Takes the value under `k` out of the map.
    pub fn remove(&mut self, k: &str) -> (r: Option<V>)
        ensures
            final(self)@ == old(self)@.remove(k@),
            match r {
                Some(v) => old(self)@.contains_key(k@) && v.deep_view() == old(self)@[k@],
                None => !old(self)@.contains_key(k@),
            },
    {
        proof {
            use_type_invariant(&*self);
        }
        match self.find(k) {
            Some(i) => {
                let ghost before = *self;
                proof {
                    before.lemma_entry(i as int);
                }
                let mut entries = self.take();
                let (_, v) = entries.swap_remove(i);
                let ghost n = before.entries.len();
                proof {
                    assert forall|a: int, b: int|
                        0 <= a < entries.len() && 0 <= b < entries.len() && a != b
                            implies #[trigger] entries@[a].0@ != #[trigger] entries@[b].0@ by {
                        let ia = if a == i { n - 1 } else { a };
                        let ib = if b == i { n - 1 } else { b };
                        assert(entries@[a] == before.entries@[ia]);
                        assert(entries@[b] == before.entries@[ib]);
                    }
                }
                *self = StrMap { entries };
                proof {
                    assert forall|kk: Seq<char>| #[trigger] self@.contains_key(kk) == before@.remove(k@).contains_key(kk) by {
                        if self@.contains_key(kk) {
                            let a = choose|a: int| 0 <= a < self.entries.len() && #[trigger] self.entries@[a].0@ == kk;
                            let ia = if a == i { n - 1 } else { a };
                            assert(self.entries@[a] == before.entries@[ia]);
                            assert(ia != i);
                        }
                        if before@.remove(k@).contains_key(kk) {
                            let a = choose|a: int| 0 <= a < n && #[trigger] before.entries@[a].0@ == kk;
                            assert(a != i);
                            let ta = if a == n - 1 { i as int } else { a };
                            assert(self.entries@[ta] == before.entries@[a]);
                        }
                    }
                    assert forall|kk: Seq<char>| #[trigger] self@.contains_key(kk) implies self@[kk] == before@[kk] by {
                        let a = choose|a: int| 0 <= a < self.entries.len() && #[trigger] self.entries@[a].0@ == kk;
                        let ia = if a == i { n - 1 } else { a };
                        assert(self.entries@[a] == before.entries@[ia]);
                        self.lemma_entry(a);
                        before.lemma_entry(ia);
                    }
                    assert(self@ =~= before@.remove(k@));
                }
                Some(v)
            },
            None => {
                assert(self@ =~= old(self)@.remove(k@));
                None
            },
        }
    }

    /// Sets the value under `k`, and hands back the value it replaced.
    pub fn insert(&mut self, k: String, v: V) -> (r: Option<V>)
        ensures
            final(self)@ == old(self)@.insert(k@, v.deep_view()),
            match r {
                Some(o) => old(self)@.contains_key(k@) && o.deep_view() == old(self)@[k@],
                None => !old(self)@.contains_key(k@),
            },
    {
        let r = self.remove(k.as_str());
        proof {
            use_type_invariant(&*self);
        }
        let ghost before = *self;
        let ghost kv = k@;
        let ghost vv = v.deep_view();
        let mut entries = self.take();
        entries.push((k, v));
        let ghost n = before.entries.len();
        proof {
            assert(!before@.contains_key(kv));
            assert forall|a: int, b: int|
                0 <= a < entries.len() && 0 <= b < entries.len() && a != b
                    implies #[trigger] entries@[a].0@ != #[trigger] entries@[b].0@ by {
                if a == n {
                    assert(before.entries@[b].0@ == entries@[b].0@);
                    if before.entries@[b].0@ == kv {
                        before.lemma_entry(b);
                    }
                } else if b == n {
                    assert(before.entries@[a].0@ == entries@[a].0@);
                    if before.entries@[a].0@ == kv {
                        before.lemma_entry(a);
                    }
                } else {
                    assert(entries@[a] == before.entries@[a]);
                    assert(entries@[b] == before.entries@[b]);
                }
            }
        }
        *self = StrMap { entries };
        proof {
            assert forall|kk: Seq<char>| #[trigger] self@.contains_key(kk) == before@.insert(kv, vv).contains_key(kk) by {
                if self@.contains_key(kk) {
                    let a = choose|a: int| 0 <= a < self.entries.len() && #[trigger] self.entries@[a].0@ == kk;
                    if a < n {
                        assert(self.entries@[a] == before.entries@[a]);
                        before.lemma_entry(a);
                    }
                }
                if before@.contains_key(kk) {
                    let a = choose|a: int| 0 <= a < n && #[trigger] before.entries@[a].0@ == kk;
                    assert(self.entries@[a] == before.entries@[a]);
                }
                if kk == kv {
                    assert(self.entries@[n as int].0@ == kk);
                }
            }
            assert forall|kk: Seq<char>| #[trigger] self@.contains_key(kk) implies self@[kk] == before@.insert(kv, vv)[kk] by {
                let a = choose|a: int| 0 <= a < self.entries.len() && #[trigger] self.entries@[a].0@ == kk;
                self.lemma_entry(a);
                if a < n {
                    assert(self.entries@[a] == before.entries@[a]);
                    before.lemma_entry(a);
                }
            }
            assert(self@ =~= old(self)@.insert(kv, vv));
        }
        r
    }

    /// Removes every key.
    pub fn clear(&mut self)
        ensures
            final(self)@ == Map::<Seq<char>, V::V>::empty(),
    {
        *self = StrMap { entries: Vec::new() };
        assert(self@ =~= Map::<Seq<char>, V::V>::empty());
    }
}

} // verus!

verus! {

impl<V: Clone> Clone for StrMap<V> {
    /// Copies every entry; the keys stay as they are.
    fn clone(&self) -> (r: Self) {
        proof {
            use_type_invariant(self);
        }
        let mut entries: Vec<(String, V)> = Vec::new();
        let mut i: usize = 0;
        while i < self.entries.len()
            invariant
                i <= self.entries.len(),
                entries.len() == i,
                forall|j: int| 0 <= j < i ==> #[trigger] entries@[j].0@ == self.entries@[j].0@,
                self.keys_unique(),
            decreases self.entries.len() - i,
        {
            let k = self.entries[i].0.clone();
            let v = self.entries[i].1.clone();
            entries.push((k, v));
            i += 1;
        }
        StrMap { entries }
    }
}

impl<V: DeepView> DeepView for StrMap<V> {
    type V = Map<Seq<char>, V::V>;

    open spec fn deep_view(&self) -> Map<Seq<char>, V::V> {
        self@
    }
}

} // verus!

verus! {

/// Values that can be copied with their view kept.
pub trait Duplicate: Sized + DeepView {
    fn duplicate(&self) -> (r: Self)
        ensures
            r.deep_view() == self.deep_view(),
    ;
}

impl Duplicate for String {
    fn duplicate(&self) -> (r: Self) {
        self.clone()
    }
}

impl Duplicate for Option<String> {
    fn duplicate(&self) -> (r: Self) {
        match self {
            Some(s) => Some(s.clone()),
            None => None,
        }
    }
}

impl<V: Duplicate> Duplicate for StrMap<V> {
    fn duplicate(&self) -> (r: Self) {
        proof {
            use_type_invariant(self);
        }
        let mut entries: Vec<(String, V)> = Vec::new();
        let mut i: usize = 0;
        while i < self.entries.len()
            invariant
                i <= self.entries.len(),
                entries.len() == i,
                self.keys_unique(),
                forall|j: int| 0 <= j < i ==> #[trigger] entries@[j].0@ == self.entries@[j].0@
                    && entries@[j].1.deep_view() == self.entries@[j].1.deep_view(),
            decreases self.entries.len() - i,
        {
            let k = self.entries[i].0.clone();
            let v = self.entries[i].1.duplicate();
            entries.push((k, v));
            i += 1;
        }
        let r = StrMap { entries };
        proof {
            assert forall|k: Seq<char>| #[trigger] r@.contains_key(k) == self@.contains_key(k) by {
                if r@.contains_key(k) {
                    let j = choose|j: int| 0 <= j < r.entries.len() && #[trigger] r.entries@[j].0@ == k;
                    assert(self.entries@[j].0@ == k);
                }
                if self@.contains_key(k) {
                    let j = choose|j: int| 0 <= j < self.entries.len() && #[trigger] self.entries@[j].0@ == k;
                    assert(r.entries@[j].0@ == k);
                }
            }
            assert forall|k: Seq<char>| #[trigger] r@.contains_key(k) implies r@[k] == self@[k] by {
                let j = choose|j: int| 0 <= j < r.entries.len() && #[trigger] r.entries@[j].0@ == k;
                r.lemma_entry(j);
                self.lemma_entry(j);
            }
            assert(r@ =~= self@);
        }
        r
    }
}

} // verus!
