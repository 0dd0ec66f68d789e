//! A map of type identity to erased value.
//!
//! The map holds at most one value per distinct storable type, keyed by
//! the type's identity token. It is backed by a plain vector of
//! key-value entries, so its internal structure and iteration order are
//! deterministic across runs; the expected number of distinct registered
//! types is small, so the linear scans cost nothing in practice.

use vstd::prelude::*;

use crate::value::Storable;
use crate::value::Value;

verus! {

/// Whether some entry of `s` carries the key `k`.
pub open spec fn seq_has_key(s: Seq<(u64, Value)>, k: u64) -> bool {
    exists|i: int| 0 <= i < s.len() && s[i].0 == k
}

/// The index of the entry of `s` that carries the key `k`.
pub open spec fn seq_index_of(s: Seq<(u64, Value)>, k: u64) -> int {
    choose|i: int| 0 <= i < s.len() && s[i].0 == k
}

/// The value that `s` holds under the key `k`.
pub open spec fn seq_value_of(s: Seq<(u64, Value)>, k: u64) -> Value {
    s[seq_index_of(s, k)].1
}

/// The value of the type `T` that the model map `m` stores, if any:
/// the erased value filed under `T`'s token, downcast back to `T`.
pub open spec fn stored_in<T: Storable>(m: Map<u64, Value>) -> Option<T> {
    if m.contains_key(T::key_spec()) {
        T::of_value_spec(m[T::key_spec()])
    } else {
        None
    }
}

/// A registry holding at most one erased value per distinct type,
/// keyed by the type's identity token.
pub struct TypeMap {
    entries: Vec<(u64, Value)>,
}

impl View for TypeMap {
    type V = Map<u64, Value>;

    closed spec fn view(&self) -> Map<u64, Value> {
        Map::new(
            |k: u64| seq_has_key(self.entries@, k),
            |k: u64| seq_value_of(self.entries@, k),
        )
    }
}

impl Default for TypeMap {
    /// Creates an empty map, as [`TypeMap::new`] does.
    fn default() -> (m: TypeMap)
        ensures
            m@ == Map::<u64, Value>::empty(),
            m.wf(),
    {
        TypeMap::new()
    }
}

impl TypeMap {
    /// Each key appears in at most one entry, and every entry's value
    /// carries the type token it is filed under. Every operation of the
    /// map preserves this shape, so a lookup can never hand back a value
    /// of the wrong type.
    pub closed spec fn wf(self) -> bool {
        &&& forall|i: int, j: int|
            0 <= i < self.entries@.len() && 0 <= j < self.entries@.len() && (
            #[trigger] self.entries@[i]).0 == (#[trigger] self.entries@[j]).0 ==> i == j
        &&& forall|i: int|
            0 <= i < self.entries@.len() ==> (#[trigger] self.entries@[i]).1.key_spec()
                == self.entries@[i].0
    }

    /// The value stored for the type `T`, if any: the erased value filed
    /// under `T`'s token, downcast back to `T`.
    pub open spec fn stored<T: Storable>(self) -> Option<T> {
        stored_in::<T>(self@)
    }

    /// Creates an empty map.
    pub fn new() -> (m: TypeMap)
        ensures
            m@ == Map::<u64, Value>::empty(),
            m.wf(),
    {
        let m = TypeMap { entries: Vec::new() };
        proof {
            assert(m@ =~= Map::<u64, Value>::empty());
        }
        m
    }

    /// Returns the position of the entry filed under `k`, if any.
    fn find(&self, k: u64) -> (r: Option<usize>)
        requires
            self.wf(),
        ensures
            match r {
                Some(i) => i < self.entries@.len() && self.entries@[i as int].0 == k
                    && self@.contains_key(k) && seq_index_of(self.entries@, k) == i,
                None => !self@.contains_key(k),
            },
    {
        let n = self.entries.len();
        let mut i: usize = 0;
        while i < n
            invariant
                self.wf(),
                n == self.entries@.len(),
                i <= n,
                forall|j: int| 0 <= j < i ==> self.entries@[j].0 != k,
            decreases n - i,
        {
            if self.entries[i].0 == k {
                proof {
                    assert(seq_has_key(self.entries@, k));
                    let w = seq_index_of(self.entries@, k);
                    assert(0 <= w < self.entries@.len() && self.entries@[w].0 == k);
                    assert(self.entries@[i as int].0 == k);
                    assert(w == i);
                }
                return Some(i);
            }
            i = i + 1;
        }
        proof {
            assert(!seq_has_key(self.entries@, k));
        }
        None
    }

    /// Stores `v`, keyed by its type. A value of the same type already
    /// present is replaced: the map keeps the last value written per
    /// type, and values of other types are untouched.
    pub fn insert<T: Storable>(&mut self, v: T)
        requires
            old(self).wf(),
        ensures
            final(self)@ == old(self)@.insert(T::key_spec(), v.to_value_spec()),
            final(self).wf(),
    {
        let k = T::key();
        proof {
            T::lemma_round_trip(v);
        }
        let w = v.to_value();
        let found = self.find(k);
        match found {
            Some(i) => {
                self.entries[i] = (k, w);
                proof {
                    let s = old(self).entries@;
                    let s2 = self.entries@;
                    assert forall|p: int| 0 <= p < s2.len() implies (#[trigger] s2[p]).0
                        == s[p].0 by {}
                    assert(self.wf());
                    assert forall|k2: u64|
                        self@.contains_key(k2) == old(self)@.insert(k, w).contains_key(k2) by {
                        if seq_has_key(s2, k2) {
                            let j = seq_index_of(s2, k2);
                            assert(s[j].0 == k2);
                        }
                        if k2 != k && seq_has_key(s, k2) {
                            let j = seq_index_of(s, k2);
                            assert(s2[j].0 == k2);
                        }
                        assert(s2[i as int].0 == k);
                    }
                    assert forall|k2: u64| self@.contains_key(k2) implies self@[k2] == old(
                        self,
                    )@.insert(k, w)[k2] by {
                        let j = seq_index_of(s2, k2);
                        assert(0 <= j < s2.len() && s2[j].0 == k2);
                        if k2 == k {
                            assert(s2[j].0 == s2[i as int].0);
                            assert(j == i);
                        } else {
                            let j0 = seq_index_of(s, k2);
                            assert(0 <= j0 < s.len() && s[j0].0 == k2);
                            assert(s2[j0].0 == k2);
                            assert(j0 == j);
                        }
                    }
                    assert(self@ =~= old(self)@.insert(k, w));
                }
            },
            None => {
                self.entries.push((k, w));
                proof {
                    let s = old(self).entries@;
                    let s2 = self.entries@;
                    let n = s.len() as int;
                    assert(!seq_has_key(s, k));
                    assert forall|p: int| 0 <= p < n implies (#[trigger] s2[p]) == s[p] by {}
                    assert forall|p: int, q: int|
                        0 <= p < s2.len() && 0 <= q < s2.len() && (#[trigger] s2[p]).0 == (
                        #[trigger] s2[q]).0 implies p == q by {
                        if p < n && q == n {
                            assert(seq_has_key(s, s[p].0));
                        }
                        if q < n && p == n {
                            assert(seq_has_key(s, s[q].0));
                        }
                    }
                    assert(self.wf());
                    assert forall|k2: u64|
                        self@.contains_key(k2) == old(self)@.insert(k, w).contains_key(k2) by {
                        if seq_has_key(s2, k2) && k2 != k {
                            let j = seq_index_of(s2, k2);
                            assert(0 <= j < s2.len() && s2[j].0 == k2);
                            assert(j != n);
                            assert(s[j].0 == k2);
                        }
                        if seq_has_key(s, k2) {
                            let j = seq_index_of(s, k2);
                            assert(s2[j].0 == k2);
                        }
                        assert(s2[n].0 == k);
                    }
                    assert forall|k2: u64| self@.contains_key(k2) implies self@[k2] == old(
                        self,
                    )@.insert(k, w)[k2] by {
                        let j = seq_index_of(s2, k2);
                        assert(0 <= j < s2.len() && s2[j].0 == k2);
                        if k2 == k {
                            assert(s2[j].0 == s2[n].0);
                            assert(j == n);
                        } else {
                            assert(j != n);
                            let j0 = seq_index_of(s, k2);
                            assert(0 <= j0 < s.len() && s[j0].0 == k2);
                            assert(s2[j0].0 == k2);
                            assert(j0 == j);
                        }
                    }
                    assert(self@ =~= old(self)@.insert(k, w));
                }
            },
        }
    }

    /// Whether a value of the type `T` is present.
    pub fn contains<T: Storable>(&self) -> (r: bool)
        requires
            self.wf(),
        ensures
            r == self@.contains_key(T::key_spec()),
    {
        let k = T::key();
        self.find(k).is_some()
    }

    /// Returns a reference to the value stored for the type `T`, or
    /// nothing if no value of that type is present.
    pub fn get<T: Storable>(&self) -> (r: Option<&T>)
        requires
            self.wf(),
        ensures
            match r {
                Some(x) => self.stored::<T>() == Some(*x),
                None => self.stored::<T>() is None,
            },
            r is Some <==> self@.contains_key(T::key_spec()),
    {
        let k = T::key();
        match self.find(k) {
            Some(i) => {
                let r = T::of_value_ref(&self.entries[i].1);
                proof {
                    assert(self@[k] == self.entries@[i as int].1);
                    T::lemma_of_value(self.entries@[i as int].1);
                }
                r
            },
            None => None,
        }
    }
    /// Returns an exclusive reference to the value stored for the type
    /// `T`, or nothing if no value of that type is present. The final
    /// state of the map holds, under `T`'s token, whatever value the
    /// caller leaves behind the reference.
    pub fn get_mut<T: Storable>(&mut self) -> (r: Option<&mut T>)
        requires
            old(self).wf(),
        ensures
            match r {
                Some(x) => {
                    &&& old(self).stored::<T>() == Some(*x)
                    &&& final(self)@ == old(self)@.insert(T::key_spec(), final(x).to_value_spec())
                    &&& final(self).wf()
                },
                None => {
                    &&& old(self).stored::<T>() is None
                    &&& *final(self) == *old(self)
                    &&& final(self).wf()
                },
            },
            r is Some <==> old(self)@.contains_key(T::key_spec()),
    {
        let k = T::key();
        let found = self.find(k);
        match found {
            Some(i) => {
                proof {
                    let s = self.entries@;
                    assert(self@[k] == s[i as int].1);
                    T::lemma_of_value(s[i as int].1);
                    assert forall|y: T| (#[trigger] y.to_value_spec()).key_spec()
                        == T::key_spec() by {
                        T::lemma_round_trip(y);
                    }
                    assert forall|w: Value| w.key_spec() == k implies {
                        let s2 = s.update(i as int, (k, w));
                        let m2 = Map::new(
                            |k2: u64| seq_has_key(s2, k2),
                            |k2: u64| seq_value_of(s2, k2),
                        );
                        &&& m2 == self@.insert(k, w)
                        &&& (forall|p: int, q: int|
                            0 <= p < s2.len() && 0 <= q < s2.len() && (#[trigger] s2[p]).0 == (
                            #[trigger] s2[q]).0 ==> p == q)
                        &&& (forall|p: int|
                            0 <= p < s2.len() ==> (#[trigger] s2[p]).1.key_spec() == s2[p].0)
                    } by {
                        let s2 = s.update(i as int, (k, w));
                        let m2 = Map::new(
                            |k2: u64| seq_has_key(s2, k2),
                            |k2: u64| seq_value_of(s2, k2),
                        );
                        assert forall|p: int| 0 <= p < s2.len() implies (#[trigger] s2[p]).0
                            == s[p].0 by {}
                        assert forall|k2: u64| m2.contains_key(k2) == self@.insert(
                            k,
                            w,
                        ).contains_key(k2) by {
                            if seq_has_key(s2, k2) {
                                let j = seq_index_of(s2, k2);
                                assert(s[j].0 == k2);
                            }
                            if k2 != k && seq_has_key(s, k2) {
                                let j = seq_index_of(s, k2);
                                assert(s2[j].0 == k2);
                            }
                            assert(s2[i as int].0 == k);
                        }
                        assert forall|k2: u64| m2.contains_key(k2) implies m2[k2] == self@.insert(
                            k,
                            w,
                        )[k2] by {
                            let j = seq_index_of(s2, k2);
                            assert(0 <= j < s2.len() && s2[j].0 == k2);
                            if k2 == k {
                                assert(s2[j].0 == s2[i as int].0);
                                assert(j == i);
                            } else {
                                let j0 = seq_index_of(s, k2);
                                assert(0 <= j0 < s.len() && s[j0].0 == k2);
                                assert(s2[j0].0 == k2);
                                assert(j0 == j);
                            }
                        }
                        assert(m2 =~= self@.insert(k, w));
                    }
                }
                T::of_value_mut(&mut self.entries[i].1)
            },
            None => None,
        }
    }

    /// Deletes the value stored for the type `T` and returns it, or
    /// returns nothing and leaves the map unchanged if no value of that
    /// type is present.
    pub fn remove<T: Storable>(&mut self) -> (r: Option<T>)
        requires
            old(self).wf(),
        ensures
            final(self)@ == old(self)@.remove(T::key_spec()),
            final(self).wf(),
            r == old(self).stored::<T>(),
    {
        let k = T::key();
        let found = self.find(k);
        match found {
            Some(i) => {
                let e = self.entries.remove(i);
                proof {
                    let s = old(self).entries@;
                    let s2 = self.entries@;
                    let n = s.len() as int;
                    assert forall|p: int| 0 <= p < s2.len() implies #[trigger] s2[p] == (
                    if p < i { s[p] } else { s[p + 1] }) by {}
                    assert forall|p: int, q: int|
                        0 <= p < s2.len() && 0 <= q < s2.len() && (#[trigger] s2[p]).0 == (
                        #[trigger] s2[q]).0 implies p == q by {
                        let p0: int = if p < i { p } else { p + 1 };
                        let q0: int = if q < i { q } else { q + 1 };
                        assert(s[p0] == s2[p] && s[q0] == s2[q]);
                    }
                    assert(self.wf());
                    assert forall|k2: u64|
                        self@.contains_key(k2) == old(self)@.remove(k).contains_key(k2) by {
                        if seq_has_key(s2, k2) {
                            let j = seq_index_of(s2, k2);
                            let j0: int = if j < i { j } else { j + 1 };
                            assert(s[j0].0 == k2);
                            assert(j0 != i);
                        }
                        if k2 != k && seq_has_key(s, k2) {
                            let j0 = seq_index_of(s, k2);
                            assert(0 <= j0 < s.len() && s[j0].0 == k2);
                            assert(j0 != i);
                            let j: int = if j0 < i { j0 } else { j0 - 1 };
                            assert(s2[j].0 == k2);
                        }
                    }
                    assert forall|k2: u64| self@.contains_key(k2) implies self@[k2] == old(
                        self,
                    )@.remove(k)[k2] by {
                        let j = seq_index_of(s2, k2);
                        assert(0 <= j < s2.len() && s2[j].0 == k2);
                        let j0: int = if j < i { j } else { j + 1 };
                        assert(s[j0] == s2[j]);
                        let w0 = seq_index_of(s, k2);
                        assert(0 <= w0 < s.len() && s[w0].0 == k2);
                        assert(w0 == j0);
                    }
                    assert(self@ =~= old(self)@.remove(k));
                    assert(seq_index_of(s, k) == i);
                    assert(old(self)@[k] == s[i as int].1);
                    T::lemma_of_value(s[i as int].1);
                }
                T::of_value(e.1)
            },
            None => {
                proof {
                    assert(self@ =~= old(self)@.remove(k));
                }
                None
            },
        }
    }

    /// Removes every stored value.
    pub fn clear(&mut self)
        ensures
            final(self)@ == Map::<u64, Value>::empty(),
            final(self).wf(),
    {
        self.entries.clear();
        proof {
            assert(self@ =~= Map::<u64, Value>::empty());
        }
    }
}

} // verus!
