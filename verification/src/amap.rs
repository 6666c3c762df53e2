//! A small association map used for every keyed collection of the core:
//! registry entities keyed by host id, and profile state keyed by
//! [`crate::ids::LogicalId`].
//!
//! The map is a vector of key/value entries with pairwise-distinct keys;
//! its mathematical view is a `Map<K, V>`.

use vstd::prelude::*;

verus! {

/// Keys of an [`AssocMap`]: copyable values with a decidable equality
/// that agrees with the mathematical one.
pub trait MapKey: Sized + Copy {
    /// Executable equality test.
    fn key_eq(&self, other: &Self) -> (r: bool)
        ensures
            r == (*self == *other),
    ;
}

impl MapKey for u32 {
    fn key_eq(&self, other: &Self) -> (r: bool)
        ensures
            r == (*self == *other),
    {
        *self == *other
    }
}


/// True iff some entry of `s` carries the key `k`.
pub open spec fn seq_contains_key<K, V>(s: Seq<(K, V)>, k: K) -> bool {
    exists|i: int| 0 <= i < s.len() && s[i].0 == k
}

/// The value stored beside `k` (meaningful only when the key is there).
pub open spec fn seq_value<K, V>(s: Seq<(K, V)>, k: K) -> V {
    let i: int = choose|i: int| 0 <= i < s.len() && s[i].0 == k;
    s[i].1
}

/// Pairwise-distinct keys.
pub open spec fn seq_unique<K, V>(s: Seq<(K, V)>) -> bool {
    forall|i: int, j: int| 0 <= i < j < s.len() ==> s[i].0 != s[j].0
}

/// The mathematical map an entry sequence denotes.
pub open spec fn seq_as_map<K, V>(s: Seq<(K, V)>) -> Map<K, V> {
    Map::new(|k: K| seq_contains_key(s, k), |k: K| seq_value(s, k))
}

/// An entry at a position of a distinct-key sequence is the one the map
/// view reports for its key.
pub proof fn lemma_seq_index_view<K, V>(s: Seq<(K, V)>, i: int)
    requires
        seq_unique(s),
        0 <= i < s.len(),
    ensures
        seq_contains_key(s, s[i].0),
        seq_value(s, s[i].0) == s[i].1,
        seq_as_map(s).contains_key(s[i].0),
        seq_as_map(s)[s[i].0] == s[i].1,
{
    assert(0 <= i < s.len() && s[i].0 == s[i].0);
    let j: int = choose|j: int| 0 <= j < s.len() && s[j].0 == s[i].0;
    if i != j {
        assert(s[i].0 != s[j].0);
    }
}

/// Appending a fresh key inserts it into the map view.
pub proof fn lemma_seq_push<K, V>(s: Seq<(K, V)>, k: K, v: V)
    requires
        seq_unique(s),
        !seq_contains_key(s, k),
    ensures
        seq_unique(s.push((k, v))),
        seq_as_map(s.push((k, v))) == seq_as_map(s).insert(k, v),
{
    let t = s.push((k, v));
    assert forall|i: int, j: int| 0 <= i < j < t.len() implies t[i].0 != t[j].0 by {
        if j < s.len() {
            assert(s[i].0 != s[j].0);
        } else {
            assert(t[j].0 == k);
            if t[i].0 == k {
                assert(seq_contains_key(s, k));
            }
        }
    }
    assert forall|x: K| #[trigger] seq_contains_key(t, x) == (x == k || seq_contains_key(s, x)) by {
        if seq_contains_key(t, x) {
            let i: int = choose|i: int| 0 <= i < t.len() && t[i].0 == x;
            if i < s.len() {
                assert(seq_contains_key(s, x));
            } else {
                assert(x == k);
            }
        }
        if x == k {
            assert(t[s.len() as int].0 == x);
        }
        if seq_contains_key(s, x) {
            let i: int = choose|i: int| 0 <= i < s.len() && s[i].0 == x;
            assert(t[i].0 == x);
        }
    }
    assert forall|x: K| seq_contains_key(t, x) implies seq_value(t, x) == (if x == k {
        v
    } else {
        seq_value(s, x)
    }) by {
        let i: int = choose|i: int| 0 <= i < t.len() && t[i].0 == x;
        if x == k {
            if i < s.len() {
                assert(seq_contains_key(s, k));
            }
            assert(t[i].1 == v);
        } else {
            assert(i < s.len());
            assert(seq_contains_key(s, x));
            let j: int = choose|j: int| 0 <= j < s.len() && s[j].0 == x;
            if i != j {
                assert(t[j].0 == x);
                assert(seq_unique(t));
            }
            assert(seq_value(s, x) == s[j].1);
        }
    }
    assert(seq_as_map(t) =~= seq_as_map(s).insert(k, v));
}

/// Overwriting the entry that holds a key updates the map view in place.
pub proof fn lemma_seq_update<K, V>(s: Seq<(K, V)>, i: int, k: K, v: V)
    requires
        seq_unique(s),
        0 <= i < s.len(),
        s[i].0 == k,
    ensures
        seq_unique(s.update(i, (k, v))),
        seq_as_map(s.update(i, (k, v))) == seq_as_map(s).insert(k, v),
{
    let t = s.update(i, (k, v));
    assert forall|a: int, b: int| 0 <= a < b < t.len() implies t[a].0 != t[b].0 by {
        assert(t[a].0 == s[a].0 && t[b].0 == s[b].0);
        assert(s[a].0 != s[b].0);
    }
    assert forall|x: K| #[trigger] seq_contains_key(t, x) == seq_contains_key(s, x) by {
        if seq_contains_key(t, x) {
            let a: int = choose|a: int| 0 <= a < t.len() && t[a].0 == x;
            assert(s[a].0 == x);
        }
        if seq_contains_key(s, x) {
            let a: int = choose|a: int| 0 <= a < s.len() && s[a].0 == x;
            assert(t[a].0 == x);
        }
    }
    assert forall|x: K| seq_contains_key(t, x) implies seq_value(t, x) == (if x == k {
        v
    } else {
        seq_value(s, x)
    }) by {
        let a: int = choose|a: int| 0 <= a < t.len() && t[a].0 == x;
        if x == k {
            if a != i {
                assert(s[a].0 == x && s[i].0 == x);
                assert(seq_unique(s));
            }
            assert(t[a].1 == v);
        } else {
            assert(a != i);
            assert(s[a].0 == x);
            let b: int = choose|b: int| 0 <= b < s.len() && s[b].0 == x;
            if a != b {
                assert(s[a].0 != s[b].0);
            }
        }
    }
    assert(seq_contains_key(t, k)) by {
        assert(t[i].0 == k);
    }
    assert(seq_as_map(t) =~= seq_as_map(s).insert(k, v));
}

/// Removing the entry that holds a key removes it from the map view.
pub proof fn lemma_seq_remove<K, V>(s: Seq<(K, V)>, i: int)
    requires
        seq_unique(s),
        0 <= i < s.len(),
    ensures
        seq_unique(s.remove(i)),
        seq_as_map(s.remove(i)) == seq_as_map(s).remove(s[i].0),
{
    let k: K = s[i].0;
    let t = s.remove(i);
    assert forall|a: int, b: int| 0 <= a < b < t.len() implies t[a].0 != t[b].0 by {
        let sa: int = if a < i {
            a
        } else {
            a + 1
        };
        let sb: int = if b < i {
            b
        } else {
            b + 1
        };
        assert(t[a].0 == s[sa].0 && t[b].0 == s[sb].0);
        assert(s[sa].0 != s[sb].0);
    }
    assert forall|x: K| #[trigger] seq_contains_key(t, x) == (x != k && seq_contains_key(s, x)) by {
        if seq_contains_key(t, x) {
            let a: int = choose|a: int| 0 <= a < t.len() && t[a].0 == x;
            let sa: int = if a < i {
                a
            } else {
                a + 1
            };
            assert(s[sa].0 == x);
            if x == k {
                assert(s[sa].0 == s[i].0 && sa != i);
                assert(seq_unique(s));
            }
        }
        if x != k && seq_contains_key(s, x) {
            let a: int = choose|a: int| 0 <= a < s.len() && s[a].0 == x;
            assert(a != i);
            if a < i {
                assert(t[a].0 == x);
            } else {
                assert(t[a - 1].0 == x);
            }
        }
    }
    assert forall|x: K| seq_contains_key(t, x) implies seq_value(t, x) == seq_value(s, x) by {
        let a: int = choose|a: int| 0 <= a < t.len() && t[a].0 == x;
        let sa: int = if a < i {
            a
        } else {
            a + 1
        };
        assert(s[sa].0 == x);
        let b: int = choose|b: int| 0 <= b < s.len() && s[b].0 == x;
        if sa != b {
            assert(s[sa].0 != s[b].0);
        }
        assert(seq_value(s, x) == s[sa].1);
        assert(t[a].1 == s[sa].1);
    }
    assert(seq_as_map(t) =~= seq_as_map(s).remove(k));
}

/// Inserting a fresh key at any position inserts it into the map view.
pub proof fn lemma_seq_insert_at<K, V>(s: Seq<(K, V)>, i: int, k: K, v: V)
    requires
        seq_unique(s),
        !seq_contains_key(s, k),
        0 <= i <= s.len(),
    ensures
        seq_unique(s.insert(i, (k, v))),
        seq_as_map(s.insert(i, (k, v))) == seq_as_map(s).insert(k, v),
{
    let t = s.insert(i, (k, v));
    assert forall|a: int, b: int| 0 <= a < b < t.len() implies t[a].0 != t[b].0 by {
        let sa: int = if a < i {
            a
        } else {
            a - 1
        };
        let sb: int = if b < i {
            b
        } else {
            b - 1
        };
        if a == i {
            assert(t[a].0 == k);
            assert(t[b].0 == s[sb].0);
            if s[sb].0 == k {
                assert(seq_contains_key(s, k));
            }
        } else if b == i {
            assert(t[b].0 == k);
            assert(t[a].0 == s[sa].0);
            if s[sa].0 == k {
                assert(seq_contains_key(s, k));
            }
        } else {
            assert(t[a].0 == s[sa].0 && t[b].0 == s[sb].0);
            assert(s[sa].0 != s[sb].0);
        }
    }
    assert forall|x: K| #[trigger] seq_contains_key(t, x) == (x == k || seq_contains_key(s, x)) by {
        if seq_contains_key(t, x) {
            let a: int = choose|a: int| 0 <= a < t.len() && t[a].0 == x;
            if a == i {
                assert(x == k);
            } else {
                let sa: int = if a < i {
                    a
                } else {
                    a - 1
                };
                assert(s[sa].0 == x);
            }
        }
        if x == k {
            assert(t[i].0 == x);
        }
        if seq_contains_key(s, x) {
            let a: int = choose|a: int| 0 <= a < s.len() && s[a].0 == x;
            if a < i {
                assert(t[a].0 == x);
            } else {
                assert(t[a + 1].0 == x);
            }
        }
    }
    assert forall|x: K| seq_contains_key(t, x) implies seq_value(t, x) == (if x == k {
        v
    } else {
        seq_value(s, x)
    }) by {
        let a: int = choose|a: int| 0 <= a < t.len() && t[a].0 == x;
        if x == k {
            if a != i {
                let sa: int = if a < i {
                    a
                } else {
                    a - 1
                };
                assert(s[sa].0 == k);
                assert(seq_contains_key(s, k));
            }
            assert(t[a].1 == v);
        } else {
            assert(a != i);
            let sa: int = if a < i {
                a
            } else {
                a - 1
            };
            assert(s[sa].0 == x);
            let b: int = choose|b: int| 0 <= b < s.len() && s[b].0 == x;
            if sa != b {
                assert(s[sa].0 != s[b].0);
            }
            assert(seq_value(s, x) == s[sa].1);
            assert(t[a].1 == s[sa].1);
        }
    }
    assert(seq_as_map(t) =~= seq_as_map(s).insert(k, v));
}

/// An association map with copyable keys and pairwise-distinct entries.
pub struct AssocMap<K, V> {
    entries: Vec<(K, V)>,
}

impl<K: MapKey, V> AssocMap<K, V> {
    /// The underlying entry sequence, in insertion order.
    pub closed spec fn entries_seq(&self) -> Seq<(K, V)> {
        self.entries@
    }

    /// Well-formed: no key occurs twice.
    pub open spec fn wf(&self) -> bool {
        seq_unique(self.entries_seq())
    }

    /// The mathematical map this collection denotes.
    pub open spec fn view(&self) -> Map<K, V> {
        seq_as_map(self.entries_seq())
    }

    /// An empty map.
    pub fn new() -> (r: AssocMap<K, V>)
        ensures
            r.wf(),
            r@ == Map::<K, V>::empty(),
            r.entries_seq() == Seq::<(K, V)>::empty(),
    {
        let r = AssocMap { entries: Vec::new() };
        proof {
            assert forall|x: K| !seq_contains_key(r.entries_seq(), x) by {}
            assert(r@ =~= Map::<K, V>::empty());
        }
        r
    }

    /// Number of entries.
    pub fn len(&self) -> (r: usize)
        ensures
            r == self.entries_seq().len(),
    {
        self.entries.len()
    }

    /// The key of the entry at position `i`.
    pub fn key_at(&self, i: usize) -> (r: K)
        requires
            i < self.entries_seq().len(),
    ensures
            r == self.entries_seq()[i as int].0,
    {
        self.entries[i].0
    }

    /// The value of the entry at position `i`.
    pub fn value_at(&self, i: usize) -> (r: &V)
        requires
            i < self.entries_seq().len(),
        ensures
            *r == self.entries_seq()[i as int].1,
    {
        &self.entries[i].1
    }

    /// Position of the entry holding `k`, if any.
    fn index_of(&self, k: &K) -> (r: Option<usize>)
        ensures
            match r {
                Some(i) => i < self.entries_seq().len() && self.entries_seq()[i as int].0 == *k,
                None => !seq_contains_key(self.entries_seq(), *k),
            },
    {
        let n: usize = self.entries.len();
        let mut i: usize = 0;
        while i < n
            invariant
                n == self.entries_seq().len(),
                0 <= i <= n,
                forall|j: int| 0 <= j < i ==> self.entries_seq()[j].0 != *k,
            decreases n - i,
        {
            if self.entries[i].0.key_eq(k) {
                return Some(i);
            }
            i += 1;
        }
        None
    }

    /// Membership test against the map view.
    pub fn contains_key(&self, k: &K) -> (r: bool)
        ensures
            r == self@.contains_key(*k),
    {
        self.index_of(k).is_some()
    }

    /// Borrow the value stored for `k`.
    pub fn get(&self, k: &K) -> (r: Option<&V>)
        requires
            self.wf(),
        ensures
            match r {
                Some(v) => self@.contains_key(*k) && *v == self@[*k],
                None => !self@.contains_key(*k),
            },
    {
        match self.index_of(k) {
            Some(i) => {
                proof {
                    lemma_seq_index_view(self.entries_seq(), i as int);
                }
                Some(&self.entries[i].1)
            },
            None => None,
        }
    }

    /// Insert or overwrite.
    pub fn insert(&mut self, k: K, v: V)
        requires
            old(self).wf(),
        ensures
            final(self).wf(),
            final(self)@ == old(self)@.insert(k, v),
    {
        match self.index_of(&k) {
            Some(i) => {
                proof {
                    lemma_seq_update(self.entries_seq(), i as int, k, v);
                }
                self.entries[i] = (k, v);
            },
            None => {
                proof {
                    lemma_seq_push(self.entries_seq(), k, v);
                }
                self.entries.push((k, v));
            },
        }
    }

    /// Take the entry at position `i` out, closing the gap.
    pub fn take_entry_at(&mut self, i: usize) -> (r: (K, V))
        requires
            old(self).wf(),
            i < old(self).entries_seq().len(),
        ensures
            final(self).wf(),
            r == old(self).entries_seq()[i as int],
            final(self).entries_seq() == old(self).entries_seq().remove(i as int),
            final(self)@ == old(self)@.remove(r.0),
            !final(self)@.contains_key(r.0),
            old(self)@.contains_key(r.0) && old(self)@[r.0] == r.1,
    {
        proof {
            lemma_seq_index_view(self.entries_seq(), i as int);
            lemma_seq_remove(self.entries_seq(), i as int);
        }
        self.entries.remove(i)
    }

    /// Put an entry with a fresh key at position `i`, shifting the rest.
    pub fn put_entry_at(&mut self, i: usize, k: K, v: V)
        requires
            old(self).wf(),
            i <= old(self).entries_seq().len(),
            !old(self)@.contains_key(k),
        ensures
            final(self).wf(),
            final(self).entries_seq() == old(self).entries_seq().insert(i as int, (k, v)),
            final(self)@ == old(self)@.insert(k, v),
    {
        proof {
            if seq_contains_key(self.entries_seq(), k) {
                let a: int = choose|a: int|
                    0 <= a < self.entries_seq().len() && self.entries_seq()[a].0 == k;
                lemma_seq_index_view(self.entries_seq(), a);
            }
            lemma_seq_insert_at(self.entries_seq(), i as int, k, v);
        }
        self.entries.insert(i, (k, v));
    }

    /// Remove the entry for `k`, returning its value when it was there.
    pub fn remove(&mut self, k: &K) -> (r: Option<V>)
        requires
            old(self).wf(),
        ensures
            final(self).wf(),
            final(self)@ == old(self)@.remove(*k),
            match r {
                Some(v) => old(self)@.contains_key(*k) && v == old(self)@[*k],
                None => !old(self)@.contains_key(*k),
            },
    {
        match self.index_of(k) {
            Some(i) => {
                proof {
                    lemma_seq_index_view(self.entries_seq(), i as int);
                    lemma_seq_remove(self.entries_seq(), i as int);
                }
                let (_, v) = self.entries.remove(i);
                proof {
                    assert(self@ =~= old(self)@.remove(*k));
                }
                Some(v)
            },
            None => {
                proof {
                    assert(self@ =~= old(self)@.remove(*k));
                }
                None
            },
        }
    }
}

} // verus!
