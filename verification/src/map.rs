//! The container itself: an append-only sequence of `(key, value)` pairs
//! with first-match lookup and removal.

use vstd::prelude::*;
use vstd::std_specs::cmp::PartialEqSpec;

verus! {

/// An ordered multimap: entries stay in insertion order and keys may
/// repeat. The mathematical model (the view) is the sequence of entries.
#[derive(Clone, Debug, Eq, Hash)]
pub struct FakeMap<K, V> {
    items: Vec<(K, V)>,
}

impl<K, V> View for FakeMap<K, V> {
    type V = Seq<(K, V)>;

    closed spec fn view(&self) -> Seq<(K, V)> {
        self.items@
    }
}

impl<K, V> Default for FakeMap<K, V> {
    /// The same as `new`: an empty container.
    fn default() -> (r: Self)
        ensures
            r@ == Seq::<(K, V)>::empty(),
    {
        FakeMap::new()
    }
}

/// Whether an entry's key compares equal (in the sense of `K`'s own
/// equality) to the query key.
pub open spec fn entry_matches<K: PartialEq, V>(e: (K, V), q: K) -> bool {
    e.0.eq_spec(&q)
}

/// No entry of `s` has a key equal to `q`.
pub open spec fn no_key_match<K: PartialEq, V>(s: Seq<(K, V)>, q: K) -> bool {
    forall|i: int| 0 <= i < s.len() ==> !(#[trigger] entry_matches(s[i], q))
}

/// `i` is the position of the first entry of `s` whose key equals `q`:
/// the entry there matches and nothing before it does.
pub open spec fn first_match_at<K: PartialEq, V>(s: Seq<(K, V)>, q: K, i: int) -> bool {
    &&& 0 <= i < s.len()
    &&& entry_matches(s[i], q)
    &&& no_key_match(s.take(i), q)
}

impl<K, V> FakeMap<K, V> {
    /// An empty container.
    pub fn new() -> (r: Self)
        ensures
            r@ == Seq::<(K, V)>::empty(),
    {
        FakeMap { items: Vec::new() }
    }

    /// An empty container whose backing storage is pre-sized for `cap`
    /// entries. The capacity is an optimization hint only: it has no
    /// observable effect on the entry sequence.
    pub fn with_capacity(cap: usize) -> (r: Self)
        ensures
            r@ == Seq::<(K, V)>::empty(),
    {
        FakeMap { items: Vec::with_capacity(cap) }
    }

    /// A container holding exactly the given pairs, in their given order,
    /// duplicates retained. This is the whole decoding obligation: each
    /// offered pair is appended in the order offered.
    pub fn from_pairs(pairs: Vec<(K, V)>) -> (r: Self)
        ensures
            r@ == pairs@,
    {
        FakeMap { items: pairs }
    }

    /// The number of entries.
    pub fn len(&self) -> (n: usize)
        ensures
            n == self@.len(),
    {
        self.items.len()
    }

    /// Appends a new entry at the end, unconditionally: an equal key
    /// already present gets a second, independent entry rather than an
    /// update in place. No existing entry moves.
    pub fn insert(&mut self, k: K, v: V)
        ensures
            final(self)@ == old(self)@.push((k, v)),
    {
        self.items.push((k, v));
    }

    /// The value at a sequence position. An index past the end is a
    /// caller error, ruled out by contract.
    pub fn get_at(&self, index: usize) -> (r: &V)
        requires
            index < self@.len(),
        ensures
            *r == self@[index as int].1,
    {
        &self.items[index].1
    }

    /// The entries in insertion order, as they stand.
    pub fn iter(&self) -> (r: &Vec<(K, V)>)
        ensures
            r@ == self@,
    {
        &self.items
    }

    /// The keys in insertion order.
    pub fn keys(&self) -> (r: Vec<&K>)
        ensures
            r@.len() == self@.len(),
            forall|i: int| #![auto] 0 <= i < self@.len() ==> *r@[i] == self@[i].0,
    {
        let mut out: Vec<&K> = Vec::new();
        let n = self.items.len();
        let mut j: usize = 0;
        while j < n
            invariant
                n == self@.len(),
                j <= n,
                out@.len() == j,
                forall|i: int| #![auto] 0 <= i < j ==> *out@[i] == self@[i].0,
            decreases n - j,
        {
            out.push(&self.items[j].0);
            j += 1;
        }
        out
    }

    /// The keys in insertion order. Keys are never handed out for
    /// mutation, not even here: changing a key in place could silently
    /// break the first-match lookup, so the references stay shared.
    pub fn keys_mut(&self) -> (r: Vec<&K>)
        ensures
            r@.len() == self@.len(),
            forall|i: int| #![auto] 0 <= i < self@.len() ==> *r@[i] == self@[i].0,
    {
        self.keys()
    }

    /// The values in insertion order.
    pub fn values(&self) -> (r: Vec<&V>)
        ensures
            r@.len() == self@.len(),
            forall|i: int| #![auto] 0 <= i < self@.len() ==> *r@[i] == self@[i].1,
    {
        let mut out: Vec<&V> = Vec::new();
        let n = self.items.len();
        let mut j: usize = 0;
        while j < n
            invariant
                n == self@.len(),
                j <= n,
                out@.len() == j,
                forall|i: int| #![auto] 0 <= i < j ==> *out@[i] == self@[i].1,
            decreases n - j,
        {
            out.push(&self.items[j].1);
            j += 1;
        }
        out
    }

    /// Mutable access to the value at a sequence position. Only the value
    /// there can change: the key and every other entry keep their places.
    pub fn values_mut(&mut self, index: usize) -> (r: &mut V)
        requires
            index < old(self)@.len(),
        ensures
            *r == old(self)@[index as int].1,
            final(self)@ == old(self)@.update(
                index as int,
                (old(self)@[index as int].0, *final(r)),
            ),
    {
        let kv = vstd::std_specs::vec::vec_index_mut(&mut self.items, index);
        &mut kv.1
    }

    /// The entry at a sequence position, with the key shared and the
    /// value mutable: keys are deliberately not mutable through
    /// iteration, values are.
    pub fn iter_mut(&mut self, index: usize) -> (r: (&K, &mut V))
        requires
            index < old(self)@.len(),
        ensures
            *r.0 == old(self)@[index as int].0,
            *r.1 == old(self)@[index as int].1,
            final(self)@ == old(self)@.update(
                index as int,
                (old(self)@[index as int].0, *final(r.1)),
            ),
    {
        let kv = vstd::std_specs::vec::vec_index_mut(&mut self.items, index);
        (&kv.0, &mut kv.1)
    }
}

/// Entry-wise equality of two entry sequences: the same length, and at
/// every position keys equal and values equal, each in its own type's
/// sense of equality. Same pairs in a different order do not qualify.
pub open spec fn entries_eq_spec<K: PartialEq, V: PartialEq>(
    s1: Seq<(K, V)>,
    s2: Seq<(K, V)>,
) -> bool {
    &&& s1.len() == s2.len()
    &&& forall|i: int|
        #![auto]
        0 <= i < s1.len() ==> s1[i].0.eq_spec(&s2[i].0) && s1[i].1.eq_spec(&s2[i].1)
}

impl<K: PartialEq, V: PartialEq> PartialEq for FakeMap<K, V> {
    /// Two containers are equal only when they hold the same entries in
    /// the same order — stronger than "the same pairs in any order".
    fn eq(&self, other: &Self) -> (r: bool) {
        let r = self.items == other.items;
        proof {
            if K::obeys_eq_spec() && V::obeys_eq_spec() {
                assert(r == entries_eq_spec(self@, other@));
            }
        }
        r
    }
}

impl<K: PartialEq, V: PartialEq> vstd::std_specs::cmp::PartialEqSpecImpl for FakeMap<K, V> {
    open spec fn obeys_eq_spec() -> bool {
        K::obeys_eq_spec() && V::obeys_eq_spec()
    }

    open spec fn eq_spec(&self, other: &Self) -> bool {
        entries_eq_spec(self@, other@)
    }
}

impl<K: PartialEq, V> FakeMap<K, V> {
    /// The position of the first entry whose key compares equal to `key`,
    /// scanning from the front; absence when no entry matches.
    ///
    /// The exact clause holds whenever `K`'s equality agrees with its own
    /// specification; a key type with an arbitrary `PartialEq` still gets
    /// an in-bounds index or absence, nothing more.
    pub fn get_idx_of_key(&self, key: &K) -> (r: Option<usize>)
        ensures
            r is Some ==> r->0 < self@.len(),
            K::obeys_eq_spec() ==> match r {
                Some(i) => first_match_at(self@, *key, i as int),
                None => no_key_match(self@, *key),
            },
    {
        let n = self.items.len();
        let mut j: usize = 0;
        while j < n
            invariant
                n == self@.len(),
                j <= n,
                K::obeys_eq_spec() ==> no_key_match(self@.take(j as int), *key),
            decreases n - j,
        {
            if self.items[j].0 == *key {
                proof {
                    if K::obeys_eq_spec() {
                        assert(entry_matches(self@[j as int], *key));
                    }
                }
                return Some(j);
            }
            proof {
                if K::obeys_eq_spec() {
                    assert forall|i: int| 0 <= i < j + 1 implies !(#[trigger] entry_matches(
                        self@.take(j + 1)[i],
                        *key,
                    )) by {
                        if i < j {
                            assert(!entry_matches(self@.take(j as int)[i], *key));
                        }
                    }
                }
            }
            j += 1;
        }
        proof {
            assert(self@.take(n as int) =~= self@);
        }
        None
    }

    /// A reference to the value of the first entry whose key compares
    /// equal to `key`; absence when no entry matches. A linear scan from
    /// the front: the accepted cost of keeping insertion order.
    pub fn get(&self, key: &K) -> (r: Option<&V>)
        ensures
            K::obeys_eq_spec() ==> match r {
                Some(v) => exists|i: int|
                    #[trigger] first_match_at(self@, *key, i) && *v == self@[i].1,
                None => no_key_match(self@, *key),
            },
    {
        match self.get_idx_of_key(key) {
            Some(i) => Some(&self.items[i].1),
            None => None,
        }
    }

    /// Removes the first entry whose key compares equal to `key` and
    /// returns its value; all later entries shift one position earlier,
    /// keeping their relative order, and entries before the removed one
    /// do not move. Absence when no entry matches, and then the container
    /// is unchanged. Later entries with the same key stay untouched.
    ///
    /// Whatever `K`'s equality does, the call removes at most one entry
    /// and never reorders the rest.
    pub fn remove(&mut self, key: &K) -> (r: Option<V>)
        ensures
            match r {
                Some(v) => exists|i: int|
                    0 <= i < old(self)@.len() && v == #[trigger] old(self)@[i].1
                        && final(self)@ == old(self)@.remove(i),
                None => final(self)@ == old(self)@,
            },
            K::obeys_eq_spec() ==> match r {
                Some(v) => exists|i: int|
                    #[trigger] first_match_at(old(self)@, *key, i) && v == old(self)@[i].1
                        && final(self)@ == old(self)@.remove(i),
                None => no_key_match(old(self)@, *key),
            },
    {
        match self.get_idx_of_key(key) {
            Some(i) => {
                let kv = self.items.remove(i);
                Some(kv.1)
            },
            None => None,
        }
    }
}

} // verus!
