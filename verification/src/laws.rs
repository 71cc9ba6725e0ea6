//! Laws of the container, stated over the sequence model and proved once
//! and for all. Each speaks of the same spec functions that the
//! container's own contracts use: `push` for insertion, `remove` for
//! removal, `first_match_at` / `no_key_match` for lookup, and
//! `entries_eq_spec` for container equality.

use crate::map::entries_eq_spec;
use crate::map::entry_matches;
use crate::map::first_match_at;
use crate::map::no_key_match;
use crate::map::FakeMap;
use vstd::prelude::*;
use vstd::std_specs::cmp::PartialEqSpec;

verus! {

/// Inserting appends: the new entry stands at the end and every existing
/// entry keeps its position, so iteration order is exactly insertion
/// order, whatever the keys are.
pub proof fn lemma_insert_preserves_order<K, V>(s: Seq<(K, V)>, k: K, v: V)
    ensures
        s.push((k, v)).len() == s.len() + 1,
        s.push((k, v))[s.len() as int] == (k, v),
        forall|i: int| 0 <= i < s.len() ==> s.push((k, v))[i] == s[i],
{
}

/// Duplicate keys coexist: pushing `(k, v1)` and then `(k, v2)` onto a
/// sequence with no entry for `k` yields two distinct entries, both
/// visible at their own positions, and the first match for `k` is the
/// entry holding `v1` — so lookup returns `v1`, not `v2`.
///
/// `k.eq_spec(&k)` asks that `k` compare equal to itself, which any
/// well-behaved equality grants.
pub proof fn lemma_duplicate_keys_coexist<K: PartialEq, V>(s: Seq<(K, V)>, k: K, v1: V, v2: V)
    requires
        no_key_match(s, k),
        k.eq_spec(&k),
    ensures
        s.push((k, v1)).push((k, v2))[s.len() as int] == (k, v1),
        s.push((k, v1)).push((k, v2))[s.len() as int + 1] == (k, v2),
        first_match_at(s.push((k, v1)).push((k, v2)), k, s.len() as int),
{
    let s2 = s.push((k, v1)).push((k, v2));
    assert(s2.take(s.len() as int) =~= s);
    assert(entry_matches(s2[s.len() as int], k));
}

/// There is at most one first match: lookup and removal are
/// deterministic, whatever duplicates the sequence holds.
pub proof fn lemma_first_match_unique<K: PartialEq, V>(s: Seq<(K, V)>, k: K, i: int, j: int)
    requires
        first_match_at(s, k, i),
        first_match_at(s, k, j),
    ensures
        i == j,
{
    if i < j {
        assert(entry_matches(s.take(j)[i], k));
    }
    if j < i {
        assert(entry_matches(s.take(i)[j], k));
    }
}

/// Removal shifts only what follows: taking out the entry at `i` leaves
/// every earlier entry where it was and moves each later entry exactly
/// one position forward, keeping their relative order.
pub proof fn lemma_remove_shifts_only_later<K, V>(s: Seq<(K, V)>, i: int)
    requires
        0 <= i < s.len(),
    ensures
        s.remove(i).len() == s.len() - 1,
        forall|j: int| 0 <= j < i ==> s.remove(i)[j] == s[j],
        forall|j: int| i <= j < s.len() - 1 ==> s.remove(i)[j] == s[j + 1],
{
}

/// Removing the first match leaves later same-key entries intact and
/// reachable: if the next entry for `k` after the removed one stood at
/// `j`, it survives (one position earlier) and is now the first match,
/// so a further lookup or removal finds exactly it.
pub proof fn lemma_remove_first_match_keeps_later<K: PartialEq, V>(
    s: Seq<(K, V)>,
    k: K,
    i: int,
    j: int,
)
    requires
        first_match_at(s, k, i),
        i < j < s.len(),
        entry_matches(s[j], k),
        forall|m: int| i < m < j ==> !(#[trigger] entry_matches(s[m], k)),
    ensures
        s.remove(i)[j - 1] == s[j],
        first_match_at(s.remove(i), k, j - 1),
{
    let t = s.remove(i);
    assert forall|m: int| 0 <= m < j - 1 implies !(#[trigger] entry_matches(
        t.take(j - 1)[m],
        k,
    )) by {
        if m < i {
            assert(t[m] == s[m]);
            assert(!entry_matches(s.take(i)[m], k));
        } else {
            assert(t[m] == s[m + 1]);
        }
    }
}

/// Removing the only match leaves none: if the entry at `i` is the first
/// match for `k` and nothing after it matches either, then after the
/// removal no entry matches at all — a second removal with the same key
/// reports absence.
pub proof fn lemma_remove_sole_match_leaves_none<K: PartialEq, V>(s: Seq<(K, V)>, k: K, i: int)
    requires
        first_match_at(s, k, i),
        forall|j: int| i < j < s.len() ==> !(#[trigger] entry_matches(s[j], k)),
    ensures
        no_key_match(s.remove(i), k),
{
    let t = s.remove(i);
    assert forall|m: int| 0 <= m < t.len() implies !(#[trigger] entry_matches(t[m], k)) by {
        if m < i {
            assert(t[m] == s[m]);
            assert(!entry_matches(s.take(i)[m], k));
        } else {
            assert(t[m] == s[m + 1]);
        }
    }
}

/// The round trip: encoding offers exactly the entry sequence of the
/// container, in order and nothing else, and decoding builds a container
/// whose entry sequence is exactly what was offered — so the decoded
/// container holds the same entries in the same order as the original,
/// duplicate keys included.
pub proof fn lemma_encode_decode_round_trip<K, V>(
    m: FakeMap<K, V>,
    offered: Seq<(K, V)>,
    decoded: FakeMap<K, V>,
)
    requires
        offered == m@,
        decoded@ == offered,
    ensures
        decoded@ == m@,
{
}

/// The round trip read through the container's own equality contract:
/// when every stored key and value compares equal to itself, a decoded
/// container with the very same entry sequence is equal to the original
/// entry by entry.
pub proof fn lemma_round_trip_entrywise_equal<K: PartialEq, V: PartialEq>(
    m: FakeMap<K, V>,
    decoded: FakeMap<K, V>,
)
    requires
        decoded@ == m@,
        forall|i: int|
            #![auto]
            0 <= i < m@.len() ==> m@[i].0.eq_spec(&m@[i].0) && m@[i].1.eq_spec(&m@[i].1),
    ensures
        entries_eq_spec(decoded@, m@),
{
}

} // verus!
