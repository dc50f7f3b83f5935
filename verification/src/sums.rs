//! Summing the values of a finite map.
//!
//! `map_sum` gives the mathematical sum of all values stored in a map from
//! account identifiers to balances. The ledger's conservation law states that
//! the issuance total equals this sum; the lemmas here say how the sum moves
//! under point updates, which is all the ledger operations need.

use vstd::prelude::*;

verus! {

/// The sum of the values of a finite map, as a mathematical integer.
///
/// A map with an infinite (or empty) domain sums to zero; the ledger only
/// ever applies this to views of finite maps.
pub open spec fn map_sum(m: Map<u64, u128>) -> int
    decreases m.dom().len(),
{
    if m.dom().finite() && m.dom().len() > 0 {
        let k = m.dom().choose();
        m[k] + map_sum(m.remove(k))
    } else {
        0
    }
}

/// The empty map sums to zero.
pub proof fn lemma_map_sum_empty()
    ensures
        map_sum(Map::<u64, u128>::empty()) == 0,
{
    assert(Map::<u64, u128>::empty().dom() =~= Set::<u64>::empty());
}

/// A sum of unsigned values is non-negative.
pub proof fn lemma_map_sum_nonneg(m: Map<u64, u128>)
    requires
        m.dom().finite(),
    ensures
        map_sum(m) >= 0,
    decreases m.dom().len(),
{
    if m.dom().len() > 0 {
        let k = m.dom().choose();
        lemma_map_sum_nonneg(m.remove(k));
    }
}

/// Removing a key takes exactly its value out of the sum.
pub proof fn lemma_map_sum_remove(m: Map<u64, u128>, k: u64)
    requires
        m.dom().finite(),
        m.dom().contains(k),
    ensures
        map_sum(m) == map_sum(m.remove(k)) + m[k],
    decreases m.dom().len(),
{
    let c = m.dom().choose();
    if c == k {
        assert(m.remove(c) =~= m.remove(k));
    } else {
        lemma_map_sum_remove(m.remove(c), k);
        lemma_map_sum_remove(m.remove(k), c);
        assert(m.remove(c).remove(k) =~= m.remove(k).remove(c));
    }
}

/// Writing a key replaces its old contribution (zero if absent) by the new
/// value.
pub proof fn lemma_map_sum_insert(m: Map<u64, u128>, k: u64, v: u128)
    requires
        m.dom().finite(),
    ensures
        map_sum(m.insert(k, v)) == map_sum(m) + v - (if m.dom().contains(k) {
            m[k]
        } else {
            0
        }),
{
    let m1 = m.insert(k, v);
    lemma_map_sum_remove(m1, k);
    if m.dom().contains(k) {
        lemma_map_sum_remove(m, k);
        assert(m1.remove(k) =~= m.remove(k));
    } else {
        assert(m1.remove(k) =~= m);
    }
}

/// No single value exceeds the sum.
pub proof fn lemma_map_sum_ge_element(m: Map<u64, u128>, k: u64)
    requires
        m.dom().finite(),
        m.dom().contains(k),
    ensures
        map_sum(m) >= m[k],
{
    lemma_map_sum_remove(m, k);
    lemma_map_sum_nonneg(m.remove(k));
}

} // verus!
