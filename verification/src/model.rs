//! The mathematical model: spec functions over sequences of multiplicities.
//!
//! A multiset of capacity `N` is modelled as a `Seq<u16>` of length `N`;
//! the value at index `i` is the multiplicity of element `i`.

use vstd::prelude::*;

verus! {

/// The smaller of two multiplicities.
pub open spec fn min16(a: u16, b: u16) -> u16 {
    if a <= b {
        a
    } else {
        b
    }
}

/// The larger of two multiplicities.
pub open spec fn max16(a: u16, b: u16) -> u16 {
    if a >= b {
        a
    } else {
        b
    }
}

/// Elementwise minimum: the multiset intersection.
pub open spec fn inter_seq(a: Seq<u16>, b: Seq<u16>) -> Seq<u16> {
    Seq::new(a.len(), |i: int| min16(a[i], b[i]))
}

/// Elementwise maximum: the multiset union.
pub open spec fn union_seq(a: Seq<u16>, b: Seq<u16>) -> Seq<u16> {
    Seq::new(a.len(), |i: int| max16(a[i], b[i]))
}

/// Every multiplicity of `a` is at most the matching one of `b`.
pub open spec fn subset_seq(a: Seq<u16>, b: Seq<u16>) -> bool {
    forall|i: int| 0 <= i < a.len() ==> a[i] <= b[i]
}

/// Some multiplicity of `a` is strictly below the matching one of `b`.
pub open spec fn any_lesser_seq(a: Seq<u16>, b: Seq<u16>) -> bool {
    exists|i: int| 0 <= i < a.len() && a[i] < b[i]
}

/// No element is held by both multisets.
pub open spec fn disjoint_seq(a: Seq<u16>, b: Seq<u16>) -> bool {
    forall|i: int| 0 <= i < a.len() ==> min16(a[i], b[i]) == 0
}

/// Every multiplicity is zero.
pub open spec fn all_zero(s: Seq<u16>) -> bool {
    forall|i: int| 0 <= i < s.len() ==> s[i] == 0
}

/// Exact sum of the first `k` multiplicities, as an unbounded integer.
pub open spec fn sum_to(s: Seq<u16>, k: int) -> int
    decreases k,
{
    if k <= 0 {
        0
    } else {
        sum_to(s, k - 1) + s[k - 1]
    }
}

/// Exact sum of all multiplicities.
pub open spec fn sum_seq(s: Seq<u16>) -> int {
    sum_to(s, s.len() as int)
}

/// Sum of the first `k` multiplicities in `usize` arithmetic that wraps
/// around on overflow, accumulated in index order.
pub open spec fn wsum_to(s: Seq<u16>, k: int) -> usize
    decreases k,
{
    if k <= 0 {
        0usize
    } else {
        vstd::wrapping::usize_specs::wrapping_add(wsum_to(s, k - 1), s[k - 1] as usize)
    }
}

/// Wrapping sum of all multiplicities: what `total` returns.
pub open spec fn wrap_sum(s: Seq<u16>) -> usize {
    wsum_to(s, s.len() as int)
}

/// Number of non-zero multiplicities among the first `k`.
pub open spec fn cnz_to(s: Seq<u16>, k: int) -> int
    decreases k,
{
    if k <= 0 {
        0
    } else {
        cnz_to(s, k - 1) + if s[k - 1] > 0 {
            1int
        } else {
            0int
        }
    }
}

/// Number of non-zero multiplicities.
pub open spec fn count_nonzero_seq(s: Seq<u16>) -> int {
    cnz_to(s, s.len() as int)
}

/// Largest multiplicity among the first `k`; 0 when `k <= 0`.
pub open spec fn max_to(s: Seq<u16>, k: int) -> u16
    decreases k,
{
    if k <= 0 {
        0u16
    } else {
        max16(max_to(s, k - 1), s[k - 1])
    }
}

/// Largest multiplicity; 0 for an empty domain.
pub open spec fn max_seq(s: Seq<u16>) -> u16 {
    max_to(s, s.len() as int)
}

/// Smallest multiplicity among the first `k`; `u16::MAX` when `k <= 0`.
pub open spec fn min_to(s: Seq<u16>, k: int) -> u16
    decreases k,
{
    if k <= 0 {
        u16::MAX
    } else {
        min16(min_to(s, k - 1), s[k - 1])
    }
}

/// Smallest multiplicity; `u16::MAX` for an empty domain.
pub open spec fn min_seq(s: Seq<u16>) -> u16 {
    min_to(s, s.len() as int)
}

/// Folding an accumulator over the first `k` multiplicities in index
/// order with the combining operation `op`.
pub open spec fn fold_to<A>(s: Seq<u16>, init: A, op: spec_fn(A, u16) -> A, k: int) -> A
    decreases k,
{
    if k <= 0 {
        init
    } else {
        op(fold_to(s, init, op, k - 1), s[k - 1])
    }
}

/// The multiset restricted to element `e`: every other multiplicity is
/// zeroed. An out-of-range `e` yields the empty multiset.
pub open spec fn restrict_seq(s: Seq<u16>, e: int) -> Seq<u16> {
    Seq::new(s.len(), |j: int| if j == e { s[e] } else { 0u16 })
}

/// The wrapping prefix sum never exceeds the exact one: wrapping around
/// only ever subtracts.
pub proof fn lemma_wsum_le_sum(s: Seq<u16>, k: int)
    ensures
        wsum_to(s, k) as int <= sum_to(s, k),
    decreases k,
{
    if k > 0 {
        lemma_wsum_le_sum(s, k - 1);
    }
}

} // verus!
