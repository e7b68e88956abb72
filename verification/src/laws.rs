//! Algebraic laws of the multiset operations, stated over the model and
//! proved once for every capacity.

use crate::model::{
    all_zero, inter_seq, max16, min16, restrict_seq, subset_seq, sum_seq, sum_to, union_seq,
    wrap_sum, wsum_to,
};
use vstd::arithmetic::div_mod::lemma_fundamental_div_mod_converse_mod;
use vstd::prelude::*;

verus! {

/// The intersection is pointwise at most each operand, and the union is
/// pointwise at least each operand.
pub proof fn lemma_inter_union_bounds(a: Seq<u16>, b: Seq<u16>)
    requires
        a.len() == b.len(),
    ensures
        subset_seq(inter_seq(a, b), a),
        subset_seq(inter_seq(a, b), b),
        subset_seq(a, union_seq(a, b)),
        subset_seq(b, union_seq(a, b)),
{
}

/// The intersection is commutative.
pub proof fn lemma_inter_comm(a: Seq<u16>, b: Seq<u16>)
    requires
        a.len() == b.len(),
    ensures
        inter_seq(a, b) == inter_seq(b, a),
{
    assert(inter_seq(a, b) =~= inter_seq(b, a));
}

/// The union is commutative.
pub proof fn lemma_union_comm(a: Seq<u16>, b: Seq<u16>)
    requires
        a.len() == b.len(),
    ensures
        union_seq(a, b) == union_seq(b, a),
{
    assert(union_seq(a, b) =~= union_seq(b, a));
}

/// The intersection is idempotent.
pub proof fn lemma_inter_idempotent(a: Seq<u16>)
    ensures
        inter_seq(a, a) == a,
{
    assert(inter_seq(a, a) =~= a);
}

/// The union is idempotent.
pub proof fn lemma_union_idempotent(a: Seq<u16>)
    ensures
        union_seq(a, a) == a,
{
    assert(union_seq(a, a) =~= a);
}

proof fn lemma_ie_to(a: Seq<u16>, b: Seq<u16>, k: int)
    requires
        a.len() == b.len(),
        k <= a.len(),
    ensures
        sum_to(union_seq(a, b), k) + sum_to(inter_seq(a, b), k) == sum_to(a, k) + sum_to(b, k),
    decreases k,
{
    if k > 0 {
        lemma_ie_to(a, b, k - 1);
        assert(union_seq(a, b)[k - 1] == max16(a[k - 1], b[k - 1]));
        assert(inter_seq(a, b)[k - 1] == min16(a[k - 1], b[k - 1]));
    }
}

/// Inclusion–exclusion: the exact totals of union and intersection add
/// up to the exact totals of the operands.
pub proof fn lemma_inclusion_exclusion(a: Seq<u16>, b: Seq<u16>)
    requires
        a.len() == b.len(),
    ensures
        sum_seq(union_seq(a, b)) + sum_seq(inter_seq(a, b)) == sum_seq(a) + sum_seq(b),
{
    lemma_ie_to(a, b, a.len() as int);
}

/// A wrapping add of two residues is the residue of the exact sum,
/// where the modulus is one past `usize::MAX`.
proof fn lemma_wadd_mod(x: usize, y: usize, xx: int, yy: int)
    requires
        x as int == xx % (usize::MAX as int + 1),
        y as int == yy % (usize::MAX as int + 1),
    ensures
        vstd::wrapping::usize_specs::wrapping_add(x, y) as int == (xx + yy) % (usize::MAX as int
            + 1),
{
    let m = usize::MAX as int + 1;
    vstd::arithmetic::div_mod::lemma_add_mod_noop(xx, yy, m);
    if x + y > usize::MAX {
        lemma_fundamental_div_mod_converse_mod(x as int + y as int, m, 1, x as int + y as int - m);
    } else {
        lemma_fundamental_div_mod_converse_mod(x as int + y as int, m, 0, x as int + y as int);
    }
}

/// The wrapping prefix sum is the exact prefix sum reduced modulo one
/// past `usize::MAX`.
pub proof fn lemma_wsum_is_mod(s: Seq<u16>, k: int)
    ensures
        wsum_to(s, k) as int == sum_to(s, k) % (usize::MAX as int + 1),
    decreases k,
{
    let m = usize::MAX as int + 1;
    if k <= 0 {
        lemma_fundamental_div_mod_converse_mod(0, m, 0, 0);
    } else {
        lemma_wsum_is_mod(s, k - 1);
        let v = s[k - 1] as usize;
        lemma_fundamental_div_mod_converse_mod(v as int, m, 0, v as int);
        lemma_wadd_mod(wsum_to(s, k - 1), v, sum_to(s, k - 1), v as int);
    }
}

/// Inclusion–exclusion as `total` computes it: with both sides folded
/// by the same wrapping add, union and intersection together balance
/// the two operands even when the totals wrap.
pub proof fn lemma_total_inclusion_exclusion(a: Seq<u16>, b: Seq<u16>)
    requires
        a.len() == b.len(),
    ensures
        vstd::wrapping::usize_specs::wrapping_add(
            wrap_sum(union_seq(a, b)),
            wrap_sum(inter_seq(a, b)),
        ) == vstd::wrapping::usize_specs::wrapping_add(wrap_sum(a), wrap_sum(b)),
{
    lemma_inclusion_exclusion(a, b);
    lemma_wsum_is_mod(union_seq(a, b), union_seq(a, b).len() as int);
    lemma_wsum_is_mod(inter_seq(a, b), inter_seq(a, b).len() as int);
    lemma_wsum_is_mod(a, a.len() as int);
    lemma_wsum_is_mod(b, b.len() as int);
    lemma_wadd_mod(
        wrap_sum(union_seq(a, b)),
        wrap_sum(inter_seq(a, b)),
        sum_seq(union_seq(a, b)),
        sum_seq(inter_seq(a, b)),
    );
    lemma_wadd_mod(wrap_sum(a), wrap_sum(b), sum_seq(a), sum_seq(b));
}

proof fn lemma_zero_sum_to(s: Seq<u16>, k: int)
    requires
        0 <= k <= s.len(),
        sum_to(s, k) == 0,
    ensures
        forall|i: int| 0 <= i < k ==> s[i] == 0,
    decreases k,
{
    if k > 0 {
        lemma_sum_to_nonneg(s, k - 1);
        lemma_zero_sum_to(s, k - 1);
    }
}

proof fn lemma_sum_to_nonneg(s: Seq<u16>, k: int)
    ensures
        0 <= sum_to(s, k),
    decreases k,
{
    if k > 0 {
        lemma_sum_to_nonneg(s, k - 1);
    }
}

/// A multiset is empty exactly when its exact total is zero.
pub proof fn lemma_empty_iff_zero_total(s: Seq<u16>)
    ensures
        all_zero(s) <==> sum_seq(s) == 0,
{
    if all_zero(s) {
        lemma_all_zero_sum_to(s, s.len() as int);
    }
    if sum_seq(s) == 0 {
        lemma_zero_sum_to(s, s.len() as int);
    }
}

proof fn lemma_all_zero_sum_to(s: Seq<u16>, k: int)
    requires
        k <= s.len(),
        all_zero(s),
    ensures
        sum_to(s, k) == 0,
    decreases k,
{
    if k > 0 {
        lemma_all_zero_sum_to(s, k - 1);
    }
}

/// Mutual inclusion is equality: two equal-capacity multisets are each
/// a subset of the other exactly when they are the same multiset.
pub proof fn lemma_subset_antisymmetric(a: Seq<u16>, b: Seq<u16>)
    requires
        a.len() == b.len(),
    ensures
        (subset_seq(a, b) && subset_seq(b, a)) <==> a == b,
{
    if subset_seq(a, b) && subset_seq(b, a) {
        assert(a =~= b);
    }
}

proof fn lemma_restrict_sum_to(s: Seq<u16>, e: int, k: int)
    requires
        k <= s.len(),
    ensures
        sum_to(restrict_seq(s, e), k) == if 0 <= e < k {
            s[e] as int
        } else {
            0
        },
    decreases k,
{
    if k > 0 {
        lemma_restrict_sum_to(s, e, k - 1);
    }
}

proof fn lemma_restrict_wsum_to(s: Seq<u16>, e: int, k: int)
    requires
        k <= s.len(),
    ensures
        wsum_to(restrict_seq(s, e), k) == if 0 <= e < k {
            s[e] as usize
        } else {
            0usize
        },
    decreases k,
{
    if k > 0 {
        lemma_restrict_wsum_to(s, e, k - 1);
    }
}

/// Restricting to one element and then taking the total yields that
/// element's original multiplicity, or zero when the element is out of
/// range; a single multiplicity never wraps.
pub proof fn lemma_restrict_then_total(s: Seq<u16>, e: int)
    ensures
        wrap_sum(restrict_seq(s, e)) as int == if 0 <= e < s.len() {
            s[e] as int
        } else {
            0
        },
        sum_seq(restrict_seq(s, e)) == wrap_sum(restrict_seq(s, e)) as int,
{
    lemma_restrict_sum_to(s, e, s.len() as int);
    lemma_restrict_wsum_to(s, e, s.len() as int);
}

} // verus!
