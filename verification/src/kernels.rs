//! The per-operation kernels and the per-call dispatch.
//!
//! Every operation with vector acceleration is a thin adapter over one
//! of the chunking engine's primitives: a lane kernel paired with the
//! spec-level operation it computes, handed to `zip_map_chunks`,
//! `fold_chunks`, `zip_all_chunks` or `zip_any_chunks` with the active
//! tier's lane count. Each adapter's contract states that its result
//! equals the scalar baseline's, for every capacity and every lane
//! count, so a tier switch can never change an answer.
//!
//! The `*_tiered` entry points route a capability tier to the matching
//! kernel with a single tag comparison, as a cached dispatcher would.

use crate::chunks::{fold_chunks, zip_all_chunks, zip_any_chunks, zip_map_chunks};
use crate::model::{
    any_lesser_seq, cnz_to, count_nonzero_seq, disjoint_seq, fold_to, inter_seq, max16, min16,
    subset_seq, union_seq, wrap_sum, wsum_to,
};
use crate::multiset::Multiset2;
use crate::tier::Tier;
use vstd::prelude::*;

verus! {

/// What the intersection kernel computes on one pair of lanes.
pub open spec fn min_op() -> spec_fn(u16, u16) -> u16 {
    |x: u16, y: u16| min16(x, y)
}

/// One lane of the intersection kernel.
fn lane_min(x: u16, y: u16) -> (r: u16)
    ensures
        r == min_op()(x, y),
{
    if x <= y {
        x
    } else {
        y
    }
}

/// What the union kernel computes on one pair of lanes.
pub open spec fn max_op() -> spec_fn(u16, u16) -> u16 {
    |x: u16, y: u16| max16(x, y)
}

/// One lane of the union kernel.
fn lane_max(x: u16, y: u16) -> (r: u16)
    ensures
        r == max_op()(x, y),
{
    if x >= y {
        x
    } else {
        y
    }
}

/// What the total kernel folds in per lane: a wrapping add.
pub open spec fn wadd_op() -> spec_fn(usize, u16) -> usize {
    |acc: usize, x: u16| vstd::wrapping::usize_specs::wrapping_add(acc, x as usize)
}

/// One lane of the total kernel.
fn lane_wadd(acc: usize, x: u16) -> (r: usize)
    ensures
        r == wadd_op()(acc, x),
{
    acc.wrapping_add(x as usize)
}

/// What the non-zero count folds in per lane.
pub open spec fn cnz_op() -> spec_fn(usize, u16) -> usize {
    |acc: usize, x: u16| vstd::wrapping::usize_specs::wrapping_add(
        acc,
        if x > 0 {
            1usize
        } else {
            0usize
        },
    )
}

/// One lane of the non-zero count kernel.
fn lane_cnz(acc: usize, x: u16) -> (r: usize)
    ensures
        r == cnz_op()(acc, x),
{
    acc.wrapping_add(
        if x > 0 {
            1
        } else {
            0
        },
    )
}

/// What the subset kernel decides on one pair of lanes.
pub open spec fn le_op() -> spec_fn(u16, u16) -> bool {
    |x: u16, y: u16| x <= y
}

/// One lane of the subset kernel.
fn lane_le(x: u16, y: u16) -> (r: bool)
    ensures
        r == le_op()(x, y),
{
    x <= y
}

/// What the disjointness kernel decides on one pair of lanes.
pub open spec fn disj_op() -> spec_fn(u16, u16) -> bool {
    |x: u16, y: u16| min16(x, y) == 0
}

/// One lane of the disjointness kernel.
fn lane_disjoint(x: u16, y: u16) -> (r: bool)
    ensures
        r == disj_op()(x, y),
{
    x == 0 || y == 0
}

/// What the existential `<` kernel decides on one pair of lanes.
pub open spec fn lt_op() -> spec_fn(u16, u16) -> bool {
    |x: u16, y: u16| x < y
}

/// One lane of the existential `<` kernel.
fn lane_lt(x: u16, y: u16) -> (r: bool)
    ensures
        r == lt_op()(x, y),
{
    x < y
}

/// Folding the wrapping-add kernel in index order is the wrapping sum.
proof fn lemma_fold_is_wsum(s: Seq<u16>, k: int)
    ensures
        fold_to(s, 0usize, wadd_op(), k) == wsum_to(s, k),
    decreases k,
{
    if k > 0 {
        lemma_fold_is_wsum(s, k - 1);
    }
}

/// Folding the count kernel in index order is the non-zero count; the
/// count never exceeds the prefix length, so it never wraps.
proof fn lemma_fold_is_cnz(s: Seq<u16>, k: int)
    requires
        0 <= k <= usize::MAX,
    ensures
        fold_to(s, 0usize, cnz_op(), k) as int == cnz_to(s, k),
        cnz_to(s, k) <= k,
    decreases k,
{
    if k > 0 {
        lemma_fold_is_cnz(s, k - 1);
    }
}

impl<const SIZE: usize> Multiset2<SIZE> {
    /// Intersection, `w` lanes per chunk with a scalar remainder pass.
    pub fn intersection_chunks(&self, other: &Self, w: usize) -> (r: Self)
        requires
            self.wf(),
            other.wf(),
            1 <= w,
        ensures
            r.wf(),
            r@ == inter_seq(self@, other@),
    {
        let out = zip_map_chunks(self.data_ref(), other.data_ref(), w, &lane_min, Ghost(min_op()));
        proof {
            assert forall|i: int| 0 <= i < SIZE implies out@[i] == inter_seq(self@, other@)[i] by {
                assert(out@[i] == min_op()(self@[i], other@[i]));
            }
            assert(out@ =~= inter_seq(self@, other@));
        }
        Self::from_data(out)
    }

    /// Routes the intersection to the given tier's kernel.
    pub fn intersection_tiered(&self, other: &Self, tier: Tier) -> (r: Self)
        requires
            self.wf(),
            other.wf(),
        ensures
            r.wf(),
            r@ == inter_seq(self@, other@),
    {
        match tier {
            Tier::Scalar => self.intersection(other),
            _ => self.intersection_chunks(other, tier.lanes()),
        }
    }

    /// Union, `w` lanes per chunk with a scalar remainder pass.
    pub fn union_chunks(&self, other: &Self, w: usize) -> (r: Self)
        requires
            self.wf(),
            other.wf(),
            1 <= w,
        ensures
            r.wf(),
            r@ == union_seq(self@, other@),
    {
        let out = zip_map_chunks(self.data_ref(), other.data_ref(), w, &lane_max, Ghost(max_op()));
        proof {
            assert forall|i: int| 0 <= i < SIZE implies out@[i] == union_seq(self@, other@)[i] by {
                assert(out@[i] == max_op()(self@[i], other@[i]));
            }
            assert(out@ =~= union_seq(self@, other@));
        }
        Self::from_data(out)
    }

    /// Routes the union to the given tier's kernel.
    pub fn union_tiered(&self, other: &Self, tier: Tier) -> (r: Self)
        requires
            self.wf(),
            other.wf(),
        ensures
            r.wf(),
            r@ == union_seq(self@, other@),
    {
        match tier {
            Tier::Scalar => self.union(other),
            _ => self.union_chunks(other, tier.lanes()),
        }
    }

    /// Wrapping total, folded `w` lanes per chunk in index order with a
    /// scalar remainder pass; the wrapped result is the scalar
    /// baseline's exactly.
    pub fn total_chunks(&self, w: usize) -> (r: usize)
        requires
            self.wf(),
            1 <= w,
        ensures
            r == wrap_sum(self@),
    {
        let acc = fold_chunks(self.data_ref(), w, 0usize, &lane_wadd, Ghost(wadd_op()));
        proof {
            lemma_fold_is_wsum(self@, SIZE as int);
        }
        acc
    }

    /// Routes the total to the given tier's kernel.
    pub fn total_tiered(&self, tier: Tier) -> (r: usize)
        requires
            self.wf(),
        ensures
            r == wrap_sum(self@),
    {
        match tier {
            Tier::Scalar => self.total(),
            _ => self.total_chunks(tier.lanes()),
        }
    }

    /// Non-zero count, folded `w` lanes per chunk with a scalar
    /// remainder pass.
    pub fn count_non_zero_chunks(&self, w: usize) -> (r: usize)
        requires
            self.wf(),
            1 <= w,
        ensures
            r as int == count_nonzero_seq(self@),
            r <= SIZE,
    {
        let acc = fold_chunks(self.data_ref(), w, 0usize, &lane_cnz, Ghost(cnz_op()));
        proof {
            lemma_fold_is_cnz(self@, SIZE as int);
        }
        acc
    }

    /// Routes the non-zero count to the given tier's kernel.
    pub fn count_non_zero_tiered(&self, tier: Tier) -> (r: usize)
        requires
            self.wf(),
        ensures
            r as int == count_nonzero_seq(self@),
            r <= SIZE,
    {
        match tier {
            Tier::Scalar => self.count_non_zero(),
            _ => self.count_non_zero_chunks(tier.lanes()),
        }
    }

    /// Subset test, one chunk of `w` lanes at a time; a failing chunk
    /// ends the walk early.
    pub fn is_subset_chunks(&self, other: &Self, w: usize) -> (r: bool)
        requires
            self.wf(),
            other.wf(),
            1 <= w,
        ensures
            r == subset_seq(self@, other@),
    {
        let r = zip_all_chunks(self.data_ref(), other.data_ref(), w, &lane_le, Ghost(le_op()));
        proof {
            if r {
                assert forall|i: int| 0 <= i < SIZE implies self@[i] <= other@[i] by {
                    assert(le_op()(self@[i], other@[i]));
                }
            } else {
                let i = choose|i: int| 0 <= i < SIZE && !le_op()(self@[i], other@[i]);
                assert(self@[i] > other@[i]);
            }
        }
        r
    }

    /// Routes the subset test to the given tier's kernel.
    pub fn is_subset_tiered(&self, other: &Self, tier: Tier) -> (r: bool)
        requires
            self.wf(),
            other.wf(),
        ensures
            r == subset_seq(self@, other@),
    {
        match tier {
            Tier::Scalar => self.is_subset(other),
            _ => self.is_subset_chunks(other, tier.lanes()),
        }
    }

    /// Superset test, one chunk of `w` lanes at a time.
    pub fn is_superset_chunks(&self, other: &Self, w: usize) -> (r: bool)
        requires
            self.wf(),
            other.wf(),
            1 <= w,
        ensures
            r == subset_seq(other@, self@),
    {
        other.is_subset_chunks(self, w)
    }

    /// Routes the superset test to the given tier's kernel.
    pub fn is_superset_tiered(&self, other: &Self, tier: Tier) -> (r: bool)
        requires
            self.wf(),
            other.wf(),
        ensures
            r == subset_seq(other@, self@),
    {
        match tier {
            Tier::Scalar => self.is_superset(other),
            _ => self.is_superset_chunks(other, tier.lanes()),
        }
    }

    /// Disjointness test, one chunk of `w` lanes at a time, ending
    /// early on the first chunk where some element is held by both.
    pub fn is_disjoint_chunks(&self, other: &Self, w: usize) -> (r: bool)
        requires
            self.wf(),
            other.wf(),
            1 <= w,
        ensures
            r == disjoint_seq(self@, other@),
    {
        let r = zip_all_chunks(
            self.data_ref(),
            other.data_ref(),
            w,
            &lane_disjoint,
            Ghost(disj_op()),
        );
        proof {
            if r {
                assert forall|i: int| 0 <= i < SIZE implies min16(self@[i], other@[i]) == 0 by {
                    assert(disj_op()(self@[i], other@[i]));
                }
            } else {
                let i = choose|i: int| 0 <= i < SIZE && !disj_op()(self@[i], other@[i]);
                assert(min16(self@[i], other@[i]) != 0);
            }
        }
        r
    }

    /// Routes the disjointness test to the given tier's kernel.
    pub fn is_disjoint_tiered(&self, other: &Self, tier: Tier) -> (r: bool)
        requires
            self.wf(),
            other.wf(),
        ensures
            r == disjoint_seq(self@, other@),
    {
        match tier {
            Tier::Scalar => self.is_disjoint(other),
            _ => self.is_disjoint_chunks(other, tier.lanes()),
        }
    }

    /// Existential `<` test, one chunk of `w` lanes at a time, ending
    /// early on the first chunk that holds a witness.
    pub fn is_any_lesser_chunks(&self, other: &Self, w: usize) -> (r: bool)
        requires
            self.wf(),
            other.wf(),
            1 <= w,
        ensures
            r == any_lesser_seq(self@, other@),
    {
        let r = zip_any_chunks(self.data_ref(), other.data_ref(), w, &lane_lt, Ghost(lt_op()));
        proof {
            if r {
                let i = choose|i: int| 0 <= i < SIZE && lt_op()(self@[i], other@[i]);
                assert(self@[i] < other@[i]);
            } else {
                assert forall|i: int| 0 <= i < SIZE implies !(self@[i] < other@[i]) by {
                    assert(!lt_op()(self@[i], other@[i]));
                }
            }
        }
        r
    }

    /// Routes the existential `<` test to the given tier's kernel.
    pub fn is_any_lesser_tiered(&self, other: &Self, tier: Tier) -> (r: bool)
        requires
            self.wf(),
            other.wf(),
        ensures
            r == any_lesser_seq(self@, other@),
    {
        match tier {
            Tier::Scalar => self.is_any_lesser(other),
            _ => self.is_any_lesser_chunks(other, tier.lanes()),
        }
    }

    /// Existential `>` test, one chunk of `w` lanes at a time.
    pub fn is_any_greater_chunks(&self, other: &Self, w: usize) -> (r: bool)
        requires
            self.wf(),
            other.wf(),
            1 <= w,
        ensures
            r == any_lesser_seq(other@, self@),
    {
        other.is_any_lesser_chunks(self, w)
    }

    /// Routes the existential `>` test to the given tier's kernel.
    pub fn is_any_greater_tiered(&self, other: &Self, tier: Tier) -> (r: bool)
        requires
            self.wf(),
            other.wf(),
        ensures
            r == any_lesser_seq(other@, self@),
    {
        match tier {
            Tier::Scalar => self.is_any_greater(other),
            _ => self.is_any_greater_chunks(other, tier.lanes()),
        }
    }
}

} // verus!
