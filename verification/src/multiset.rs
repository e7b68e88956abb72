//! The multiset value type: fixed capacity, one `u16` multiplicity per
//! domain element, plus construction, queries and the scalar baseline
//! of every operation.

use crate::model::{
    all_zero, any_lesser_seq, cnz_to, count_nonzero_seq, disjoint_seq, inter_seq, max16, max_seq,
    max_to, min16, min_seq, min_to, restrict_seq, subset_seq, union_seq, wrap_sum, wsum_to,
};
use vstd::prelude::*;

verus! {

/// Why a checked constructor refused its input.
#[derive(Clone, Copy, Debug, PartialEq, Eq, Structural)]
pub enum MultisetError {
    /// The source slice does not hold exactly one value per element.
    LengthMismatch,
}

/// How two multisets of equal capacity relate under the pointwise partial
/// order. Two multisets can be incomparable: neither a subset of the other.
#[derive(Clone, Copy, Debug, PartialEq, Eq, Structural)]
pub enum MultisetOrd {
    Less,
    Greater,
    Equal,
    Incomparable,
}

/// A multiset over a domain of `SIZE` elements; element `i` carries the
/// multiplicity stored at index `i`. No reordering ever occurs.
#[derive(Clone, Debug)]
pub struct Multiset2<const SIZE: usize> {
    data: Vec<u16>,
}

impl<const SIZE: usize> View for Multiset2<SIZE> {
    type V = Seq<u16>;

    closed spec fn view(&self) -> Seq<u16> {
        self.data@
    }
}

impl<const SIZE: usize> Multiset2<SIZE> {
    /// The storage holds exactly one multiplicity per domain element.
    pub open spec fn wf(&self) -> bool {
        self@.len() == SIZE
    }

    /// The capacity: how many distinct elements the multiset tracks.
    pub fn len() -> (n: usize)
        ensures
            n == SIZE,
    {
        SIZE
    }

    /// A multiset with every multiplicity zero.
    pub fn empty() -> (r: Self)
        ensures
            r.wf(),
            all_zero(r@),
    {
        Self::repeat(0)
    }

    /// A multiset with every multiplicity equal to `elem`.
    pub fn repeat(elem: u16) -> (r: Self)
        ensures
            r.wf(),
            forall|i: int| 0 <= i < SIZE ==> r@[i] == elem,
    {
        let mut data: Vec<u16> = Vec::new();
        let mut i: usize = 0;
        while i < SIZE
            invariant
                i <= SIZE,
                data@.len() == i,
                forall|j: int| 0 <= j < i ==> data@[j] == elem,
            decreases SIZE - i,
        {
            data.push(elem);
            i += 1;
        }
        Multiset2 { data }
    }

    /// A multiset whose multiplicities are read from `slice`, which must
    /// hold exactly one value per element; any other length is refused.
    pub fn from_slice(slice: &[u16]) -> (r: Result<Self, MultisetError>)
        ensures
            match r {
                Ok(m) => slice@.len() == SIZE && m.wf() && m@ == slice@,
                Err(e) => slice@.len() != SIZE && e == MultisetError::LengthMismatch,
            },
    {
        if slice.len() != SIZE {
            return Err(MultisetError::LengthMismatch);
        }
        Ok(Self::from_sequence(slice))
    }

    /// A multiset filled from an ordered source of any length: the first
    /// `SIZE` values land on elements `0..`, missing positions default to
    /// zero, and values beyond the capacity are discarded.
    pub fn from_sequence(values: &[u16]) -> (r: Self)
        ensures
            r.wf(),
            forall|i: int|
                0 <= i < SIZE ==> r@[i] == (if i < values@.len() {
                    values@[i]
                } else {
                    0u16
                }),
    {
        let mut data: Vec<u16> = Vec::new();
        let mut i: usize = 0;
        while i < SIZE
            invariant
                i <= SIZE,
                data@.len() == i,
                forall|j: int|
                    0 <= j < i ==> data@[j] == (if j < values@.len() {
                        values@[j]
                    } else {
                        0u16
                    }),
            decreases SIZE - i,
        {
            if i < values.len() {
                data.push(values[i]);
            } else {
                data.push(0);
            }
            i += 1;
        }
        Multiset2 { data }
    }

    /// The multiplicity of element `elem`.
    pub fn get(&self, elem: usize) -> (r: u16)
        requires
            self.wf(),
            elem < SIZE,
        ensures
            r == self@[elem as int],
    {
        self.data[elem]
    }

    /// The multiplicities as a plain vector, in element order.
    pub fn to_vec(&self) -> (r: Vec<u16>)
        requires
            self.wf(),
        ensures
            r@ == self@,
    {
        let mut out: Vec<u16> = Vec::new();
        let mut i: usize = 0;
        while i < self.data.len()
            invariant
                self.wf(),
                i <= SIZE,
                out@.len() == i,
                forall|j: int| 0 <= j < i ==> out@[j] == self@[j],
            decreases SIZE - i,
        {
            out.push(self.data[i]);
            i += 1;
        }
        proof {
            assert(out@ =~= self@);
        }
        out
    }

    /// True iff `elem` is in range and has at least one member.
    pub fn contains(&self, elem: usize) -> (r: bool)
        requires
            self.wf(),
        ensures
            r == (elem < SIZE && self@[elem as int] > 0),
    {
        elem < SIZE && self.data[elem] > 0
    }

    /// True iff `elem` has at least one member; `elem` must be in range,
    /// which the caller establishes.
    pub fn contains_unchecked(&self, elem: usize) -> (r: bool)
        requires
            self.wf(),
            elem < SIZE,
        ensures
            r == (self@[elem as int] > 0),
    {
        self.data[elem] > 0
    }

    /// Wraps finished storage in the value type; for the kernels, which
    /// assemble their output elementwise.
    pub(crate) fn from_data(data: Vec<u16>) -> (r: Self)
        requires
            data@.len() == SIZE,
        ensures
            r.wf(),
            r@ == data@,
    {
        Multiset2 { data }
    }

    /// The storage itself, read-only; for the chunking engine.
    pub(crate) fn data_ref(&self) -> (r: &Vec<u16>)
        ensures
            r@ == self@,
    {
        &self.data
    }

    /// The intersection: elementwise minimum. Scalar baseline.
    pub fn intersection(&self, other: &Self) -> (r: Self)
        requires
            self.wf(),
            other.wf(),
        ensures
            r.wf(),
            r@ == inter_seq(self@, other@),
    {
        let mut out: Vec<u16> = Vec::new();
        let mut i: usize = 0;
        while i < SIZE
            invariant
                self.wf(),
                other.wf(),
                i <= SIZE,
                out@.len() == i,
                forall|j: int| 0 <= j < i ==> out@[j] == min16(self@[j], other@[j]),
            decreases SIZE - i,
        {
            let a = self.data[i];
            let b = other.data[i];
            out.push(if a <= b { a } else { b });
            i += 1;
        }
        proof {
            assert(out@ =~= inter_seq(self@, other@));
        }
        Multiset2 { data: out }
    }

    /// The union: elementwise maximum. Scalar baseline.
    pub fn union(&self, other: &Self) -> (r: Self)
        requires
            self.wf(),
            other.wf(),
        ensures
            r.wf(),
            r@ == union_seq(self@, other@),
    {
        let mut out: Vec<u16> = Vec::new();
        let mut i: usize = 0;
        while i < SIZE
            invariant
                self.wf(),
                other.wf(),
                i <= SIZE,
                out@.len() == i,
                forall|j: int| 0 <= j < i ==> out@[j] == max16(self@[j], other@[j]),
            decreases SIZE - i,
        {
            let a = self.data[i];
            let b = other.data[i];
            out.push(if a >= b { a } else { b });
            i += 1;
        }
        proof {
            assert(out@ =~= union_seq(self@, other@));
        }
        Multiset2 { data: out }
    }

    /// Sum of all multiplicities, in index order, wrapping around on
    /// overflow. Scalar baseline.
    pub fn total(&self) -> (r: usize)
        requires
            self.wf(),
        ensures
            r == wrap_sum(self@),
    {
        let mut acc: usize = 0;
        let mut i: usize = 0;
        while i < SIZE
            invariant
                self.wf(),
                i <= SIZE,
                acc == wsum_to(self@, i as int),
            decreases SIZE - i,
        {
            acc = acc.wrapping_add(self.data[i] as usize);
            i += 1;
        }
        acc
    }

    /// How many elements hold no members. Scalar baseline.
    pub fn count_non_zero(&self) -> (r: usize)
        requires
            self.wf(),
        ensures
            r as int == count_nonzero_seq(self@),
            r <= SIZE,
    {
        let mut acc: usize = 0;
        let mut i: usize = 0;
        while i < SIZE
            invariant
                self.wf(),
                i <= SIZE,
                acc as int == cnz_to(self@, i as int),
                acc <= i,
            decreases SIZE - i,
        {
            if self.data[i] > 0 {
                acc += 1;
            }
            i += 1;
        }
        acc
    }

    /// How many elements hold at least one member.
    pub fn count_zero(&self) -> (r: usize)
        requires
            self.wf(),
        ensures
            r as int == SIZE - count_nonzero_seq(self@),
    {
        SIZE - self.count_non_zero()
    }

    /// True iff every multiplicity is zero.
    pub fn is_empty(&self) -> (r: bool)
        requires
            self.wf(),
        ensures
            r == all_zero(self@),
    {
        let mut i: usize = 0;
        while i < SIZE
            invariant
                self.wf(),
                i <= SIZE,
                forall|j: int| 0 <= j < i ==> self@[j] == 0,
            decreases SIZE - i,
        {
            if self.data[i] > 0 {
                return false;
            }
            i += 1;
        }
        true
    }

    /// True iff exactly one element holds members.
    pub fn is_singleton(&self) -> (r: bool)
        requires
            self.wf(),
        ensures
            r == (count_nonzero_seq(self@) == 1),
    {
        self.count_non_zero() == 1
    }

    /// True iff every multiplicity of `self` is at most the matching one
    /// of `other`. Scalar baseline.
    pub fn is_subset(&self, other: &Self) -> (r: bool)
        requires
            self.wf(),
            other.wf(),
        ensures
            r == subset_seq(self@, other@),
    {
        let mut i: usize = 0;
        while i < SIZE
            invariant
                self.wf(),
                other.wf(),
                i <= SIZE,
                forall|j: int| 0 <= j < i ==> self@[j] <= other@[j],
            decreases SIZE - i,
        {
            if self.data[i] > other.data[i] {
                return false;
            }
            i += 1;
        }
        true
    }

    /// True iff every multiplicity of `self` is at least the matching one
    /// of `other`. Scalar baseline.
    pub fn is_superset(&self, other: &Self) -> (r: bool)
        requires
            self.wf(),
            other.wf(),
        ensures
            r == subset_seq(other@, self@),
    {
        other.is_subset(self)
    }

    /// True iff some multiplicity of `self` is strictly below the
    /// matching one of `other`. Scalar baseline.
    pub fn is_any_lesser(&self, other: &Self) -> (r: bool)
        requires
            self.wf(),
            other.wf(),
        ensures
            r == any_lesser_seq(self@, other@),
    {
        let mut i: usize = 0;
        while i < SIZE
            invariant
                self.wf(),
                other.wf(),
                i <= SIZE,
                forall|j: int| 0 <= j < i ==> self@[j] >= other@[j],
            decreases SIZE - i,
        {
            if self.data[i] < other.data[i] {
                return true;
            }
            i += 1;
        }
        false
    }

    /// True iff some multiplicity of `self` is strictly above the
    /// matching one of `other`. Scalar baseline.
    pub fn is_any_greater(&self, other: &Self) -> (r: bool)
        requires
            self.wf(),
            other.wf(),
        ensures
            r == any_lesser_seq(other@, self@),
    {
        other.is_any_lesser(self)
    }

    /// True iff `self` is a subset of `other` and differs from it.
    pub fn is_proper_subset(&self, other: &Self) -> (r: bool)
        requires
            self.wf(),
            other.wf(),
        ensures
            r == (subset_seq(self@, other@) && any_lesser_seq(self@, other@)),
    {
        self.is_subset(other) && self.is_any_lesser(other)
    }

    /// True iff `self` is a superset of `other` and differs from it.
    pub fn is_proper_superset(&self, other: &Self) -> (r: bool)
        requires
            self.wf(),
            other.wf(),
        ensures
            r == (subset_seq(other@, self@) && any_lesser_seq(other@, self@)),
    {
        self.is_superset(other) && self.is_any_greater(other)
    }

    /// True iff no element is held by both multisets. Scalar baseline.
    pub fn is_disjoint(&self, other: &Self) -> (r: bool)
        requires
            self.wf(),
            other.wf(),
        ensures
            r == disjoint_seq(self@, other@),
    {
        let mut i: usize = 0;
        while i < SIZE
            invariant
                self.wf(),
                other.wf(),
                i <= SIZE,
                forall|j: int| 0 <= j < i ==> min16(self@[j], other@[j]) == 0,
            decreases SIZE - i,
        {
            if self.data[i] > 0 && other.data[i] > 0 {
                return false;
            }
            i += 1;
        }
        true
    }

    /// True iff the two multisets hold the same multiplicities.
    pub fn equals(&self, other: &Self) -> (r: bool)
        requires
            self.wf(),
            other.wf(),
        ensures
            r == (self@ == other@),
    {
        let mut i: usize = 0;
        while i < SIZE
            invariant
                self.wf(),
                other.wf(),
                i <= SIZE,
                forall|j: int| 0 <= j < i ==> self@[j] == other@[j],
            decreases SIZE - i,
        {
            if self.data[i] != other.data[i] {
                return false;
            }
            i += 1;
        }
        proof {
            assert(self@ =~= other@);
        }
        true
    }

    /// Where the two multisets stand in the pointwise partial order:
    /// equal, proper subset, proper superset, or incomparable.
    pub fn compare(&self, other: &Self) -> (r: MultisetOrd)
        requires
            self.wf(),
            other.wf(),
        ensures
            r == (if self@ == other@ {
                MultisetOrd::Equal
            } else if subset_seq(self@, other@) {
                MultisetOrd::Less
            } else if subset_seq(other@, self@) {
                MultisetOrd::Greater
            } else {
                MultisetOrd::Incomparable
            }),
    {
        let sub = self.is_subset(other);
        let sup = self.is_superset(other);
        if sub && sup {
            proof {
                assert(self@ =~= other@);
            }
            MultisetOrd::Equal
        } else if sub {
            MultisetOrd::Less
        } else if sup {
            MultisetOrd::Greater
        } else {
            MultisetOrd::Incomparable
        }
    }

    /// The largest multiplicity; zero for an empty domain.
    pub fn max(&self) -> (r: u16)
        requires
            self.wf(),
        ensures
            r == max_seq(self@),
            forall|i: int| 0 <= i < SIZE ==> self@[i] <= r,
    {
        let mut m: u16 = 0;
        let mut i: usize = 0;
        while i < SIZE
            invariant
                self.wf(),
                i <= SIZE,
                m == max_to(self@, i as int),
                forall|j: int| 0 <= j < i ==> self@[j] <= m,
            decreases SIZE - i,
        {
            let v = self.data[i];
            if v > m {
                m = v;
            }
            i += 1;
        }
        m
    }

    /// The smallest multiplicity; `u16::MAX` for an empty domain.
    pub fn min(&self) -> (r: u16)
        requires
            self.wf(),
        ensures
            r == min_seq(self@),
            forall|i: int| 0 <= i < SIZE ==> self@[i] >= r,
    {
        let mut m: u16 = u16::MAX;
        let mut i: usize = 0;
        while i < SIZE
            invariant
                self.wf(),
                i <= SIZE,
                m == min_to(self@, i as int),
                forall|j: int| 0 <= j < i ==> self@[j] >= m,
            decreases SIZE - i,
        {
            let v = self.data[i];
            if v < m {
                m = v;
            }
            i += 1;
        }
        m
    }

    /// The first element carrying the largest multiplicity, with that
    /// multiplicity. The scan runs in index order and replaces the
    /// current extreme only on a strict improvement, so ties keep the
    /// lowest index.
    pub fn argmax(&self) -> (r: (usize, u16))
        requires
            self.wf(),
            SIZE > 0,
        ensures
            r.0 < SIZE,
            r.1 == self@[r.0 as int],
            forall|i: int| 0 <= i < SIZE ==> self@[i] <= r.1,
            forall|i: int| 0 <= i < r.0 ==> self@[i] < r.1,
    {
        let mut best: u16 = self.data[0];
        let mut at: usize = 0;
        let mut i: usize = 1;
        while i < SIZE
            invariant
                self.wf(),
                SIZE > 0,
                at < i <= SIZE,
                best == self@[at as int],
                forall|j: int| 0 <= j < i ==> self@[j] <= best,
                forall|j: int| 0 <= j < at ==> self@[j] < best,
            decreases SIZE - i,
        {
            let v = self.data[i];
            if v > best {
                best = v;
                at = i;
            }
            i += 1;
        }
        (at, best)
    }

    /// The first element carrying the smallest multiplicity, with that
    /// multiplicity. The returned index is the element's position in the
    /// whole multiset, and ties keep the lowest index.
    pub fn argmin(&self) -> (r: (usize, u16))
        requires
            self.wf(),
            SIZE > 0,
        ensures
            r.0 < SIZE,
            r.1 == self@[r.0 as int],
            forall|i: int| 0 <= i < SIZE ==> self@[i] >= r.1,
            forall|i: int| 0 <= i < r.0 ==> self@[i] > r.1,
    {
        let mut best: u16 = self.data[0];
        let mut at: usize = 0;
        let mut i: usize = 1;
        while i < SIZE
            invariant
                self.wf(),
                SIZE > 0,
                at < i <= SIZE,
                best == self@[at as int],
                forall|j: int| 0 <= j < i ==> self@[j] >= best,
                forall|j: int| 0 <= j < at ==> self@[j] > best,
            decreases SIZE - i,
        {
            let v = self.data[i];
            if v < best {
                best = v;
                at = i;
            }
            i += 1;
        }
        (at, best)
    }

    /// The first element carrying the largest multiplicity.
    pub fn imax(&self) -> (r: usize)
        requires
            self.wf(),
            SIZE > 0,
        ensures
            r < SIZE,
            forall|i: int| 0 <= i < SIZE ==> self@[i] <= self@[r as int],
            forall|i: int| 0 <= i < r ==> self@[i] < self@[r as int],
    {
        self.argmax().0
    }

    /// The first element carrying the smallest multiplicity.
    pub fn imin(&self) -> (r: usize)
        requires
            self.wf(),
            SIZE > 0,
        ensures
            r < SIZE,
            forall|i: int| 0 <= i < SIZE ==> self@[i] >= self@[r as int],
            forall|i: int| 0 <= i < r ==> self@[i] > self@[r as int],
    {
        self.argmin().0
    }

    /// Sets every multiplicity to zero.
    pub fn clear(&mut self)
        requires
            old(self).wf(),
        ensures
            final(self).wf(),
            all_zero(final(self)@),
    {
        let mut i: usize = 0;
        while i < SIZE
            invariant
                self.wf(),
                i <= SIZE,
                forall|j: int| 0 <= j < i ==> self@[j] == 0,
            decreases SIZE - i,
        {
            self.data.set(i, 0);
            i += 1;
        }
    }

    /// Zeroes every multiplicity except the one of `elem`, which keeps
    /// its count. An out-of-range `elem` leaves the empty multiset; that
    /// is the defined behaviour, not an error.
    pub fn choose_elem(&mut self, elem: usize)
        requires
            old(self).wf(),
        ensures
            final(self).wf(),
            final(self)@ == restrict_seq(old(self)@, elem as int),
    {
        let mut out: Vec<u16> = Vec::new();
        let mut i: usize = 0;
        while i < SIZE
            invariant
                self.wf(),
                self@ == old(self)@,
                i <= SIZE,
                out@.len() == i,
                forall|j: int|
                    0 <= j < i ==> out@[j] == (if j == elem {
                        self@[j]
                    } else {
                        0u16
                    }),
            decreases SIZE - i,
        {
            if i == elem {
                out.push(self.data[i]);
            } else {
                out.push(0);
            }
            i += 1;
        }
        self.data = out;
        proof {
            assert(final(self)@ =~= restrict_seq(old(self)@, elem as int));
        }
    }
}

} // verus!
