//! Weighted random restriction.
//!
//! The multiset never owns or seeds a generator: one is handed in per
//! call, and only the single uniform draw is taken on trust. Everything
//! that interprets the drawn ticket — the accumulating walk over the
//! multiplicities and the restriction to the hit element — is verified,
//! and is callable on its own with an explicit ticket.

use crate::model::{lemma_wsum_le_sum, restrict_seq, sum_seq, sum_to, wrap_sum};
use crate::multiset::Multiset2;
use rand::Rng;
use vstd::prelude::*;

verus! {

/// rand's standard generator, declared so a caller can hand one across
/// the verified API; its inside stays opaque here.
#[verifier::external_type_specification]
#[verifier::external_body]
pub struct ExStdRng(rand::rngs::StdRng);

/// Relies on rand's `Rng::gen_range` over an inclusive `usize` range:
/// it returns a value of that range, and panics only when the range is
/// empty, which `lo <= hi` rules out.
#[verifier::external_body]
fn draw_ticket(rng: &mut rand::rngs::StdRng, lo: usize, hi: usize) -> (t: usize)
    requires
        lo <= hi,
    ensures
        lo <= t <= hi,
{
    rng.gen_range(lo..=hi)
}

impl<const SIZE: usize> Multiset2<SIZE> {
    /// Restricts the multiset to the element a ticket lands on: walking
    /// the elements in index order and accumulating multiplicities, the
    /// first position whose running sum reaches `ticket` keeps its
    /// count, and every other position is zeroed.
    pub fn choose_by_ticket(&mut self, ticket: usize)
        requires
            old(self).wf(),
            1 <= ticket,
            ticket as int <= sum_seq(old(self)@),
        ensures
            final(self).wf(),
            exists|i: int|
                0 <= i < SIZE && sum_to(old(self)@, i) < ticket as int <= sum_to(
                    old(self)@,
                    i + 1,
                ) && final(self)@ == restrict_seq(old(self)@, i),
    {
        let ghost s = self@;
        let mut idx: usize = 0;
        let mut acc: u128 = 0;
        let mut found: bool = false;
        let mut hit: usize = 0;
        while idx < SIZE
            invariant
                self.wf(),
                self@ == s,
                idx <= SIZE,
                1 <= ticket,
                ticket as int <= sum_seq(s),
                !found ==> acc == sum_to(s, idx as int) && acc < ticket as u128,
                found ==> hit < idx && sum_to(s, hit as int) < ticket as int <= sum_to(
                    s,
                    hit as int + 1,
                ),
            decreases SIZE - idx,
        {
            if !found {
                let v = self.get(idx);
                acc = acc + (v as u128);
                if acc >= ticket as u128 {
                    hit = idx;
                    found = true;
                }
            }
            idx += 1;
        }
        proof {
            if !found {
                assert(sum_to(s, SIZE as int) == sum_seq(s));
                assert(false);
            }
        }
        self.choose_elem(hit);
        proof {
            let i = hit as int;
            assert(sum_to(old(self)@, i) < ticket as int <= sum_to(old(self)@, i + 1)
                && final(self)@ == restrict_seq(old(self)@, i));
        }
    }

    /// Weighted random restriction: draws a ticket uniformly over
    /// `[1, total()]` and keeps the element it lands on, so an element
    /// is kept with probability proportional to its multiplicity; its
    /// own count is not consumed. When the total is zero the multiset
    /// is left unchanged.
    pub fn choose_random(&mut self, rng: &mut rand::rngs::StdRng)
        requires
            old(self).wf(),
        ensures
            final(self).wf(),
            wrap_sum(old(self)@) == 0 ==> final(self)@ == old(self)@,
            wrap_sum(old(self)@) != 0 ==> exists|i: int|
                0 <= i < SIZE && old(self)@[i] > 0 && sum_to(old(self)@, i) < wrap_sum(
                    old(self)@,
                ) as int && final(self)@ == restrict_seq(old(self)@, i),
    {
        let total = self.total();
        if total == 0 {
            return ;
        }
        proof {
            lemma_wsum_le_sum(self@, SIZE as int);
        }
        let ticket = draw_ticket(rng, 1, total);
        let ghost s = self@;
        self.choose_by_ticket(ticket);
        proof {
            let i = choose|i: int|
                0 <= i < SIZE && sum_to(s, i) < ticket as int <= sum_to(s, i + 1) && final(self)@
                    == restrict_seq(s, i);
            assert(s[i] == sum_to(s, i + 1) - sum_to(s, i));
            assert(0 <= i < SIZE && s[i] > 0 && sum_to(s, i) < wrap_sum(s) as int && final(self)@
                == restrict_seq(s, i));
        }
    }
}

} // verus!
