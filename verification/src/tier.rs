//! The capability tier: which lane width the host's vector unit can
//! process per instruction, ranked from widest to scalar-only.
//!
//! Probing the host is the caller's business; the choice among probed
//! capabilities is pure logic and lives here.

use vstd::prelude::*;

verus! {

/// A vector capability tier. `Wide` processes sixteen 16-bit lanes per
/// chunk, `Narrow` eight; `Scalar` is the element-by-element baseline.
#[derive(Clone, Copy, Debug, PartialEq, Eq, Structural)]
pub enum Tier {
    Scalar,
    Narrow,
    Wide,
}

impl Tier {
    /// How many 16-bit lanes one chunk of this tier holds.
    pub open spec fn lanes_spec(self) -> int {
        match self {
            Tier::Scalar => 1,
            Tier::Narrow => 8,
            Tier::Wide => 16,
        }
    }

    /// The chunk width of this tier.
    pub fn lanes(&self) -> (w: usize)
        ensures
            w as int == self.lanes_spec(),
            1 <= w <= 16,
    {
        match self {
            Tier::Scalar => 1,
            Tier::Narrow => 8,
            Tier::Wide => 16,
        }
    }
}

/// The tier that `select_tier` picks from the probed capabilities.
pub open spec fn select_tier_spec(avx2: bool, avx: bool, sse42: bool) -> Tier {
    if avx2 || avx {
        Tier::Wide
    } else if sse42 {
        Tier::Narrow
    } else {
        Tier::Scalar
    }
}

/// Picks the most capable tier the host supports, widest first, falling
/// back to the scalar baseline when no vector extension is available.
/// The flags come from a one-time probe of the host CPU; the choice is
/// pure, so repeating it always converges to the same tier.
pub fn select_tier(avx2: bool, avx: bool, sse42: bool) -> (t: Tier)
    ensures
        t == select_tier_spec(avx2, avx, sse42),
{
    if avx2 || avx {
        Tier::Wide
    } else if sse42 {
        Tier::Narrow
    } else {
        Tier::Scalar
    }
}

} // verus!
