use rand::rngs::StdRng;
use rand::Rng;
use rand::SeedableRng;
use utote::multiset::Multiset2;
use utote::tier::{select_tier, Tier};

#[test]
fn select_tier_prefers_the_widest() {
    assert_eq!(select_tier(true, true, true), Tier::Wide);
    assert_eq!(select_tier(true, false, false), Tier::Wide);
    assert_eq!(select_tier(false, true, true), Tier::Wide);
    assert_eq!(select_tier(false, false, true), Tier::Narrow);
    assert_eq!(select_tier(false, false, false), Tier::Scalar);
}

#[test]
fn lane_counts_per_tier() {
    assert_eq!(Tier::Scalar.lanes(), 1);
    assert_eq!(Tier::Narrow.lanes(), 8);
    assert_eq!(Tier::Wide.lanes(), 16);
}

fn random_counts(n: usize, rng: &mut StdRng) -> Vec<u16> {
    (0..n).map(|_| rng.gen_range(0..10u16)).collect()
}

/// Every tier's kernel must agree with the scalar baseline on every
/// operation, for this capacity and these inputs.
fn check_tiers_once<const N: usize>(rng: &mut StdRng) {
    let av = random_counts(N, rng);
    let bv = random_counts(N, rng);
    let a = Multiset2::<N>::from_slice(&av).unwrap();
    let b = Multiset2::<N>::from_slice(&bv).unwrap();
    let sub = a.intersection(&b);
    for tier in [Tier::Scalar, Tier::Narrow, Tier::Wide] {
        assert_eq!(
            a.intersection_tiered(&b, tier).to_vec(),
            a.intersection(&b).to_vec()
        );
        assert_eq!(a.union_tiered(&b, tier).to_vec(), a.union(&b).to_vec());
        assert_eq!(a.total_tiered(tier), a.total());
        assert_eq!(b.total_tiered(tier), b.total());
        assert_eq!(a.count_non_zero_tiered(tier), a.count_non_zero());
        assert_eq!(a.is_subset_tiered(&b, tier), a.is_subset(&b));
        assert_eq!(sub.is_subset_tiered(&a, tier), true);
        assert_eq!(a.is_superset_tiered(&sub, tier), true);
        assert_eq!(a.is_superset_tiered(&b, tier), a.is_superset(&b));
        assert_eq!(a.is_disjoint_tiered(&b, tier), a.is_disjoint(&b));
        assert_eq!(a.is_any_lesser_tiered(&b, tier), a.is_any_lesser(&b));
        assert_eq!(a.is_any_greater_tiered(&b, tier), a.is_any_greater(&b));
    }
}

fn check_tiers<const N: usize>(seed: u64) {
    let mut rng = StdRng::seed_from_u64(seed);
    for _ in 0..16 {
        check_tiers_once::<N>(&mut rng);
    }
}

#[test]
fn tiers_agree_on_empty_domain() {
    check_tiers::<0>(11);
}

#[test]
fn tiers_agree_on_one_element() {
    check_tiers::<1>(12);
}

#[test]
fn tiers_agree_below_narrow_width() {
    check_tiers::<7>(13);
}

#[test]
fn tiers_agree_at_narrow_width() {
    check_tiers::<8>(14);
}

#[test]
fn tiers_agree_above_narrow_width() {
    check_tiers::<9>(15);
}

#[test]
fn tiers_agree_below_wide_width() {
    check_tiers::<15>(16);
}

#[test]
fn tiers_agree_at_wide_width() {
    check_tiers::<16>(17);
}

#[test]
fn tiers_agree_above_wide_width() {
    check_tiers::<17>(18);
}

#[test]
fn tiers_agree_on_several_chunks_with_remainder() {
    check_tiers::<53>(19);
}

#[test]
fn disjointness_short_circuit_matches_baseline() {
    // a hit in the first chunk must not change the answer
    let a = Multiset2::<20>::from_sequence(&[1, 1, 0, 0, 0, 0, 0, 0, 0, 0, 0, 0, 0, 0, 0, 0, 0, 0, 0, 0]);
    let b = Multiset2::<20>::from_sequence(&[0, 1, 0, 0, 0, 0, 0, 0, 0, 0, 0, 0, 0, 0, 0, 0, 0, 0, 0, 1]);
    for tier in [Tier::Scalar, Tier::Narrow, Tier::Wide] {
        assert!(!a.is_disjoint_tiered(&b, tier));
    }
}
