use utote::multiset::Multiset2;
use utote::multiset::MultisetOrd;

#[test]
fn scenario_four_elements() {
    let m = Multiset2::<4>::from_sequence(&[3, 0, 2, 0]);
    assert_eq!(m.total(), 5);
    assert_eq!(m.count_non_zero(), 2);
    assert!(!m.is_singleton());
    let ones = Multiset2::<4>::repeat(1);
    assert_eq!(m.intersection(&ones).to_vec(), vec![1, 0, 1, 0]);
    assert_eq!(m.union(&ones).to_vec(), vec![3, 1, 2, 1]);
}

#[test]
fn intersection_is_pointwise_min() {
    let a = Multiset2::<5>::from_sequence(&[0, 3, 7, 2, 9]);
    let b = Multiset2::<5>::from_sequence(&[5, 1, 7, 0, 4]);
    let i = a.intersection(&b);
    assert_eq!(i.to_vec(), vec![0, 1, 7, 0, 4]);
    assert!(i.is_subset(&a));
    assert!(i.is_subset(&b));
}

#[test]
fn union_is_pointwise_max() {
    let a = Multiset2::<5>::from_sequence(&[0, 3, 7, 2, 9]);
    let b = Multiset2::<5>::from_sequence(&[5, 1, 7, 0, 4]);
    let u = a.union(&b);
    assert_eq!(u.to_vec(), vec![5, 3, 7, 2, 9]);
    assert!(a.is_subset(&u));
    assert!(b.is_subset(&u));
}

#[test]
fn intersection_and_union_commute() {
    let a = Multiset2::<4>::from_sequence(&[1, 4, 0, 2]);
    let b = Multiset2::<4>::from_sequence(&[3, 0, 5, 2]);
    assert!(a.intersection(&b).equals(&b.intersection(&a)));
    assert!(a.union(&b).equals(&b.union(&a)));
}

#[test]
fn intersection_and_union_are_idempotent() {
    let a = Multiset2::<4>::from_sequence(&[1, 4, 0, 2]);
    assert!(a.intersection(&a).equals(&a));
    assert!(a.union(&a).equals(&a));
}

#[test]
fn inclusion_exclusion_totals() {
    let a = Multiset2::<5>::from_sequence(&[0, 3, 7, 2, 9]);
    let b = Multiset2::<5>::from_sequence(&[5, 1, 7, 0, 4]);
    assert_eq!(
        a.union(&b).total() + a.intersection(&b).total(),
        a.total() + b.total()
    );
}

#[test]
fn mutual_subsets_are_equal() {
    let a = Multiset2::<4>::from_sequence(&[1, 2, 3, 4]);
    let b = Multiset2::<4>::from_sequence(&[1, 2, 3, 4]);
    let c = Multiset2::<4>::from_sequence(&[1, 2, 3, 5]);
    assert!(a.is_subset(&b) && b.is_subset(&a));
    assert!(a.equals(&b));
    assert!(a.is_subset(&c));
    assert!(!c.is_subset(&a));
    assert!(!a.equals(&c));
}

#[test]
fn subset_and_superset() {
    let small = Multiset2::<4>::from_sequence(&[1, 0, 2, 0]);
    let big = Multiset2::<4>::from_sequence(&[3, 0, 2, 1]);
    assert!(small.is_subset(&big));
    assert!(big.is_superset(&small));
    assert!(!big.is_subset(&small));
    assert!(!small.is_superset(&big));
    assert!(small.is_proper_subset(&big));
    assert!(big.is_proper_superset(&small));
    assert!(!small.is_proper_subset(&small));
    assert!(!small.is_proper_superset(&small));
}

#[test]
fn any_lesser_and_any_greater() {
    let a = Multiset2::<3>::from_sequence(&[1, 5, 2]);
    let b = Multiset2::<3>::from_sequence(&[2, 3, 2]);
    assert!(a.is_any_lesser(&b));
    assert!(a.is_any_greater(&b));
    let c = Multiset2::<3>::from_sequence(&[1, 5, 2]);
    assert!(!a.is_any_lesser(&c));
    assert!(!a.is_any_greater(&c));
}

#[test]
fn disjointness() {
    let a = Multiset2::<4>::from_sequence(&[1, 0, 2, 0]);
    let b = Multiset2::<4>::from_sequence(&[0, 3, 0, 4]);
    let c = Multiset2::<4>::from_sequence(&[0, 0, 1, 0]);
    assert!(a.is_disjoint(&b));
    assert!(b.is_disjoint(&a));
    assert!(!a.is_disjoint(&c));
    assert!(Multiset2::<4>::empty().is_disjoint(&a));
}

#[test]
fn compare_exposes_all_four_outcomes() {
    let a = Multiset2::<3>::from_sequence(&[1, 2, 3]);
    let same = Multiset2::<3>::from_sequence(&[1, 2, 3]);
    let bigger = Multiset2::<3>::from_sequence(&[2, 2, 4]);
    let sideways = Multiset2::<3>::from_sequence(&[0, 9, 3]);
    assert_eq!(a.compare(&same), MultisetOrd::Equal);
    assert_eq!(a.compare(&bigger), MultisetOrd::Less);
    assert_eq!(bigger.compare(&a), MultisetOrd::Greater);
    assert_eq!(a.compare(&sideways), MultisetOrd::Incomparable);
    assert_eq!(sideways.compare(&a), MultisetOrd::Incomparable);
}

#[test]
fn operands_are_left_untouched() {
    let a = Multiset2::<3>::from_sequence(&[1, 2, 3]);
    let b = Multiset2::<3>::from_sequence(&[3, 2, 1]);
    let _ = a.intersection(&b);
    let _ = a.union(&b);
    assert_eq!(a.to_vec(), vec![1, 2, 3]);
    assert_eq!(b.to_vec(), vec![3, 2, 1]);
}
