use utote::multiset::Multiset2;
use utote::multiset::MultisetError;

#[test]
fn empty_has_no_members() {
    let m = Multiset2::<5>::empty();
    assert_eq!(Multiset2::<5>::len(), 5);
    assert_eq!(m.to_vec(), vec![0, 0, 0, 0, 0]);
    assert!(m.is_empty());
    assert_eq!(m.total(), 0);
    assert_eq!(m.count_zero(), 5);
    assert_eq!(m.count_non_zero(), 0);
}

#[test]
fn repeat_fills_every_element() {
    let m = Multiset2::<4>::repeat(7);
    assert_eq!(m.to_vec(), vec![7, 7, 7, 7]);
    assert_eq!(m.total(), 28);
    assert!(!m.is_empty());
    assert_eq!(m.count_non_zero(), 4);
}

#[test]
fn from_slice_exact_length() {
    let m = Multiset2::<4>::from_slice(&[1, 2, 3, 4]).unwrap();
    assert_eq!(m.to_vec(), vec![1, 2, 3, 4]);
}

#[test]
fn from_slice_wrong_length_fails() {
    assert_eq!(
        Multiset2::<4>::from_slice(&[1, 2, 3]).unwrap_err(),
        MultisetError::LengthMismatch
    );
    assert_eq!(
        Multiset2::<4>::from_slice(&[1, 2, 3, 4, 5]).unwrap_err(),
        MultisetError::LengthMismatch
    );
    assert_eq!(
        Multiset2::<0>::from_slice(&[1]).unwrap_err(),
        MultisetError::LengthMismatch
    );
}

#[test]
fn from_sequence_zero_pads_short_input() {
    let m = Multiset2::<5>::from_sequence(&[9, 8]);
    assert_eq!(m.to_vec(), vec![9, 8, 0, 0, 0]);
}

#[test]
fn from_sequence_truncates_long_input() {
    let m = Multiset2::<3>::from_sequence(&[1, 2, 3, 4, 5, 6]);
    assert_eq!(m.to_vec(), vec![1, 2, 3]);
}

#[test]
fn contains_checks_range_and_membership() {
    let m = Multiset2::<4>::from_sequence(&[3, 0, 2, 0]);
    assert!(m.contains(0));
    assert!(!m.contains(1));
    assert!(m.contains(2));
    assert!(!m.contains(3));
    assert!(!m.contains(4));
    assert!(!m.contains(usize::MAX));
    assert!(m.contains_unchecked(2));
    assert!(!m.contains_unchecked(3));
}

#[test]
fn get_reads_single_multiplicities() {
    let m = Multiset2::<3>::from_sequence(&[4, 0, 9]);
    assert_eq!(m.get(0), 4);
    assert_eq!(m.get(1), 0);
    assert_eq!(m.get(2), 9);
}

#[test]
fn counts_are_complementary() {
    let m = Multiset2::<6>::from_sequence(&[0, 1, 0, 2, 0, 3]);
    assert_eq!(m.count_non_zero(), 3);
    assert_eq!(m.count_zero(), 3);
    assert_eq!(m.count_zero() + m.count_non_zero(), 6);
}

#[test]
fn singleton_means_exactly_one_nonzero() {
    assert!(Multiset2::<4>::from_sequence(&[0, 5, 0, 0]).is_singleton());
    assert!(!Multiset2::<4>::from_sequence(&[0, 5, 1, 0]).is_singleton());
    assert!(!Multiset2::<4>::empty().is_singleton());
}

#[test]
fn max_and_min_over_all_elements() {
    let m = Multiset2::<5>::from_sequence(&[4, 2, 9, 2, 7]);
    assert_eq!(m.max(), 9);
    assert_eq!(m.min(), 2);
}

#[test]
fn max_and_min_of_empty_domain() {
    let m = Multiset2::<0>::empty();
    assert_eq!(m.max(), 0);
    assert_eq!(m.min(), u16::MAX);
}

#[test]
fn argmax_first_index_wins_ties() {
    let m = Multiset2::<5>::from_sequence(&[1, 5, 5, 5, 2]);
    assert_eq!(m.argmax(), (1, 5));
    assert_eq!(m.imax(), 1);
}

#[test]
fn argmin_first_index_wins_ties() {
    let m = Multiset2::<5>::from_sequence(&[3, 1, 1, 1, 4]);
    assert_eq!(m.argmin(), (1, 1));
    assert_eq!(m.imin(), 1);
}

#[test]
fn argmin_reports_global_index() {
    // the smallest multiplicity sits far from the front, so the index
    // must be its position in the whole multiset
    let mut counts = vec![9u16; 40];
    counts[33] = 1;
    let m = Multiset2::<40>::from_slice(&counts).unwrap();
    assert_eq!(m.argmin(), (33, 1));
    assert_eq!(m.imin(), 33);
}

#[test]
fn clear_zeroes_everything() {
    let mut m = Multiset2::<4>::from_sequence(&[3, 1, 4, 1]);
    m.clear();
    assert!(m.is_empty());
    assert_eq!(m.to_vec(), vec![0, 0, 0, 0]);
}

#[test]
fn choose_keeps_one_element() {
    let mut m = Multiset2::<4>::from_sequence(&[3, 0, 2, 0]);
    m.choose_elem(2);
    assert_eq!(m.to_vec(), vec![0, 0, 2, 0]);
    assert_eq!(m.total(), 2);
}

#[test]
fn choose_then_total_is_original_multiplicity() {
    for e in 0..4usize {
        let mut m = Multiset2::<4>::from_sequence(&[3, 0, 2, 6]);
        let before = m.get(e);
        m.choose_elem(e);
        assert_eq!(m.total(), before as usize);
    }
}

#[test]
fn choose_out_of_range_empties() {
    let mut m = Multiset2::<4>::from_sequence(&[3, 0, 2, 0]);
    m.choose_elem(4);
    assert!(m.is_empty());
    assert_eq!(m.total(), 0);
}
