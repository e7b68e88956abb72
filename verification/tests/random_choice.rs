use rand::rngs::StdRng;
use rand::SeedableRng;
use utote::multiset::Multiset2;

#[test]
fn ticket_walk_picks_by_running_sum() {
    // counts [3, 0, 2, 0]: tickets 1..=3 land on element 0,
    // tickets 4..=5 land on element 2
    for ticket in 1..=3usize {
        let mut m = Multiset2::<4>::from_sequence(&[3, 0, 2, 0]);
        m.choose_by_ticket(ticket);
        assert_eq!(m.to_vec(), vec![3, 0, 0, 0]);
    }
    for ticket in 4..=5usize {
        let mut m = Multiset2::<4>::from_sequence(&[3, 0, 2, 0]);
        m.choose_by_ticket(ticket);
        assert_eq!(m.to_vec(), vec![0, 0, 2, 0]);
    }
}

#[test]
fn ticket_walk_skips_empty_elements() {
    let mut m = Multiset2::<3>::from_sequence(&[0, 0, 4]);
    m.choose_by_ticket(1);
    assert_eq!(m.to_vec(), vec![0, 0, 4]);
}

#[test]
fn choose_random_keeps_one_held_element() {
    for seed in 0..64u64 {
        let mut rng = StdRng::seed_from_u64(seed);
        let mut m = Multiset2::<4>::from_sequence(&[3, 0, 2, 0]);
        m.choose_random(&mut rng);
        let v = m.to_vec();
        assert!(v == vec![3, 0, 0, 0] || v == vec![0, 0, 2, 0]);
    }
}

#[test]
fn choose_random_preserves_the_kept_count() {
    for seed in 0..64u64 {
        let mut rng = StdRng::seed_from_u64(seed);
        let original = Multiset2::<6>::from_sequence(&[1, 0, 5, 2, 0, 9]);
        let mut m = Multiset2::<6>::from_sequence(&[1, 0, 5, 2, 0, 9]);
        m.choose_random(&mut rng);
        assert!(m.is_singleton());
        let (at, kept) = m.argmax();
        assert!(kept > 0);
        assert_eq!(kept, original.get(at));
        assert_eq!(m.total(), kept as usize);
    }
}

#[test]
fn choose_random_on_empty_total_is_a_no_op() {
    let mut rng = StdRng::seed_from_u64(7);
    let mut m = Multiset2::<4>::empty();
    m.choose_random(&mut rng);
    assert_eq!(m.to_vec(), vec![0, 0, 0, 0]);
}
