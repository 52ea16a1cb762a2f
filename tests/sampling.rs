use db_histogram::histogram::Histogram;
use db_histogram::rng::XorShiftRng;

#[test]
fn seed_one_gives_fixed_draws() {
    let mut g = XorShiftRng::new(1);
    let got: Vec<u32> = (0..5).map(|_| g.next()).collect();
    assert_eq!(got, vec![33554433, 8398849, 52439043, 88608385, 246570496]);
    assert_eq!(g.state, 585415316980522496);
}

#[test]
fn same_seed_same_sequence() {
    let mut a = XorShiftRng::new(42);
    let mut b = XorShiftRng::new(42);
    for _ in 0..100 {
        assert_eq!(a.next(), b.next());
    }
    assert_eq!(a, b);
}

#[test]
fn first_draws_is_a_prefix_of_longer_runs() {
    let five = XorShiftRng::first_draws(1, 5);
    assert_eq!(five, vec![33554433, 8398849, 52439043, 88608385, 246570496]);
    let ten = XorShiftRng::first_draws(1, 10);
    assert_eq!(&ten[..5], &five[..]);
    assert!(XorShiftRng::first_draws(7, 0).is_empty());
}

#[test]
fn draws_stay_below_two_to_the_31() {
    let mut g = XorShiftRng::new(0x1234_5678_9abc_def0);
    for _ in 0..1000 {
        assert!(g.next() < 0x8000_0000);
    }
}

#[test]
fn zero_seed_stays_zero() {
    let mut g = XorShiftRng::new(0);
    assert_eq!(g.next(), 0);
    assert_eq!(g.state, 0);
}

#[test]
fn new_histogram_is_zero() {
    let h = Histogram::new(4);
    assert_eq!(h.len(), 4);
    assert_eq!(h.counts(), &vec![0, 0, 0, 0]);
    assert_eq!(h.max_count(), 0);
    assert_eq!(h.total(), 0);
}

#[test]
fn record_counts_one_bin() {
    let mut h = Histogram::new(3);
    h.record(1);
    h.record(1);
    h.record(2);
    assert_eq!(h.counts(), &vec![0, 2, 1]);
    assert_eq!(h.count(1), 2);
    assert_eq!(h.max_count(), 2);
    assert_eq!(h.total(), 3);
}

#[test]
fn empty_histogram_has_no_maximum() {
    let h = Histogram::new(0);
    assert_eq!(h.max_count(), 0);
    assert_eq!(h.total(), 0);
}
