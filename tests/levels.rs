use db_histogram::level::Level;

fn level(x: f32) -> Level {
    Level::from_bits(x.to_bits())
}

#[test]
fn rank_follows_numeric_order() {
    let values = [
        f32::NEG_INFINITY,
        f32::MIN,
        -1.0e10,
        -2.5,
        -1.0,
        -1.0e-40,
        0.0,
        1.0e-40,
        f32::MIN_POSITIVE,
        0.5,
        1.0,
        1.5,
        1.0e10,
        f32::MAX,
        f32::INFINITY,
    ];
    for w in values.windows(2) {
        assert!(level(w[0]).rank() < level(w[1]).rank());
    }
}

#[test]
fn both_zeros_share_rank_zero() {
    assert_eq!(level(0.0).rank(), 0);
    assert_eq!(level(-0.0).rank(), 0);
}

#[test]
fn rank_of_one_and_minus_one() {
    assert_eq!(level(1.0).rank(), 0x3f80_0000);
    assert_eq!(level(-1.0).rank(), -0x3f80_0000);
}

#[test]
fn nan_and_finiteness() {
    assert!(level(f32::NAN).is_nan());
    assert!(Level::from_bits(0xff80_0001).is_nan());
    assert!(!level(f32::INFINITY).is_nan());
    assert!(!level(f32::INFINITY).is_finite());
    assert!(!level(f32::NEG_INFINITY).is_finite());
    assert!(!level(f32::NAN).is_finite());
    assert!(level(f32::MAX).is_finite());
    assert!(level(-0.0).is_finite());
}

#[test]
fn bits_round_trip() {
    let l = Level::from_bits(0x4120_0000);
    assert_eq!(l.to_bits(), 0x4120_0000);
    assert_eq!(f32::from_bits(l.to_bits()), 10.0);
}
