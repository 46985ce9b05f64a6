use render_core::rng::{Rng, PCG32_DEFAULT_STATE, PCG32_DEFAULT_STREAM};
use render_core::sample::{Sample, SamplePoint, HALF, OFFSET_SCALE};

#[test]
fn new_generator_is_in_the_default_state() {
    let rng = Rng::new();
    assert_eq!(rng.state, PCG32_DEFAULT_STATE);
    assert_eq!(rng.inc, PCG32_DEFAULT_STREAM);
}

#[test]
fn default_generator_draws_the_known_stream() {
    let mut rng = Rng::new();
    assert_eq!(rng.uniform_uint32(), 0x152c_a78d);
    assert_eq!(rng.uniform_uint32(), 0x027c_6003);
    assert_eq!(rng.uniform_uint32(), 0xcb07_bbf3);
    assert_eq!(rng.uniform_uint32(), 0xf98b_efee);
}

#[test]
fn set_sequence_zero_gives_its_stream() {
    let mut rng = Rng::new();
    rng.set_sequence(0);
    assert_eq!(rng.state, 0x4643_d02b_bf7b_a16d);
    assert_eq!(rng.inc, 1);
    assert_eq!(rng.uniform_uint32(), 0x69c8_7837);
    assert_eq!(rng.uniform_uint32(), 0x6694_bd1c);
    assert_eq!(rng.uniform_uint32(), 0xa37b_7ac6);
}

#[test]
fn set_sequence_seven_gives_its_stream() {
    let mut rng = Rng::new();
    rng.set_sequence(7);
    assert_eq!(rng.state, 0x1abf_2aa5_efa8_95f1);
    assert_eq!(rng.inc, 15);
    assert_eq!(rng.uniform_uint32(), 0x8afc_b028);
    assert_eq!(rng.uniform_uint32(), 0x9107_4212);
    assert_eq!(rng.uniform_uint32(), 0x8fe2_d8b6);
}

#[test]
fn set_sequence_forgets_the_state_before() {
    let mut used = Rng::new();
    for _ in 0..17 {
        used.uniform_uint32();
    }
    used.set_sequence(7);
    let mut fresh = Rng::new();
    fresh.set_sequence(7);
    assert_eq!(used, fresh);
}

#[test]
fn different_sequences_have_different_increments() {
    let mut a = Rng::new();
    let mut b = Rng::new();
    a.set_sequence(3);
    b.set_sequence(4);
    assert_ne!(a.inc, b.inc);
    assert_ne!(a.uniform_uint32(), b.uniform_uint32());
}

#[test]
fn bounded_draws_are_the_known_ones() {
    let mut rng = Rng::new();
    let drawn: Vec<u32> = (0..8).map(|_| rng.uniform_uint32_bounded(10)).collect();
    assert_eq!(drawn, vec![3, 5, 5, 0, 9, 8, 1, 0]);
}

#[test]
fn bounded_draw_rejects_below_the_threshold() {
    // 2^32 mod 3_000_000_000 = 1_294_967_296: the first draw, 0x152ca78d, and
    // the second, 0x027c6003, are both below it and are drawn again.
    let mut rng = Rng::new();
    assert_eq!(rng.uniform_uint32_bounded(3_000_000_000), 406_281_715);
    assert_eq!(rng.uniform_uint32_bounded(3_000_000_000), 1_186_697_710);
    assert_eq!(rng.uniform_uint32_bounded(3_000_000_000), 2_766_312_848);
    assert_eq!(rng.uniform_uint32_bounded(3_000_000_000), 1_713_261_421);
    assert_eq!(rng.state, 0x249d_c620_714f_3688);
}

#[test]
fn bounded_draw_with_bound_one_is_zero() {
    let mut rng = Rng::new();
    for _ in 0..20 {
        assert_eq!(rng.uniform_uint32_bounded(1), 0);
    }
}

#[test]
fn bounded_draws_stay_below_the_bound() {
    let mut rng = Rng::new();
    rng.set_sequence(11);
    for bound in [1u32, 2, 3, 7, 1000, 0x8000_0001, u32::MAX] {
        for _ in 0..50 {
            assert!(rng.uniform_uint32_bounded(bound) < bound);
        }
    }
}

#[test]
fn uniform_sample_is_the_draw_over_two_to_the_32() {
    let mut rng = Rng::new();
    let s = rng.uniform_sample();
    assert_eq!(s, Sample { stratum: 0, offset: 0x152c_a78d, strata: 1 });
    assert_eq!(s.numerator(), 0x152c_a78d);
    assert_eq!(s.denominator(), OFFSET_SCALE);
    assert!(s.numerator() < s.denominator());
}

#[test]
fn sample_value_is_exact() {
    // the centre of stratum 1 of 4 is 3/8
    let s = Sample { stratum: 1, offset: HALF, strata: 4 };
    assert_eq!(s.numerator(), (1u64 << 32) + (1u64 << 31));
    assert_eq!(s.denominator(), 4u64 << 32);
    assert_eq!(8 * s.numerator(), 3 * s.denominator());
    let value = s.numerator() as f64 / s.denominator() as f64;
    assert_eq!(value, 0.375);
}

#[test]
fn largest_sample_is_below_one() {
    let s = Sample { stratum: u32::MAX - 1, offset: u32::MAX, strata: u32::MAX };
    assert!(s.numerator() < s.denominator());
}

#[test]
fn zero_sample_and_zero_point() {
    assert_eq!(Sample::zero(), Sample { stratum: 0, offset: 0, strata: 1 });
    assert_eq!(Sample::zero().numerator(), 0);
    assert_eq!(Sample::uniform(9), Sample { stratum: 0, offset: 9, strata: 1 });
    assert_eq!(SamplePoint::zero(), SamplePoint { x: Sample::zero(), y: Sample::zero() });
}
