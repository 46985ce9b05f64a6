use render_core::rng::Rng;
use render_core::sample::{Sample, SamplePoint, HALF};
use render_core::sampling::{latin_hypercube, shuffle, stratified_sample_1d, stratified_sample_2d};

fn s(stratum: u32, offset: u32, strata: u32) -> Sample {
    Sample { stratum, offset, strata }
}

fn in_stratum(sample: &Sample, i: u64, n: u64) -> bool {
    let num = sample.numerator() as u128;
    let den = sample.denominator() as u128;
    (i as u128) * den <= (n as u128) * num && (n as u128) * num < (i as u128 + 1) * den
}

#[test]
fn stratified_1d_without_jitter_gives_the_centres() {
    let mut rng = Rng::new();
    let mut samp = vec![Sample::zero(); 5];
    stratified_sample_1d(&mut samp, 5, &mut rng, false);
    for (i, sample) in samp.iter().enumerate() {
        assert_eq!(*sample, s(i as u32, HALF, 5));
        // (i + 1/2) / 5, exactly
        assert_eq!(2 * 5 * sample.numerator(), (2 * i as u64 + 1) * sample.denominator());
    }
    assert_eq!(rng, Rng::new());
}

#[test]
fn stratified_1d_with_jitter_uses_one_draw_per_stratum() {
    let mut rng = Rng::new();
    let mut samp = vec![Sample::zero(); 3];
    stratified_sample_1d(&mut samp, 3, &mut rng, true);
    assert_eq!(samp, vec![s(0, 0x152c_a78d, 3), s(1, 0x027c_6003, 3), s(2, 0xcb07_bbf3, 3)]);
    for (i, sample) in samp.iter().enumerate() {
        assert!(in_stratum(sample, i as u64, 3));
    }
    assert_eq!(rng.uniform_uint32(), 0xf98b_efee);
}

#[test]
fn stratified_1d_leaves_the_rest_alone() {
    let mut rng = Rng::new();
    let marker = s(6, 6, 7);
    let mut samp = vec![marker; 4];
    stratified_sample_1d(&mut samp, 2, &mut rng, false);
    assert_eq!(samp, vec![s(0, HALF, 2), s(1, HALF, 2), marker, marker]);
}

#[test]
fn stratified_1d_of_nothing_changes_nothing() {
    let mut rng = Rng::new();
    let mut samp: Vec<Sample> = vec![s(1, 2, 3)];
    stratified_sample_1d(&mut samp, 0, &mut rng, true);
    assert_eq!(samp, vec![s(1, 2, 3)]);
    assert_eq!(rng, Rng::new());
}

#[test]
fn stratified_2d_without_jitter_visits_the_grid_row_by_row() {
    let mut rng = Rng::new();
    let mut samp = vec![SamplePoint::zero(); 6];
    stratified_sample_2d(&mut samp, 3, 2, &mut rng, false);
    for k in 0..6u32 {
        assert_eq!(samp[k as usize], SamplePoint { x: s(k % 3, HALF, 3), y: s(k / 3, HALF, 2) });
    }
    assert_eq!(rng, Rng::new());
}

#[test]
fn stratified_2d_with_jitter_draws_x_before_y() {
    let mut rng = Rng::new();
    let mut samp = vec![SamplePoint::zero(); 4];
    stratified_sample_2d(&mut samp, 2, 2, &mut rng, true);
    assert_eq!(
        samp,
        vec![
            SamplePoint { x: s(0, 0x152c_a78d, 2), y: s(0, 0x027c_6003, 2) },
            SamplePoint { x: s(1, 0xcb07_bbf3, 2), y: s(0, 0xf98b_efee, 2) },
            SamplePoint { x: s(0, 0x1cd7_77e3, 2), y: s(1, 0xa4e2_9590, 2) },
            SamplePoint { x: s(1, 0x661e_4b6d, 2), y: s(1, 0x093b_9e0e, 2) },
        ]
    );
}

#[test]
fn shuffle_gives_the_known_order() {
    let mut rng = Rng::new();
    let mut v: Vec<u32> = (0..8).collect();
    shuffle(&mut v, 8, 1, &mut rng);
    assert_eq!(v, vec![5, 1, 3, 2, 7, 4, 0, 6]);
}

#[test]
fn shuffle_moves_whole_blocks() {
    let mut rng = Rng::new();
    let mut v: Vec<u32> = (0..8).collect();
    shuffle(&mut v, 4, 2, &mut rng);
    assert_eq!(v, vec![2, 3, 0, 1, 6, 7, 4, 5]);
}

#[test]
fn shuffle_stays_inside_its_blocks() {
    let mut rng = Rng::new();
    let mut v: Vec<u32> = (0..8).collect();
    shuffle(&mut v, 3, 2, &mut rng);
    assert_eq!(v, vec![2, 3, 4, 5, 0, 1, 6, 7]);
}

#[test]
fn shuffle_is_a_permutation() {
    let mut rng = Rng::new();
    rng.set_sequence(5);
    let mut v: Vec<u32> = (0..100).collect();
    shuffle(&mut v, 100, 1, &mut rng);
    assert_ne!(v, (0..100).collect::<Vec<u32>>());
    let mut sorted = v.clone();
    sorted.sort();
    assert_eq!(sorted, (0..100).collect::<Vec<u32>>());
}

#[test]
fn shuffle_of_nothing_draws_nothing() {
    let mut rng = Rng::new();
    let mut v: Vec<u32> = vec![1, 2, 3];
    shuffle(&mut v, 0, 1, &mut rng);
    assert_eq!(v, vec![1, 2, 3]);
    assert_eq!(rng, Rng::new());
}

#[test]
fn latin_hypercube_gives_the_known_points() {
    let mut rng = Rng::new();
    let mut samp = vec![SamplePoint::zero(); 4];
    latin_hypercube(&mut samp, 4, &mut rng);
    assert_eq!(
        samp,
        vec![
            SamplePoint { x: s(1, 0xcb07_bbf3, 4), y: s(0, 0x027c_6003, 4) },
            SamplePoint { x: s(2, 0x1cd7_77e3, 4), y: s(1, 0xf98b_efee, 4) },
            SamplePoint { x: s(3, 0x661e_4b6d, 4), y: s(2, 0xa4e2_9590, 4) },
            SamplePoint { x: s(0, 0x152c_a78d, 4), y: s(3, 0x093b_9e0e, 4) },
        ]
    );
    assert_eq!(rng.state, 0xde2e_5cc3_ed0b_55eb);
}

#[test]
fn latin_hypercube_has_one_point_in_each_row_and_column() {
    let mut rng = Rng::new();
    rng.set_sequence(21);
    for n in [1u32, 2, 5, 16, 33] {
        let marker = SamplePoint { x: s(0, 1, 2), y: s(1, 0, 2) };
        let mut samp = vec![marker; n as usize + 1];
        latin_hypercube(&mut samp, n, &mut rng);
        let mut xs: Vec<u32> = samp[..n as usize].iter().map(|p| p.x.stratum).collect();
        let mut ys: Vec<u32> = samp[..n as usize].iter().map(|p| p.y.stratum).collect();
        xs.sort();
        ys.sort();
        assert_eq!(xs, (0..n).collect::<Vec<u32>>());
        assert_eq!(ys, (0..n).collect::<Vec<u32>>());
        for p in &samp[..n as usize] {
            assert_eq!(p.x.strata, n);
            assert_eq!(p.y.strata, n);
            assert!(p.x.numerator() < p.x.denominator());
            assert!(p.y.numerator() < p.y.denominator());
        }
        assert_eq!(samp[n as usize], marker);
    }
}

#[test]
fn stratified_patterns_cover_every_stratum_over_many_trials() {
    // the mean of n stratified samples is within 1/(2n) of one half, whatever was drawn
    let mut rng = Rng::new();
    let n = 64u32;
    for trial in 0..200u64 {
        rng.set_sequence(trial);
        let mut samp = vec![Sample::zero(); n as usize];
        stratified_sample_1d(&mut samp, n, &mut rng, true);
        shuffle(&mut samp, n, 1, &mut rng);
        let mean: f64 = samp
            .iter()
            .map(|v| v.numerator() as f64 / v.denominator() as f64)
            .sum::<f64>()
            / n as f64;
        assert!((mean - 0.5).abs() <= 0.5 / n as f64);
        let mut strata: Vec<u32> = samp.iter().map(|v| v.stratum).collect();
        strata.sort();
        assert_eq!(strata, (0..n).collect::<Vec<u32>>());
    }
}
