use render_core::geometry::Point2i;
use render_core::paramset::ParamSet;
use render_core::rng::Rng;
use render_core::sample::{Sample, SamplePoint, HALF};
use render_core::sampler::Sampler;
use render_core::samplers::stratified::StratifiedSampler;

fn c(stratum: u32, strata: u32) -> Sample {
    Sample { stratum, offset: HALF, strata }
}

fn pt(xs: u32, xo: u32, ys: u32, yo: u32, n: u32) -> SamplePoint {
    SamplePoint {
        x: Sample { stratum: xs, offset: xo, strata: n },
        y: Sample { stratum: ys, offset: yo, strata: n },
    }
}

fn in_unit_interval(s: &Sample) -> bool {
    s.numerator() < s.denominator()
}

fn stratified(sampler: Sampler) -> StratifiedSampler {
    match sampler {
        Sampler::Stratified(ss) => ss,
    }
}

#[test]
fn new_sampler_has_zero_tables_and_no_arrays() {
    let ss = StratifiedSampler::new(2, 3, true, 4);
    assert_eq!(ss.get_samples_per_pixel(), 6);
    assert_eq!(ss.x_pixel_samples, 2);
    assert_eq!(ss.y_pixel_samples, 3);
    assert!(ss.jitter_samples);
    assert_eq!(ss.samples_1d, vec![vec![Sample::zero(); 6]; 4]);
    assert_eq!(ss.samples_2d, vec![vec![SamplePoint::zero(); 6]; 4]);
    assert!(ss.sample_array_1d.is_empty());
    assert!(ss.sample_array_2d.is_empty());
    assert_eq!(ss.get_current_pixel(), Point2i { x: 0, y: 0 });
    assert_eq!(ss.get_current_sample_number(), 0);
    assert_eq!(ss.rng, Rng::new());
    assert!(!ss.started);
}

#[test]
fn new_sampler_with_negative_dimensions_has_no_tables() {
    let ss = StratifiedSampler::new(2, 2, false, -3);
    assert!(ss.samples_1d.is_empty());
    assert!(ss.samples_2d.is_empty());
    assert_eq!(ss.get_samples_per_pixel(), 4);
}

#[test]
fn new_sampler_without_strata_has_no_samples() {
    let mut ss = StratifiedSampler::new(0, 5, true, 2);
    assert_eq!(ss.get_samples_per_pixel(), 0);
    ss.start_pixel(Point2i { x: 1, y: 1 });
    assert_eq!(ss.samples_1d, vec![Vec::<Sample>::new(); 2]);
    assert!(!ss.start_next_sample());
}

#[test]
fn round_count_is_the_identity() {
    let ss = StratifiedSampler::new(1, 1, true, 0);
    assert_eq!(ss.round_count(0), 0);
    assert_eq!(ss.round_count(13), 13);
    assert_eq!(ss.round_count(i32::MAX), i32::MAX);
}

#[test]
fn start_pixel_sets_the_pixel_and_keeps_the_dimension_cursors() {
    let mut ss = StratifiedSampler::new(2, 2, true, 2);
    ss.start_pixel(Point2i { x: 3, y: 4 });
    ss.get_1d();
    ss.get_2d();
    ss.start_next_sample();
    ss.get_1d();
    assert_eq!(ss.current_1d_dimension, 1);
    ss.start_pixel(Point2i { x: 7, y: -2 });
    assert_eq!(ss.get_current_pixel(), Point2i { x: 7, y: -2 });
    assert_eq!(ss.get_current_sample_number(), 0);
    assert_eq!(ss.current_1d_dimension, 1);
    assert_eq!(ss.current_2d_dimension, 0);
    assert!(ss.started);
}

#[test]
fn start_pixel_without_jitter_makes_the_known_tables() {
    let mut ss = StratifiedSampler::new(2, 2, false, 2);
    ss.request_1d_array(2);
    ss.request_2d_array(3);
    ss.start_pixel(Point2i { x: 0, y: 0 });
    assert_eq!(
        ss.samples_1d,
        vec![vec![c(1, 4), c(0, 4), c(3, 4), c(2, 4)], vec![c(3, 4), c(0, 4), c(1, 4), c(2, 4)]]
    );
    let p = |x: u32, y: u32| SamplePoint { x: c(x, 2), y: c(y, 2) };
    assert_eq!(
        ss.samples_2d,
        vec![vec![p(1, 0), p(0, 1), p(1, 1), p(0, 0)], vec![p(0, 0), p(1, 0), p(0, 1), p(1, 1)]]
    );
    assert_eq!(
        ss.sample_array_1d,
        vec![vec![c(0, 2), c(1, 2), c(0, 2), c(1, 2), c(0, 2), c(1, 2), c(0, 2), c(1, 2)]]
    );
    assert_eq!(
        ss.sample_array_2d,
        vec![vec![
            pt(0, 0xdeaf_d023, 2, 0x0e8c_4479, 3),
            pt(2, 0x5fb4_f0ef, 0, 0xa56e_eebd, 3),
            pt(1, 0x449d_ff2a, 1, 0x30a8_f133, 3),
            pt(2, 0xcbd0_6115, 1, 0xee47_5503, 3),
            pt(1, 0x3daa_400e, 2, 0x6b44_2912, 3),
            pt(0, 0xd0b0_846f, 0, 0x07b3_0dc1, 3),
            pt(1, 0x6e6f_51ac, 1, 0xbb2c_e758, 3),
            pt(2, 0xa40b_4c79, 2, 0x52a1_7060, 3),
            pt(0, 0x13b5_574a, 0, 0xdacb_bda7, 3),
            pt(1, 0x249c_a1dd, 2, 0xe382_c24e, 3),
            pt(0, 0x2bf6_8cef, 1, 0x9823_ce15, 3),
            pt(2, 0x40fa_ab65, 0, 0x2aca_379a, 3),
        ]]
    );
    assert_eq!(ss.rng.state, 0xb120_870d_aa9b_3703);
}

#[test]
fn start_pixel_with_jitter_makes_the_known_tables() {
    let mut ss = StratifiedSampler::new(2, 2, true, 2);
    ss.request_1d_array(2);
    ss.request_2d_array(3);
    ss.start_pixel(Point2i { x: 0, y: 0 });
    let s = |stratum: u32, offset: u32, strata: u32| Sample { stratum, offset, strata };
    assert_eq!(
        ss.samples_1d,
        vec![
            vec![s(3, 0xf98b_efee, 4), s(0, 0x152c_a78d, 4), s(1, 0x027c_6003, 4), s(2, 0xcb07_bbf3, 4)],
            vec![s(0, 0xb7e9_851d, 4), s(1, 0xe71f_2e4d, 4), s(2, 0xbdb2_a071, 4), s(3, 0x4697_53f2, 4)],
        ]
    );
    assert_eq!(
        ss.samples_2d,
        vec![
            vec![
                pt(1, 0xd136_c7ea, 1, 0x7886_b716, 2),
                pt(1, 0x843f_a922, 0, 0xf16b_535e, 2),
                pt(0, 0x8be6_e048, 1, 0xdd7e_3483, 2),
                pt(0, 0xb9ad_21f8, 0, 0xcfad_21e0, 2),
            ],
            vec![
                pt(1, 0x6a34_30a1, 1, 0x53ae_b48e, 2),
                pt(0, 0x5fb4_f0ef, 0, 0x0e8c_4479, 2),
                pt(0, 0x1242_3bb8, 1, 0xbc69_3c36, 2),
                pt(1, 0x1b23_26a7, 0, 0xab7f_98df, 2),
            ],
        ]
    );
    assert_eq!(
        ss.sample_array_1d,
        vec![vec![
            s(0, 0xcbd0_6115, 2),
            s(1, 0x6b44_2912, 2),
            s(1, 0xee84_4a19, 2),
            s(0, 0xdbaa_7d4c, 2),
            s(0, 0x13b5_574a, 2),
            s(1, 0xdacb_bda7, 2),
            s(1, 0x52a1_7060, 2),
            s(0, 0xa40b_4c79, 2),
        ]]
    );
    assert_eq!(ss.sample_array_2d[0][0], pt(1, 0x586e_be6f, 2, 0x2aca_379a, 3));
    assert_eq!(ss.sample_array_2d[0][11], pt(2, 0xc1b4_95a7, 0, 0x0333_d581, 3));
    assert_eq!(ss.rng.state, 0xe640_e6ed_4361_55a3);
    // the next draws come after those of the pixel
    ss.current_1d_dimension = 2;
    assert_eq!(ss.get_1d(), s(0, 0x81be_fafc, 1));
    assert_eq!(ss.get_1d(), s(0, 0xd278_2e01, 1));
}

#[test]
fn start_pixel_is_a_function_of_the_generator() {
    let mut a = StratifiedSampler::new(3, 3, true, 3);
    let mut b = StratifiedSampler::new(3, 3, true, 3);
    a.request_2d_array(4);
    b.request_2d_array(4);
    a.start_pixel(Point2i { x: 0, y: 0 });
    b.start_pixel(Point2i { x: 0, y: 0 });
    assert_eq!(a.samples_1d, b.samples_1d);
    assert_eq!(a.samples_2d, b.samples_2d);
    assert_eq!(a.sample_array_2d, b.sample_array_2d);
    let first = a.samples_1d.clone();
    a.start_pixel(Point2i { x: 1, y: 0 });
    assert_ne!(a.samples_1d, first);
}

#[test]
fn unjittered_tables_hold_each_centre_once() {
    let mut ss = StratifiedSampler::new(3, 4, false, 5);
    ss.start_pixel(Point2i { x: 2, y: 2 });
    for table in &ss.samples_1d {
        let mut numerators: Vec<u64> = table.iter().map(|s| s.numerator()).collect();
        numerators.sort();
        for (n, num) in numerators.iter().enumerate() {
            // (n + 1/2) / 12 over the common denominator 12 * 2^32
            assert_eq!(2 * 12 * num, (2 * n as u64 + 1) * (12u64 << 32));
        }
        for s in table {
            assert_eq!(s.denominator(), 12u64 << 32);
            assert_eq!(s.numerator() as f64 / s.denominator() as f64, (s.stratum as f64 + 0.5) / 12.0);
        }
    }
}

#[test]
fn every_value_handed_out_lies_in_the_unit_interval() {
    let mut ss = StratifiedSampler::new(3, 2, true, 2);
    ss.request_1d_array(3);
    ss.request_2d_array(5);
    ss.reseed(99);
    for pixel in 0..3 {
        ss.start_pixel(Point2i { x: pixel, y: 0 });
        loop {
            // more values than there are tables: the last ones come from the generator
            for _ in 0..4 {
                assert!(in_unit_interval(&ss.get_1d()));
                let p = ss.get_2d();
                assert!(in_unit_interval(&p.x) && in_unit_interval(&p.y));
            }
            for s in ss.get_1d_array(3).unwrap() {
                assert!(in_unit_interval(s));
            }
            for p in ss.get_2d_array(5).unwrap() {
                assert!(in_unit_interval(&p.x) && in_unit_interval(&p.y));
            }
            if !ss.start_next_sample() {
                break;
            }
        }
    }
}

#[test]
fn get_1d_reads_the_tables_in_turn() {
    let mut ss = StratifiedSampler::new(2, 2, false, 2);
    ss.start_pixel(Point2i { x: 0, y: 0 });
    assert_eq!(ss.get_1d(), c(1, 4));
    assert_eq!(ss.get_1d(), c(3, 4));
    assert!(ss.start_next_sample());
    assert_eq!(ss.get_1d(), c(0, 4));
    assert_eq!(ss.get_1d(), c(0, 4));
    assert!(ss.start_next_sample());
    assert_eq!(ss.get_1d(), c(3, 4));
    assert_eq!(ss.get_1d(), c(1, 4));
}

#[test]
fn get_1d_falls_back_to_the_generator() {
    let mut ss = StratifiedSampler::new(2, 2, false, 1);
    ss.start_pixel(Point2i { x: 0, y: 0 });
    ss.get_1d();
    let mut rng = ss.rng;
    let expected = rng.uniform_uint32();
    assert_eq!(ss.get_1d(), Sample { stratum: 0, offset: expected, strata: 1 });
    assert_eq!(ss.rng, rng);
    assert_eq!(ss.current_1d_dimension, 1);
}

#[test]
fn get_2d_reads_the_tables_in_turn() {
    let mut ss = StratifiedSampler::new(2, 2, false, 2);
    ss.start_pixel(Point2i { x: 0, y: 0 });
    assert_eq!(ss.get_2d(), SamplePoint { x: c(1, 2), y: c(0, 2) });
    assert_eq!(ss.get_2d(), SamplePoint { x: c(0, 2), y: c(0, 2) });
    assert_eq!(ss.current_2d_dimension, 2);
}

#[test]
fn get_2d_from_the_generator_draws_y_before_x() {
    let mut ss = StratifiedSampler::new(1, 1, true, 0);
    ss.start_pixel(Point2i { x: 0, y: 0 });
    assert_eq!(ss.rng, Rng::new());
    let p = ss.get_2d();
    assert_eq!(p.y, Sample { stratum: 0, offset: 0x152c_a78d, strata: 1 });
    assert_eq!(p.x, Sample { stratum: 0, offset: 0x027c_6003, strata: 1 });
    assert_eq!(ss.rng.uniform_uint32(), 0xcb07_bbf3);
}

#[test]
fn start_next_sample_counts_the_samples_of_a_pixel() {
    for (x, y) in [(1, 1), (2, 2), (3, 5)] {
        let mut ss = StratifiedSampler::new(x, y, true, 4);
        ss.start_pixel(Point2i { x: 0, y: 0 });
        let spp = ss.get_samples_per_pixel();
        for k in 1..spp {
            assert!(ss.start_next_sample());
            assert_eq!(ss.get_current_sample_number(), k);
        }
        assert!(!ss.start_next_sample());
        assert_eq!(ss.get_current_sample_number(), spp);
    }
}

#[test]
fn start_next_sample_resets_the_cursors() {
    let mut ss = StratifiedSampler::new(2, 2, true, 2);
    ss.request_1d_array(1);
    ss.request_2d_array(1);
    ss.start_pixel(Point2i { x: 0, y: 0 });
    ss.get_1d();
    ss.get_2d();
    ss.get_1d_array(1);
    ss.get_2d_array(1);
    assert_eq!(
        (ss.current_1d_dimension, ss.current_2d_dimension, ss.array_1d_offset, ss.array_2d_offset),
        (1, 1, 1, 1)
    );
    assert!(ss.start_next_sample());
    assert_eq!(
        (ss.current_1d_dimension, ss.current_2d_dimension, ss.array_1d_offset, ss.array_2d_offset),
        (0, 0, 0, 0)
    );
}

#[test]
fn request_2d_array_reserves_one_chunk_per_pixel_sample() {
    let mut ss = StratifiedSampler::new(2, 3, true, 0);
    ss.request_2d_array(5);
    ss.request_2d_array(0);
    ss.request_1d_array(7);
    assert_eq!(ss.samples_2d_array_sizes, vec![5, 0]);
    assert_eq!(ss.sample_array_2d, vec![vec![SamplePoint::zero(); 30], vec![]]);
    assert_eq!(ss.samples_1d_array_sizes, vec![7]);
    assert_eq!(ss.sample_array_1d, vec![vec![Sample::zero(); 42]]);
}

#[test]
fn one_array_per_pixel_sample_and_then_none() {
    let mut ss = StratifiedSampler::new(2, 2, true, 1);
    ss.request_2d_array(3);
    ss.start_pixel(Point2i { x: 5, y: 5 });
    let mut handed_out = 0;
    loop {
        let start = 3 * ss.get_current_sample_number() as usize;
        let expected = ss.sample_array_2d[0][start..start + 3].to_vec();
        let points = ss.get_2d_array(3).map(|p| p.to_vec());
        assert_eq!(points, Some(expected));
        handed_out += 1;
        assert!(ss.get_2d_array(3).is_none());
        assert!(ss.get_2d_array(3).is_none());
        if !ss.start_next_sample() {
            break;
        }
    }
    assert_eq!(handed_out, 4);
}

#[test]
fn arrays_come_in_the_order_of_their_requests() {
    let mut ss = StratifiedSampler::new(1, 2, true, 0);
    ss.request_1d_array(2);
    ss.request_1d_array(4);
    ss.start_pixel(Point2i { x: 0, y: 0 });
    assert!(ss.start_next_sample());
    let first = ss.sample_array_1d[0][2..4].to_vec();
    let second = ss.sample_array_1d[1][4..8].to_vec();
    assert_eq!(ss.get_1d_array(2).map(|s| s.to_vec()), Some(first));
    assert_eq!(ss.get_1d_array(4).map(|s| s.to_vec()), Some(second));
    assert!(ss.get_1d_array(4).is_none());
}

#[test]
fn array_chunks_are_stratified() {
    let mut ss = StratifiedSampler::new(2, 2, true, 0);
    ss.request_1d_array(8);
    ss.request_2d_array(8);
    ss.start_pixel(Point2i { x: 0, y: 0 });
    loop {
        let mut strata: Vec<u32> = ss.get_1d_array(8).unwrap().iter().map(|s| s.stratum).collect();
        strata.sort();
        assert_eq!(strata, (0..8).collect::<Vec<u32>>());
        let points = ss.get_2d_array(8).unwrap();
        let mut xs: Vec<u32> = points.iter().map(|p| p.x.stratum).collect();
        let mut ys: Vec<u32> = points.iter().map(|p| p.y.stratum).collect();
        xs.sort();
        ys.sort();
        assert_eq!(xs, (0..8).collect::<Vec<u32>>());
        assert_eq!(ys, (0..8).collect::<Vec<u32>>());
        if !ss.start_next_sample() {
            break;
        }
    }
}

#[test]
fn paired_arrays_come_in_the_order_of_their_requests() {
    let mut ss = StratifiedSampler::new(2, 1, true, 0);
    ss.request_2d_array(2);
    ss.request_2d_array(2);
    ss.start_pixel(Point2i { x: 0, y: 0 });
    assert!(ss.start_next_sample());
    let first = ss.sample_array_2d[0][2..4].to_vec();
    let second = ss.sample_array_2d[1][2..4].to_vec();
    assert_ne!(first, second);
    let (a, b) = ss.get_2d_arrays(2);
    assert_eq!(a.map(|p| p.to_vec()), Some(first));
    assert_eq!(b.map(|p| p.to_vec()), Some(second));
    assert_eq!(ss.array_2d_offset, 2);
    let (a, b) = ss.get_2d_arrays(2);
    assert!(a.is_none() && b.is_none());
    assert_eq!(ss.array_2d_offset, 2);
}

#[test]
fn paired_arrays_use_up_a_single_array_that_is_left() {
    let mut ss = StratifiedSampler::new(1, 1, true, 0);
    ss.request_2d_array(2);
    ss.request_2d_array(2);
    ss.request_2d_array(2);
    ss.start_pixel(Point2i { x: 0, y: 0 });
    let (a, b) = ss.get_2d_arrays(2);
    assert!(a.is_some() && b.is_some());
    let (a, b) = ss.get_2d_arrays(2);
    assert!(a.is_none() && b.is_none());
    assert_eq!(ss.array_2d_offset, 3);
    assert!(ss.get_2d_array(2).is_none());
}

#[test]
fn array_as_a_vector_is_a_copy_or_empty() {
    let mut ss = StratifiedSampler::new(2, 2, true, 0);
    ss.request_2d_array(3);
    ss.start_pixel(Point2i { x: 0, y: 0 });
    assert!(ss.start_next_sample());
    assert!(ss.start_next_sample());
    let expected = ss.sample_array_2d[0][6..9].to_vec();
    assert_eq!(ss.get_2d_array_vec(3), expected);
    assert_eq!(ss.array_2d_offset, 1);
    assert_eq!(ss.get_2d_array_vec(3), Vec::<SamplePoint>::new());
    assert_eq!(ss.array_2d_offset, 1);
}

#[test]
fn reseed_restarts_the_generator_only() {
    let mut ss = StratifiedSampler::new(2, 2, true, 1);
    ss.start_pixel(Point2i { x: 1, y: 2 });
    let tables = ss.samples_1d.clone();
    ss.reseed(7);
    assert_eq!(ss.rng.state, 0x1abf_2aa5_efa8_95f1);
    assert_eq!(ss.rng.inc, 15);
    assert_eq!(ss.samples_1d, tables);
    assert_eq!(ss.get_current_pixel(), Point2i { x: 1, y: 2 });
}

#[test]
fn clone_with_seed_is_independent_and_deterministic() {
    let mut parent = StratifiedSampler::new(2, 2, true, 2);
    parent.request_2d_array(2);
    parent.start_pixel(Point2i { x: 4, y: 4 });
    parent.start_next_sample();
    let mut a = stratified(parent.clone_with_seed(1));
    let mut b = stratified(parent.clone_with_seed(1));
    let mut other = stratified(parent.clone_with_seed(2));
    assert_eq!(a.samples_1d, parent.samples_1d);
    assert_eq!(a.samples_2d, parent.samples_2d);
    assert_eq!(a.sample_array_2d, parent.sample_array_2d);
    assert_eq!(a.samples_2d_array_sizes, vec![2]);
    assert_eq!(a.get_current_pixel(), Point2i { x: 4, y: 4 });
    assert_eq!(a.get_current_sample_number(), 1);
    assert_eq!(a.get_samples_per_pixel(), 4);
    let mut seeded = Rng::new();
    seeded.set_sequence(1);
    assert_eq!(a.rng, seeded);
    assert_ne!(a.rng, other.rng);
    let before = parent.samples_1d.clone();
    a.start_pixel(Point2i { x: 0, y: 0 });
    b.start_pixel(Point2i { x: 0, y: 0 });
    other.start_pixel(Point2i { x: 0, y: 0 });
    assert_eq!(a.samples_1d, b.samples_1d);
    assert_ne!(a.samples_1d, other.samples_1d);
    assert_eq!(parent.samples_1d, before);
}

#[test]
fn create_without_parameters_uses_the_defaults() {
    let ss = stratified(StratifiedSampler::create(&ParamSet::new()));
    assert!(ss.jitter_samples);
    assert_eq!(ss.x_pixel_samples, 4);
    assert_eq!(ss.y_pixel_samples, 4);
    assert_eq!(ss.get_samples_per_pixel(), 16);
    assert_eq!(ss.samples_1d.len(), 4);
    assert_eq!(ss.samples_2d.len(), 4);
}

#[test]
fn create_reads_its_parameters() {
    let mut params = ParamSet::new();
    params.add_bool("jitter", false);
    params.add_int("x-samples", 3);
    params.add_int("y-samples", 5);
    params.add_int("sampled-dimensions", 2);
    params.add_int("x-samples", 9);
    let ss = stratified(StratifiedSampler::create(&params));
    assert!(!ss.jitter_samples);
    assert_eq!(ss.x_pixel_samples, 3);
    assert_eq!(ss.y_pixel_samples, 5);
    assert_eq!(ss.get_samples_per_pixel(), 15);
    assert_eq!(ss.samples_1d.len(), 2);
}

#[test]
fn find_one_takes_the_first_parameter_with_one_value() {
    let mut params = ParamSet::new();
    params.add_int("n", 1);
    params.ints[0].values.push(2);
    params.add_int("n", 3);
    params.add_int("n", 4);
    params.add_bool("flag", true);
    assert_eq!(params.find_one_int("n", 0), 3);
    assert_eq!(params.find_one_int("m", 8), 8);
    assert!(params.find_one_bool("flag", false));
    assert!(!params.find_one_bool("n", false));
}

#[test]
fn sampler_of_any_kind_is_driven_the_same_way() {
    let mut direct = StratifiedSampler::new(2, 2, true, 1);
    let mut sampler = Sampler::Stratified(StratifiedSampler::new(2, 2, true, 1));
    direct.request_1d_array(2);
    direct.request_2d_array(3);
    sampler.request_1d_array(2);
    sampler.request_2d_array(3);
    direct.reseed(5);
    sampler.reseed(5);
    direct.start_pixel(Point2i { x: 9, y: 9 });
    sampler.start_pixel(Point2i { x: 9, y: 9 });
    assert_eq!(sampler.get_samples_per_pixel(), 4);
    loop {
        assert_eq!(sampler.get_1d(), direct.get_1d());
        assert_eq!(sampler.get_1d(), direct.get_1d());
        assert_eq!(sampler.get_2d(), direct.get_2d());
        assert_eq!(sampler.get_2d(), direct.get_2d());
        assert_eq!(
            sampler.get_1d_array(2).map(|s| s.to_vec()),
            direct.get_1d_array(2).map(|s| s.to_vec())
        );
        assert_eq!(
            sampler.get_2d_array(3).map(|p| p.to_vec()),
            direct.get_2d_array(3).map(|p| p.to_vec())
        );
        assert!(sampler.get_2d_array(3).is_none());
        let more = sampler.start_next_sample();
        assert_eq!(more, direct.start_next_sample());
        if !more {
            break;
        }
    }
    let copy = stratified(sampler.clone_with_seed(8));
    let mut seeded = Rng::new();
    seeded.set_sequence(8);
    assert_eq!(copy.rng, seeded);
    assert_eq!(copy.samples_1d, direct.samples_1d);
    assert_eq!(copy.get_current_sample_number(), 4);
}

#[test]
fn create_reads_each_option_under_its_own_name() {
    let mut params = ParamSet::new();
    params.add_int("sampled-dimensions", 7);
    let ss = stratified(StratifiedSampler::create(&params));
    assert_eq!((ss.x_pixel_samples, ss.y_pixel_samples), (4, 4));
    assert_eq!(ss.samples_1d.len(), 7);
    assert_eq!(ss.samples_2d.len(), 7);
    assert!(ss.jitter_samples);

    let mut params = ParamSet::new();
    params.add_int("y-samples", 2);
    params.add_int("samples", 9);
    params.add_bool("x-samples", false);
    params.add_int("jitter", 0);
    let ss = stratified(StratifiedSampler::create(&params));
    assert_eq!((ss.x_pixel_samples, ss.y_pixel_samples), (4, 2));
    assert_eq!(ss.get_samples_per_pixel(), 8);
    assert_eq!(ss.samples_1d.len(), 4);
    assert!(ss.jitter_samples);
}

#[test]
fn create_is_new_with_the_options() {
    let mut params = ParamSet::new();
    params.add_int("x-samples", 3);
    params.add_int("y-samples", 1);
    params.add_int("sampled-dimensions", 0);
    params.add_bool("jitter", false);
    let created = stratified(StratifiedSampler::create(&params));
    let made = StratifiedSampler::new(3, 1, false, 0);
    assert_eq!(created.get_samples_per_pixel(), made.get_samples_per_pixel());
    assert_eq!(created.jitter_samples, made.jitter_samples);
    assert_eq!(created.samples_1d, made.samples_1d);
    assert_eq!(created.samples_2d, made.samples_2d);
    assert_eq!(created.rng, made.rng);
}

#[test]
fn sampler_of_any_kind_hands_out_pairs_and_copies_of_arrays() {
    let mut direct = StratifiedSampler::new(2, 1, true, 0);
    let mut sampler = Sampler::Stratified(StratifiedSampler::new(2, 1, true, 0));
    for _ in 0..4 {
        direct.request_2d_array(2);
        sampler.request_2d_array(2);
    }
    assert_eq!(sampler.round_count(2), 2);
    assert_eq!(sampler.round_count(17), 17);
    direct.start_pixel(Point2i { x: 6, y: 7 });
    sampler.start_pixel(Point2i { x: 6, y: 7 });
    assert_eq!(sampler.get_current_pixel(), Point2i { x: 6, y: 7 });
    assert_eq!(sampler.get_current_sample_number(), 0);
    assert!(sampler.start_next_sample());
    assert!(direct.start_next_sample());
    assert_eq!(sampler.get_current_sample_number(), 1);
    let (a, b) = sampler.get_2d_arrays(2);
    assert_eq!(a.map(|p| p.to_vec()), Some(direct.sample_array_2d[0][2..4].to_vec()));
    assert_eq!(b.map(|p| p.to_vec()), Some(direct.sample_array_2d[1][2..4].to_vec()));
    assert_eq!(sampler.get_2d_array_vec(2), direct.sample_array_2d[2][2..4].to_vec());
    let (a, b) = sampler.get_2d_arrays(2);
    assert!(a.is_none() && b.is_none());
    assert_eq!(sampler.get_2d_array_vec(2), Vec::<SamplePoint>::new());
    assert!(!sampler.start_next_sample());
    assert_eq!(sampler.get_current_sample_number(), 2);
}
