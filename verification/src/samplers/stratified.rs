//! The stratified sampler: per pixel, tables of stratified samples for the
//! first dimensions and arrays of samples for the requests made beforehand.

use vstd::prelude::*;
use crate::geometry::Point2i;
use crate::paramset::ParamSet;
use crate::rng::Rng;
use crate::sample::{Sample, SamplePoint};
use crate::sampler::Sampler;
use crate::samplers::state::{lemma_start_pixel_wf, SamplerState};
use crate::samplers::tables::{
    generate_arrays_1d,
    generate_arrays_2d,
    generate_tables_1d,
    generate_tables_2d,
    spec_rows,
    spec_sizes,
};

verus! {

/// A sampler that takes `x_pixel_samples * y_pixel_samples` stratified
/// samples in every pixel.
///
/// What the sampler is, as a value, is its view; every operation states there
/// what it hands out and what it leaves behind.
pub struct StratifiedSampler {
    pub samples_per_pixel: i64,
    pub x_pixel_samples: i32,
    pub y_pixel_samples: i32,
    /// Whether samples are moved off the centres of their strata.
    pub jitter_samples: bool,
    /// For each of the first scalar dimensions, one sample per pixel sample.
    pub samples_1d: Vec<Vec<Sample>>,
    /// For each of the first dimensions of points, one point per pixel sample.
    pub samples_2d: Vec<Vec<SamplePoint>>,
    /// The table that the next scalar comes from.
    pub current_1d_dimension: usize,
    /// The table that the next point comes from.
    pub current_2d_dimension: usize,
    pub rng: Rng,
    pub current_pixel: Point2i,
    pub current_pixel_sample_index: i64,
    /// The sizes of the arrays of scalars, in the order of their requests.
    pub samples_1d_array_sizes: Vec<i32>,
    /// The sizes of the arrays of points, in the order of their requests.
    pub samples_2d_array_sizes: Vec<i32>,
    /// For each array of scalars, its samples for all pixel samples, one chunk after the other.
    pub sample_array_1d: Vec<Vec<Sample>>,
    /// For each array of points, its points for all pixel samples, one chunk after the other.
    pub sample_array_2d: Vec<Vec<SamplePoint>>,
    /// The array of scalars that is handed out next.
    pub array_1d_offset: usize,
    /// The array of points that is handed out next.
    pub array_2d_offset: usize,
    /// Whether a pixel has been started: from then on no array can be requested.
    pub started: bool,
}

impl View for StratifiedSampler {
    type V = SamplerState;

    open spec fn view(&self) -> SamplerState {
        SamplerState {
            samples_per_pixel: self.samples_per_pixel as int,
            x_pixel_samples: self.x_pixel_samples as int,
            y_pixel_samples: self.y_pixel_samples as int,
            jitter_samples: self.jitter_samples,
            samples_1d: spec_rows(self.samples_1d),
            samples_2d: spec_rows(self.samples_2d),
            current_1d_dimension: self.current_1d_dimension as int,
            current_2d_dimension: self.current_2d_dimension as int,
            rng: self.rng,
            current_pixel: self.current_pixel,
            current_pixel_sample_index: self.current_pixel_sample_index as int,
            samples_1d_array_sizes: spec_sizes(self.samples_1d_array_sizes),
            samples_2d_array_sizes: spec_sizes(self.samples_2d_array_sizes),
            sample_array_1d: spec_rows(self.sample_array_1d),
            sample_array_2d: spec_rows(self.sample_array_2d),
            array_1d_offset: self.array_1d_offset as int,
            array_2d_offset: self.array_2d_offset as int,
            started: self.started,
        }
    }
}

/// A vector of `len` copies of `value`.
fn filled<T: Copy>(value: T, len: usize) -> (v: Vec<T>)
    ensures
        v@ == Seq::new(len as nat, |j: int| value),
{
    let mut v: Vec<T> = Vec::new();
    let mut i: usize = 0;
    while i < len
        invariant
            i <= len,
            v@.len() == i,
            forall|j: int| 0 <= j < i ==> v@[j] == value,
        decreases len - i,
    {
        v.push(value);
        i += 1;
    }
    assert(v@ =~= Seq::new(len as nat, |j: int| value));
    v
}

/// A copy of `rows`, row by row.
fn copy_rows<T: Copy>(rows: &Vec<Vec<T>>) -> (copy: Vec<Vec<T>>)
    ensures
        spec_rows(copy) == spec_rows(*rows),
{
    let mut copy: Vec<Vec<T>> = Vec::new();
    let mut i: usize = 0;
    while i < rows.len()
        invariant
            i <= rows@.len(),
            copy@.len() == i,
            forall|k: int| 0 <= k < i ==> (#[trigger] copy@[k])@ == rows@[k]@,
        decreases rows@.len() - i,
    {
        copy.push(vstd::slice::slice_to_vec(rows[i].as_slice()));
        i += 1;
    }
    assert(spec_rows(copy) =~= spec_rows(*rows));
    copy
}

impl StratifiedSampler {
    /// A sampler of `x_pixel_samples` by `y_pixel_samples` samples per pixel,
    /// with tables for the first `n_sampled_dimensions` dimensions.
    pub fn new(
        x_pixel_samples: i32,
        y_pixel_samples: i32,
        jitter_samples: bool,
        n_sampled_dimensions: i64,
    ) -> (ss: StratifiedSampler)
        requires
            0 <= x_pixel_samples,
            0 <= y_pixel_samples,
            x_pixel_samples * y_pixel_samples <= i32::MAX,
        ensures
            ss@ == SamplerState::new(
                x_pixel_samples as int,
                y_pixel_samples as int,
                jitter_samples,
                n_sampled_dimensions as int,
            ),
            ss@.wf(),
    {
        assert(0 <= x_pixel_samples * y_pixel_samples) by (nonlinear_arith)
            requires
                0 <= x_pixel_samples,
                0 <= y_pixel_samples,
        ;
        let spp: i32 = x_pixel_samples * y_pixel_samples;
        let mut ss = StratifiedSampler {
            samples_per_pixel: spp as i64,
            x_pixel_samples,
            y_pixel_samples,
            jitter_samples,
            samples_1d: Vec::new(),
            samples_2d: Vec::new(),
            current_1d_dimension: 0,
            current_2d_dimension: 0,
            rng: Rng::new(),
            current_pixel: Point2i::zero(),
            current_pixel_sample_index: 0,
            samples_1d_array_sizes: Vec::new(),
            samples_2d_array_sizes: Vec::new(),
            sample_array_1d: Vec::new(),
            sample_array_2d: Vec::new(),
            array_1d_offset: 0,
            array_2d_offset: 0,
            started: false,
        };
        let mut i: i64 = 0;
        while i < n_sampled_dimensions
            invariant
                0 <= i,
                i <= n_sampled_dimensions || n_sampled_dimensions < 0,
                n_sampled_dimensions < 0 ==> i == 0,
                0 <= spp,
                spp == x_pixel_samples * y_pixel_samples,
                ss.samples_1d@.len() == i,
                ss.samples_2d@.len() == i,
                forall|k: int|
                    0 <= k < i ==> (#[trigger] ss.samples_1d@[k])@ == Seq::new(
                        spp as nat,
                        |j: int| Sample::spec_zero(),
                    ),
                forall|k: int|
                    0 <= k < i ==> (#[trigger] ss.samples_2d@[k])@ == Seq::new(
                        spp as nat,
                        |j: int| SamplePoint::spec_zero(),
                    ),
                ss.samples_per_pixel == spp,
                ss.x_pixel_samples == x_pixel_samples,
                ss.y_pixel_samples == y_pixel_samples,
                ss.jitter_samples == jitter_samples,
                ss.current_1d_dimension == 0,
                ss.current_2d_dimension == 0,
                ss.rng == Rng::spec_new(),
                ss.current_pixel == Point2i::spec_zero(),
                ss.current_pixel_sample_index == 0,
                ss.samples_1d_array_sizes@.len() == 0,
                ss.samples_2d_array_sizes@.len() == 0,
                ss.sample_array_1d@.len() == 0,
                ss.sample_array_2d@.len() == 0,
                ss.array_1d_offset == 0,
                ss.array_2d_offset == 0,
                !ss.started,
            decreases n_sampled_dimensions - i,
        {
            ss.samples_1d.push(filled(Sample::zero(), spp as usize));
            ss.samples_2d.push(filled(SamplePoint::zero(), spp as usize));
            i += 1;
        }
        proof {
            let model = SamplerState::new(
                x_pixel_samples as int,
                y_pixel_samples as int,
                jitter_samples,
                n_sampled_dimensions as int,
            );
            assert(ss@.samples_1d =~= model.samples_1d);
            assert(ss@.samples_2d =~= model.samples_2d);
            assert(ss@.samples_1d_array_sizes =~= model.samples_1d_array_sizes);
            assert(ss@.samples_2d_array_sizes =~= model.samples_2d_array_sizes);
            assert(ss@.sample_array_1d =~= model.sample_array_1d);
            assert(ss@.sample_array_2d =~= model.sample_array_2d);
        }
        ss
    }

    /// Starts pixel `p` at its first sample. Every table and every array is
    /// generated anew here, and nowhere else; the dimension cursors stay.
    pub fn start_pixel(&mut self, p: Point2i)
        requires
            old(self)@.wf(),
        ensures
            final(self)@ == old(self)@.start_pixel(p),
            final(self)@.wf(),
    {
        let spp: u32 = self.samples_per_pixel as u32;
        let nx: u32 = self.x_pixel_samples as u32;
        let ny: u32 = self.y_pixel_samples as u32;
        proof {
            assert forall|i: int| 0 <= i < self.samples_1d@.len() implies (
            #[trigger] self.samples_1d@[i])@.len() == spp by {
                assert(self@.samples_1d[i].len() == spp);
            }
            assert forall|i: int| 0 <= i < self.samples_2d@.len() implies (
            #[trigger] self.samples_2d@[i])@.len() == nx * ny by {
                assert(self@.samples_2d[i].len() == spp);
            }
            assert forall|i: int| 0 <= i < self.samples_1d_array_sizes@.len() implies 0
                <= #[trigger] self.samples_1d_array_sizes@[i] && self.sample_array_1d@[i]@.len()
                == self.samples_1d_array_sizes@[i] * spp by {
                assert(self@.samples_1d_array_sizes[i] == self.samples_1d_array_sizes@[i]);
                assert(self@.sample_array_1d[i] == self.sample_array_1d@[i]@);
            }
            assert forall|i: int| 0 <= i < self.samples_2d_array_sizes@.len() implies 0
                <= #[trigger] self.samples_2d_array_sizes@[i] && self.sample_array_2d@[i]@.len()
                == self.samples_2d_array_sizes@[i] * spp by {
                assert(self@.samples_2d_array_sizes[i] == self.samples_2d_array_sizes@[i]);
                assert(self@.sample_array_2d[i] == self.sample_array_2d@[i]@);
            }
        }
        generate_tables_1d(&mut self.samples_1d, spp, self.jitter_samples, &mut self.rng);
        generate_tables_2d(&mut self.samples_2d, nx, ny, self.jitter_samples, &mut self.rng);
        generate_arrays_1d(
            &mut self.sample_array_1d,
            &self.samples_1d_array_sizes,
            spp,
            self.jitter_samples,
            &mut self.rng,
        );
        generate_arrays_2d(
            &mut self.sample_array_2d,
            &self.samples_2d_array_sizes,
            spp,
            &mut self.rng,
        );
        self.current_pixel = p;
        self.current_pixel_sample_index = 0;
        self.array_1d_offset = 0;
        self.array_2d_offset = 0;
        self.started = true;
        proof {
            lemma_start_pixel_wf(old(self)@, p);
            assert(self@.samples_1d_array_sizes =~= old(self)@.samples_1d_array_sizes);
            assert(self@.samples_2d_array_sizes =~= old(self)@.samples_2d_array_sizes);
            assert(self@ == old(self)@.start_pixel(p));
        }
    }

    /// An independent copy of this sampler, with its own generator at the
    /// start of sequence `seed`.
    pub fn clone_with_seed(&self, seed: u64) -> (sampler: Sampler)
        ensures
            sampler matches Sampler::Stratified(ss) && ss@ == self@.reseed(seed),
            self@.wf() ==> sampler.wf(),
    {
        let mut ss = StratifiedSampler {
            samples_per_pixel: self.samples_per_pixel,
            x_pixel_samples: self.x_pixel_samples,
            y_pixel_samples: self.y_pixel_samples,
            jitter_samples: self.jitter_samples,
            samples_1d: copy_rows(&self.samples_1d),
            samples_2d: copy_rows(&self.samples_2d),
            current_1d_dimension: self.current_1d_dimension,
            current_2d_dimension: self.current_2d_dimension,
            rng: self.rng,
            current_pixel: self.current_pixel,
            current_pixel_sample_index: self.current_pixel_sample_index,
            samples_1d_array_sizes: vstd::slice::slice_to_vec(self.samples_1d_array_sizes.as_slice()),
            samples_2d_array_sizes: vstd::slice::slice_to_vec(self.samples_2d_array_sizes.as_slice()),
            sample_array_1d: copy_rows(&self.sample_array_1d),
            sample_array_2d: copy_rows(&self.sample_array_2d),
            array_1d_offset: self.array_1d_offset,
            array_2d_offset: self.array_2d_offset,
            started: self.started,
        };
        assert(ss@.samples_1d_array_sizes =~= self@.samples_1d_array_sizes);
        assert(ss@.samples_2d_array_sizes =~= self@.samples_2d_array_sizes);
        assert(ss@ == self@);
        ss.reseed(seed);
        Sampler::Stratified(ss)
    }

    /// The sampler that `params` asks for. The options are `jitter` (on
    /// unless said otherwise), `x-samples` and `y-samples` (4 each), and
    /// `sampled-dimensions` (4).
    pub fn create(params: &ParamSet) -> (sampler: Sampler)
        requires
            0 <= StratifiedSampler::spec_x_samples(params),
            0 <= StratifiedSampler::spec_y_samples(params),
            StratifiedSampler::spec_x_samples(params) * StratifiedSampler::spec_y_samples(params)
                <= i32::MAX,
        ensures
            sampler matches Sampler::Stratified(ss) && ss@ == SamplerState::new(
                StratifiedSampler::spec_x_samples(params) as int,
                StratifiedSampler::spec_y_samples(params) as int,
                StratifiedSampler::spec_jitter(params),
                StratifiedSampler::spec_sampled_dimensions(params) as int,
            ),
            sampler.wf(),
    {
        let jitter: bool = params.find_one_bool("jitter", true);
        let xsamp: i32 = params.find_one_int("x-samples", 4);
        let ysamp: i32 = params.find_one_int("y-samples", 4);
        let sd: i32 = params.find_one_int("sampled-dimensions", 4);
        Sampler::Stratified(StratifiedSampler::new(xsamp, ysamp, jitter, sd as i64))
    }

    /// Whether `params` asks for jitter: the option `jitter`, on unless said otherwise.
    pub open spec fn spec_jitter(params: &ParamSet) -> bool {
        params.spec_find_one_bool("jitter"@, true)
    }

    /// The number of strata along `x` that `params` asks for: the option `x-samples`, or 4.
    pub open spec fn spec_x_samples(params: &ParamSet) -> i32 {
        params.spec_find_one_int("x-samples"@, 4)
    }

    /// The number of strata along `y` that `params` asks for: the option `y-samples`, or 4.
    pub open spec fn spec_y_samples(params: &ParamSet) -> i32 {
        params.spec_find_one_int("y-samples"@, 4)
    }

    /// The number of dimensions with tables that `params` asks for: the
    /// option `sampled-dimensions`, or 4.
    pub open spec fn spec_sampled_dimensions(params: &ParamSet) -> i32 {
        params.spec_find_one_int("sampled-dimensions"@, 4)
    }

    /// The identity: a stratified sampler takes an array of any size as it is.
    pub fn round_count(&self, count: i32) -> (r: i32)
        ensures
            r == count,
    {
        count
    }

    /// Restarts the generator at the beginning of sequence `seed`.
    pub fn reseed(&mut self, seed: u64)
        ensures
            final(self)@ == old(self)@.reseed(seed),
            old(self)@.wf() ==> final(self)@.wf(),
    {
        self.rng.set_sequence(seed);
    }

    /// The pixel that is being sampled.
    pub fn get_current_pixel(&self) -> (p: Point2i)
        ensures
            p == self@.current_pixel,
    {
        self.current_pixel
    }

    /// The number of the sample of the pixel that is being taken, from zero.
    pub fn get_current_sample_number(&self) -> (n: i64)
        ensures
            n == self@.current_pixel_sample_index,
    {
        self.current_pixel_sample_index
    }

    /// The number of samples that the sampler takes in every pixel.
    pub fn get_samples_per_pixel(&self) -> (n: i64)
        ensures
            n == self@.samples_per_pixel,
    {
        self.samples_per_pixel
    }

    /// Hands out the next scalar of the current pixel sample.
    pub fn get_1d(&mut self) -> (s: Sample)
        requires
            old(self)@.wf(),
            old(self)@.active(),
        ensures
            s == old(self)@.get_1d().0,
            final(self)@ == old(self)@.get_1d().1,
            final(self)@.wf(),
            s.wf(),
            s.in_unit_interval(),
    {
        let s = if self.current_1d_dimension < self.samples_1d.len() {
            assert(self@.samples_1d[self.current_1d_dimension as int].len()
                == self.samples_per_pixel);
            let sample: Sample =
                self.samples_1d[self.current_1d_dimension][self.current_pixel_sample_index as usize];
            assert(sample == self@.samples_1d[self.current_1d_dimension
                as int][self.current_pixel_sample_index as int]);
            self.current_1d_dimension += 1;
            sample
        } else {
            self.rng.uniform_sample()
        };
        proof {
            s.lemma_wf_in_unit_interval();
        }
        s
    }

    /// Hands out the next point of the current pixel sample.
    pub fn get_2d(&mut self) -> (p: SamplePoint)
        requires
            old(self)@.wf(),
            old(self)@.active(),
        ensures
            p == old(self)@.get_2d().0,
            final(self)@ == old(self)@.get_2d().1,
            final(self)@.wf(),
            p.wf(),
            p.x.in_unit_interval(),
            p.y.in_unit_interval(),
    {
        let p = if self.current_2d_dimension < self.samples_2d.len() {
            assert(self@.samples_2d[self.current_2d_dimension as int].len()
                == self.samples_per_pixel);
            let sample: SamplePoint =
                self.samples_2d[self.current_2d_dimension][self.current_pixel_sample_index as usize];
            assert(sample == self@.samples_2d[self.current_2d_dimension
                as int][self.current_pixel_sample_index as int]);
            self.current_2d_dimension += 1;
            sample
        } else {
            proof {
                crate::sampling::lemma_skip_next(self.rng, 0);
                crate::sampling::lemma_skip_next(self.rng, 1);
            }
            let y = self.rng.uniform_sample();
            let x = self.rng.uniform_sample();
            SamplePoint { x, y }
        };
        proof {
            p.x.lemma_wf_in_unit_interval();
            p.y.lemma_wf_in_unit_interval();
        }
        p
    }

    /// Moves on to the next sample of the pixel and says whether there is one.
    pub fn start_next_sample(&mut self) -> (more: bool)
        requires
            old(self)@.wf(),
            old(self)@.current_pixel_sample_index < i64::MAX,
        ensures
            more == old(self)@.start_next_sample().0,
            final(self)@ == old(self)@.start_next_sample().1,
            final(self)@.wf(),
            final(self)@.current_pixel_sample_index == old(self)@.current_pixel_sample_index + 1,
            more == (old(self)@.current_pixel_sample_index + 1 < old(self)@.samples_per_pixel),
    {
        self.current_1d_dimension = 0;
        self.current_2d_dimension = 0;
        self.array_1d_offset = 0;
        self.array_2d_offset = 0;
        self.current_pixel_sample_index += 1;
        self.current_pixel_sample_index < self.samples_per_pixel
    }

    /// Registers an array of `n` scalars per pixel sample. Arrays are handed
    /// out in the order in which they were requested.
    pub fn request_1d_array(&mut self, n: i32)
        requires
            old(self)@.wf(),
            !old(self)@.started,
            0 <= n,
            n * old(self)@.samples_per_pixel <= usize::MAX,
        ensures
            final(self)@ == old(self)@.request_1d_array(n as int),
            final(self)@.wf(),
    {
        let n: i32 = self.round_count(n);
        proof {
            lemma_chunk_bounds(n as int, self.samples_per_pixel as int, 0);
        }
        let size: usize = n as usize * self.samples_per_pixel as usize;
        self.samples_1d_array_sizes.push(n);
        self.sample_array_1d.push(filled(Sample::zero(), size));
        proof {
            let model = old(self)@.request_1d_array(n as int);
            assert(self@.samples_1d_array_sizes =~= model.samples_1d_array_sizes);
            assert(self@.sample_array_1d =~= model.sample_array_1d);
            assert(self@.samples_2d_array_sizes =~= model.samples_2d_array_sizes);
            assert(self@.sample_array_2d =~= model.sample_array_2d);
            assert(self@.samples_1d =~= model.samples_1d);
            assert(self@.samples_2d =~= model.samples_2d);
            assert(self@ == model);
        }
    }

    /// Registers an array of `n` points per pixel sample. Arrays are handed
    /// out in the order in which they were requested.
    pub fn request_2d_array(&mut self, n: i32)
        requires
            old(self)@.wf(),
            !old(self)@.started,
            0 <= n,
            n * old(self)@.samples_per_pixel <= usize::MAX,
        ensures
            final(self)@ == old(self)@.request_2d_array(n as int),
            final(self)@.wf(),
    {
        let n: i32 = self.round_count(n);
        proof {
            lemma_chunk_bounds(n as int, self.samples_per_pixel as int, 0);
        }
        let size: usize = n as usize * self.samples_per_pixel as usize;
        self.samples_2d_array_sizes.push(n);
        self.sample_array_2d.push(filled(SamplePoint::zero(), size));
        proof {
            let model = old(self)@.request_2d_array(n as int);
            assert(self@.samples_1d_array_sizes =~= model.samples_1d_array_sizes);
            assert(self@.sample_array_1d =~= model.sample_array_1d);
            assert(self@.samples_2d_array_sizes =~= model.samples_2d_array_sizes);
            assert(self@.sample_array_2d =~= model.sample_array_2d);
            assert(self@.samples_1d =~= model.samples_1d);
            assert(self@.samples_2d =~= model.samples_2d);
            assert(self@ == model);
        }
    }

    /// Hands out the next array of scalars for the current pixel sample, or
    /// `None` when every array of this pixel sample has been handed out.
    pub fn get_1d_array(&mut self, n: i32) -> (r: Option<&[Sample]>)
        requires
            old(self)@.wf(),
            old(self)@.can_get_1d_array(n as int),
        ensures
            r is Some <==> old(self)@.array_1d_offset < old(self)@.sample_array_1d.len(),
            r matches Some(samples) ==> Some(samples@) == old(self)@.get_1d_array().0
                && samples@.len() == n && forall|i: int|
                0 <= i < n ==> (#[trigger] samples@[i]).wf(),
            r is None ==> old(self)@.get_1d_array().0 is None,
            final(self)@ == old(self)@.get_1d_array().1,
            final(self)@.wf(),
    {
        if self.array_1d_offset == self.sample_array_1d.len() {
            return None;
        }
        let slot: usize = self.array_1d_offset;
        proof {
            assert(self@.samples_1d_array_sizes[slot as int] == n);
            assert(self@.sample_array_1d[slot as int].len() == n * self.samples_per_pixel);
            lemma_chunk_bounds(
                n as int,
                self.samples_per_pixel as int,
                self.current_pixel_sample_index as int,
            );
        }
        let total: usize = self.sample_array_1d[slot].len();
        assert(total == n * self.samples_per_pixel);
        let start: usize = self.current_pixel_sample_index as usize * n as usize;
        let end: usize = start + n as usize;
        self.array_1d_offset += 1;
        let samples: &[Sample] = &self.sample_array_1d[slot][start..end];
        proof {
            assert forall|i: int| 0 <= i < n implies (#[trigger] samples@[i]).wf() by {
                assert(samples@[i] == old(self)@.sample_array_1d[slot as int][start + i]);
            }
        }
        Some(samples)
    }

    /// Hands out the next array of points for the current pixel sample, or
    /// `None` when every array of this pixel sample has been handed out.
    pub fn get_2d_array(&mut self, n: i32) -> (r: Option<&[SamplePoint]>)
        requires
            old(self)@.wf(),
            old(self)@.can_get_2d_array(n as int),
        ensures
            r is Some <==> old(self)@.array_2d_offset < old(self)@.sample_array_2d.len(),
            r matches Some(points) ==> Some(points@) == old(self)@.get_2d_array().0
                && points@.len() == n && forall|i: int|
                0 <= i < n ==> (#[trigger] points@[i]).wf(),
            r is None ==> old(self)@.get_2d_array().0 is None,
            final(self)@ == old(self)@.get_2d_array().1,
            final(self)@.wf(),
    {
        if self.array_2d_offset == self.sample_array_2d.len() {
            return None;
        }
        let slot: usize = self.array_2d_offset;
        proof {
            assert(self@.samples_2d_array_sizes[slot as int] == n);
            assert(self@.sample_array_2d[slot as int].len() == n * self.samples_per_pixel);
            lemma_chunk_bounds(
                n as int,
                self.samples_per_pixel as int,
                self.current_pixel_sample_index as int,
            );
        }
        let total: usize = self.sample_array_2d[slot].len();
        assert(total == n * self.samples_per_pixel);
        let start: usize = self.current_pixel_sample_index as usize * n as usize;
        let end: usize = start + n as usize;
        self.array_2d_offset += 1;
        let points: &[SamplePoint] = &self.sample_array_2d[slot][start..end];
        proof {
            assert forall|i: int| 0 <= i < n implies (#[trigger] points@[i]).wf() by {
                assert(points@[i] == old(self)@.sample_array_2d[slot as int][start + i]);
            }
        }
        Some(points)
    }

    /// Hands out the next two arrays of points, in the order of their
    /// requests. Where no array is left, or only one, it hands out nothing,
    /// and the one that was left is used up.
    pub fn get_2d_arrays(&mut self, n: i32) -> (r: (Option<&[SamplePoint]>, Option<&[SamplePoint]>))
        requires
            old(self)@.wf(),
            old(self)@.can_get_2d_array(n as int),
            old(self)@.get_2d_array().1.can_get_2d_array(n as int),
        ensures
            r.0 is Some <==> r.1 is Some,
            r.0 is Some <==> old(self)@.array_2d_offset + 2 <= old(self)@.sample_array_2d.len(),
            r.0 matches Some(first) ==> (r.1 matches Some(second) ==> Some((first@, second@)) == old(
                self,
            )@.get_2d_arrays().0 && first@.len() == n && second@.len() == n),
            r.0 is None ==> old(self)@.get_2d_arrays().0 is None,
            final(self)@ == old(self)@.get_2d_arrays().1,
            final(self)@.wf(),
    {
        let len: usize = self.sample_array_2d.len();
        if self.array_2d_offset == len {
            return (None, None);
        }
        let slot: usize = self.array_2d_offset;
        proof {
            assert(self@.samples_2d_array_sizes[slot as int] == n);
            assert(self@.sample_array_2d[slot as int].len() == n * self.samples_per_pixel);
            lemma_chunk_bounds(
                n as int,
                self.samples_per_pixel as int,
                self.current_pixel_sample_index as int,
            );
        }
        let total: usize = self.sample_array_2d[slot].len();
        assert(total == n * self.samples_per_pixel);
        let start: usize = self.current_pixel_sample_index as usize * n as usize;
        let end: usize = start + n as usize;
        self.array_2d_offset += 1;
        if self.array_2d_offset == len {
            return (None, None);
        }
        proof {
            assert(self@.samples_2d_array_sizes[slot + 1] == n);
            assert(self@.sample_array_2d[slot + 1].len() == n * self.samples_per_pixel);
        }
        self.array_2d_offset += 1;
        let first: &[SamplePoint] = &self.sample_array_2d[slot][start..end];
        let second: &[SamplePoint] = &self.sample_array_2d[slot + 1][start..end];
        (Some(first), Some(second))
    }

    /// Hands out a copy of the next array of points for the current pixel
    /// sample; the copy is empty when every array has been handed out.
    pub fn get_2d_array_vec(&mut self, n: i32) -> (v: Vec<SamplePoint>)
        requires
            old(self)@.wf(),
            old(self)@.can_get_2d_array(n as int),
        ensures
            v@ == match old(self)@.get_2d_array().0 {
                Some(points) => points,
                None => Seq::empty(),
            },
            final(self)@ == old(self)@.get_2d_array().1,
            final(self)@.wf(),
            forall|i: int| 0 <= i < v@.len() ==> (#[trigger] v@[i]).wf(),
    {
        match self.get_2d_array(n) {
            Some(points) => vstd::slice::slice_to_vec(points),
            None => Vec::new(),
        }
    }
}

/// Chunk `index` of `chunks` chunks of `n` elements lies inside the `n * chunks` elements.
pub proof fn lemma_chunk_bounds(n: int, chunks: int, index: int)
    requires
        0 <= n,
        0 <= chunks,
    ensures
        0 <= n * chunks,
        0 <= index < chunks ==> 0 <= index * n && index * n + n <= n * chunks,
{
    assert(0 <= n * chunks) by (nonlinear_arith)
        requires
            0 <= n,
            0 <= chunks,
    ;
    if 0 <= index < chunks {
        assert(0 <= index * n && index * n + n <= n * chunks) by (nonlinear_arith)
            requires
                0 <= n,
                0 <= index < chunks,
        ;
    }
}

} // verus!
