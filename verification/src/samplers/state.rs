//! The stratified sampler as a state machine over mathematical values.
//!
//! `SamplerState` is what a sampler is, apart from how it is stored; each
//! operation of the sampler is a function from one state to the next, and to
//! what the operation hands out.

use vstd::prelude::*;
use crate::geometry::Point2i;
use crate::rng::Rng;
use crate::sample::{Sample, SamplePoint};
use crate::samplers::tables::{
    lemma_arrays_1d,
    lemma_arrays_2d,
    lemma_tables_1d,
    lemma_tables_2d,
    spec_all_wf_1d,
    spec_all_wf_2d,
    spec_arrays_1d,
    spec_arrays_2d,
    spec_tables_1d,
    spec_tables_2d,
};

verus! {

/// A sampler, as a value.
pub struct SamplerState {
    pub samples_per_pixel: int,
    pub x_pixel_samples: int,
    pub y_pixel_samples: int,
    pub jitter_samples: bool,
    /// One table of `samples_per_pixel` samples for each scalar dimension.
    pub samples_1d: Seq<Seq<Sample>>,
    /// One table of `samples_per_pixel` points for each dimension of points.
    pub samples_2d: Seq<Seq<SamplePoint>>,
    pub current_1d_dimension: int,
    pub current_2d_dimension: int,
    pub rng: Rng,
    pub current_pixel: Point2i,
    pub current_pixel_sample_index: int,
    /// The sizes of the array requests, in the order in which they were made.
    pub samples_1d_array_sizes: Seq<int>,
    pub samples_2d_array_sizes: Seq<int>,
    /// For each request its storage: `samples_per_pixel` chunks of the requested size.
    pub sample_array_1d: Seq<Seq<Sample>>,
    pub sample_array_2d: Seq<Seq<SamplePoint>>,
    pub array_1d_offset: int,
    pub array_2d_offset: int,
    /// Whether a pixel has been started; from then on no array can be requested.
    pub started: bool,
}

impl SamplerState {
    /// The invariant of a sampler.
    pub open spec fn wf(self) -> bool {
        &&& 0 <= self.x_pixel_samples <= i32::MAX
        &&& 0 <= self.y_pixel_samples <= i32::MAX
        &&& self.samples_per_pixel == self.x_pixel_samples * self.y_pixel_samples
        &&& self.samples_per_pixel <= i32::MAX
        &&& forall|i: int|
            0 <= i < self.samples_1d.len() ==> (#[trigger] self.samples_1d[i]).len()
                == self.samples_per_pixel
        &&& forall|i: int|
            0 <= i < self.samples_2d.len() ==> (#[trigger] self.samples_2d[i]).len()
                == self.samples_per_pixel
        &&& spec_all_wf_1d(self.samples_1d)
        &&& spec_all_wf_2d(self.samples_2d)
        &&& 0 <= self.current_1d_dimension <= self.samples_1d.len()
        &&& 0 <= self.current_2d_dimension <= self.samples_2d.len()
        &&& 0 <= self.current_pixel_sample_index
        &&& self.samples_1d_array_sizes.len() == self.sample_array_1d.len()
        &&& self.samples_2d_array_sizes.len() == self.sample_array_2d.len()
        &&& forall|i: int|
            0 <= i < self.sample_array_1d.len() ==> 0 <= #[trigger] self.samples_1d_array_sizes[i]
                <= i32::MAX && self.sample_array_1d[i].len() == self.samples_1d_array_sizes[i]
                * self.samples_per_pixel
        &&& forall|i: int|
            0 <= i < self.sample_array_2d.len() ==> 0 <= #[trigger] self.samples_2d_array_sizes[i]
                <= i32::MAX && self.sample_array_2d[i].len() == self.samples_2d_array_sizes[i]
                * self.samples_per_pixel
        &&& spec_all_wf_1d(self.sample_array_1d)
        &&& spec_all_wf_2d(self.sample_array_2d)
        &&& 0 <= self.array_1d_offset <= self.sample_array_1d.len()
        &&& 0 <= self.array_2d_offset <= self.sample_array_2d.len()
    }

    /// A sample of the current pixel is being taken: samples can be handed out.
    pub open spec fn active(self) -> bool {
        self.current_pixel_sample_index < self.samples_per_pixel
    }

    /// A new sampler with `dimensions` tables of each kind, all zero.
    pub open spec fn new(x: int, y: int, jitter: bool, dimensions: int) -> SamplerState {
        let count = if dimensions < 0 {
            0nat
        } else {
            dimensions as nat
        };
        SamplerState {
            samples_per_pixel: x * y,
            x_pixel_samples: x,
            y_pixel_samples: y,
            jitter_samples: jitter,
            samples_1d: Seq::new(count, |i: int| Seq::new((x * y) as nat, |j: int| Sample::spec_zero())),
            samples_2d: Seq::new(
                count,
                |i: int| Seq::new((x * y) as nat, |j: int| SamplePoint::spec_zero()),
            ),
            current_1d_dimension: 0,
            current_2d_dimension: 0,
            rng: Rng::spec_new(),
            current_pixel: Point2i::spec_zero(),
            current_pixel_sample_index: 0,
            samples_1d_array_sizes: Seq::empty(),
            samples_2d_array_sizes: Seq::empty(),
            sample_array_1d: Seq::empty(),
            sample_array_2d: Seq::empty(),
            array_1d_offset: 0,
            array_2d_offset: 0,
            started: false,
        }
    }

    /// The sampler with its generator at the start of sequence `seed`.
    pub open spec fn reseed(self, seed: u64) -> SamplerState {
        SamplerState { rng: Rng::spec_seeded(seed), ..self }
    }

    /// The sampler after an array of `n` samples per pixel sample was requested.
    pub open spec fn request_1d_array(self, n: int) -> SamplerState {
        SamplerState {
            samples_1d_array_sizes: self.samples_1d_array_sizes.push(n),
            sample_array_1d: self.sample_array_1d.push(
                Seq::new((n * self.samples_per_pixel) as nat, |j: int| Sample::spec_zero()),
            ),
            ..self
        }
    }

    /// The sampler after an array of `n` points per pixel sample was requested.
    pub open spec fn request_2d_array(self, n: int) -> SamplerState {
        SamplerState {
            samples_2d_array_sizes: self.samples_2d_array_sizes.push(n),
            sample_array_2d: self.sample_array_2d.push(
                Seq::new((n * self.samples_per_pixel) as nat, |j: int| SamplePoint::spec_zero()),
            ),
            ..self
        }
    }

    /// The sampler at the first sample of pixel `p`: every table and every
    /// array is generated anew, in this order: the scalar tables, the tables
    /// of points, the arrays of scalars, the arrays of points.
    pub open spec fn start_pixel(self, p: Point2i) -> SamplerState {
        let spp = self.samples_per_pixel as nat;
        let t1 = spec_tables_1d(self.rng, spp, self.jitter_samples, self.samples_1d.len());
        let t2 = spec_tables_2d(
            t1.1,
            self.x_pixel_samples as nat,
            self.y_pixel_samples as nat,
            self.jitter_samples,
            self.samples_2d.len(),
        );
        let a1 = spec_arrays_1d(
            t2.1,
            self.samples_1d_array_sizes,
            spp,
            self.jitter_samples,
            self.samples_1d_array_sizes.len(),
        );
        let a2 = spec_arrays_2d(
            a1.1,
            self.samples_2d_array_sizes,
            spp,
            self.samples_2d_array_sizes.len(),
        );
        SamplerState {
            samples_1d: t1.0,
            samples_2d: t2.0,
            sample_array_1d: a1.0,
            sample_array_2d: a2.0,
            rng: a2.1,
            current_pixel: p,
            current_pixel_sample_index: 0,
            array_1d_offset: 0,
            array_2d_offset: 0,
            started: true,
            ..self
        }
    }

    /// The next scalar of the current pixel sample, and the sampler after it:
    /// from the next table while there is one, from the generator after that.
    pub open spec fn get_1d(self) -> (Sample, SamplerState) {
        if self.current_1d_dimension < self.samples_1d.len() {
            (
                self.samples_1d[self.current_1d_dimension][self.current_pixel_sample_index],
                SamplerState { current_1d_dimension: self.current_1d_dimension + 1, ..self },
            )
        } else {
            (
                Sample::spec_uniform(self.rng.spec_output()),
                SamplerState { rng: self.rng.spec_advance(), ..self },
            )
        }
    }

    /// The next point of the current pixel sample, and the sampler after it.
    /// From the generator, the second coordinate is drawn before the first.
    pub open spec fn get_2d(self) -> (SamplePoint, SamplerState) {
        if self.current_2d_dimension < self.samples_2d.len() {
            (
                self.samples_2d[self.current_2d_dimension][self.current_pixel_sample_index],
                SamplerState { current_2d_dimension: self.current_2d_dimension + 1, ..self },
            )
        } else {
            (
                SamplePoint {
                    x: Sample::spec_uniform(self.rng.spec_draw(1)),
                    y: Sample::spec_uniform(self.rng.spec_draw(0)),
                },
                SamplerState { rng: self.rng.spec_skip(2), ..self },
            )
        }
    }

    /// The chunk of array `slot` that belongs to the current pixel sample.
    pub open spec fn chunk_1d(self, slot: int) -> Seq<Sample> {
        let n = self.samples_1d_array_sizes[slot];
        self.sample_array_1d[slot].subrange(
            self.current_pixel_sample_index * n,
            self.current_pixel_sample_index * n + n,
        )
    }

    /// The chunk of array `slot` that belongs to the current pixel sample.
    pub open spec fn chunk_2d(self, slot: int) -> Seq<SamplePoint> {
        let n = self.samples_2d_array_sizes[slot];
        self.sample_array_2d[slot].subrange(
            self.current_pixel_sample_index * n,
            self.current_pixel_sample_index * n + n,
        )
    }

    /// Whether an array of `n` can be taken next: either none is left, or the
    /// next one was requested with size `n` and a pixel sample is being taken.
    pub open spec fn can_get_1d_array(self, n: int) -> bool {
        self.array_1d_offset < self.sample_array_1d.len() ==> self.active()
            && self.samples_1d_array_sizes[self.array_1d_offset] == n
    }

    /// Whether an array of `n` can be taken next: either none is left, or the
    /// next one was requested with size `n` and a pixel sample is being taken.
    pub open spec fn can_get_2d_array(self, n: int) -> bool {
        self.array_2d_offset < self.sample_array_2d.len() ==> self.active()
            && self.samples_2d_array_sizes[self.array_2d_offset] == n
    }

    /// The next array of scalars for the current pixel sample, if one is left, and the sampler after it.
    pub open spec fn get_1d_array(self) -> (Option<Seq<Sample>>, SamplerState) {
        if self.array_1d_offset == self.sample_array_1d.len() {
            (None, self)
        } else {
            (
                Some(self.chunk_1d(self.array_1d_offset)),
                SamplerState { array_1d_offset: self.array_1d_offset + 1, ..self },
            )
        }
    }

    /// The next array of points for the current pixel sample, if one is left, and the sampler after it.
    pub open spec fn get_2d_array(self) -> (Option<Seq<SamplePoint>>, SamplerState) {
        if self.array_2d_offset == self.sample_array_2d.len() {
            (None, self)
        } else {
            (
                Some(self.chunk_2d(self.array_2d_offset)),
                SamplerState { array_2d_offset: self.array_2d_offset + 1, ..self },
            )
        }
    }

    /// The next two arrays of points, in the order of their requests, and the
    /// sampler after them. Where only one is left it is used up and nothing
    /// is handed out.
    pub open spec fn get_2d_arrays(self) -> (
        Option<(Seq<SamplePoint>, Seq<SamplePoint>)>,
        SamplerState,
    ) {
        let first = self.get_2d_array();
        let second = first.1.get_2d_array();
        if first.0 is Some && second.0 is Some {
            (Some((first.0->0, second.0->0)), second.1)
        } else {
            (None, second.1)
        }
    }

    /// The sampler at the next sample of the pixel, and whether there is one.
    pub open spec fn start_next_sample(self) -> (bool, SamplerState) {
        (
            self.current_pixel_sample_index + 1 < self.samples_per_pixel,
            SamplerState {
                current_1d_dimension: 0,
                current_2d_dimension: 0,
                array_1d_offset: 0,
                array_2d_offset: 0,
                current_pixel_sample_index: self.current_pixel_sample_index + 1,
                ..self
            },
        )
    }
}

/// Starting a pixel keeps the invariant: every table and every array is
/// made anew with its length, out of samples of the unit interval.
pub proof fn lemma_start_pixel_wf(s: SamplerState, p: Point2i)
    requires
        s.wf(),
    ensures
        s.start_pixel(p).wf(),
        s.start_pixel(p).samples_1d.len() == s.samples_1d.len(),
        s.start_pixel(p).samples_2d.len() == s.samples_2d.len(),
        s.start_pixel(p).sample_array_1d.len() == s.sample_array_1d.len(),
        s.start_pixel(p).sample_array_2d.len() == s.sample_array_2d.len(),
{
    let spp = s.samples_per_pixel as nat;
    let nx = s.x_pixel_samples as nat;
    let ny = s.y_pixel_samples as nat;
    let t1 = spec_tables_1d(s.rng, spp, s.jitter_samples, s.samples_1d.len());
    lemma_tables_1d(s.rng, spp, s.jitter_samples, s.samples_1d.len());
    let t2 = spec_tables_2d(t1.1, nx, ny, s.jitter_samples, s.samples_2d.len());
    lemma_tables_2d(t1.1, nx, ny, s.jitter_samples, s.samples_2d.len());
    let a1 = spec_arrays_1d(
        t2.1,
        s.samples_1d_array_sizes,
        spp,
        s.jitter_samples,
        s.samples_1d_array_sizes.len(),
    );
    lemma_arrays_1d(
        t2.1,
        s.samples_1d_array_sizes,
        spp,
        s.jitter_samples,
        s.samples_1d_array_sizes.len(),
    );
    let a2 = spec_arrays_2d(a1.1, s.samples_2d_array_sizes, spp, s.samples_2d_array_sizes.len());
    lemma_arrays_2d(a1.1, s.samples_2d_array_sizes, spp, s.samples_2d_array_sizes.len());
    let after = s.start_pixel(p);
    assert(after.samples_1d == t1.0);
    assert(after.samples_2d == t2.0);
    assert(after.sample_array_1d == a1.0);
    assert(after.sample_array_2d == a2.0);
    assert(forall|i: int|
        0 <= i < after.samples_1d.len() ==> (#[trigger] after.samples_1d[i]).len()
            == after.samples_per_pixel);
    assert(forall|i: int|
        0 <= i < after.samples_2d.len() ==> (#[trigger] after.samples_2d[i]).len()
            == after.samples_per_pixel);
    assert forall|i: int| 0 <= i < after.sample_array_1d.len() implies 0
        <= #[trigger] after.samples_1d_array_sizes[i] <= i32::MAX && after.sample_array_1d[i].len()
        == after.samples_1d_array_sizes[i] * after.samples_per_pixel by {
        assert(a1.0[i].len() == s.samples_1d_array_sizes[i] * spp);
    }
    assert forall|i: int| 0 <= i < after.sample_array_2d.len() implies 0
        <= #[trigger] after.samples_2d_array_sizes[i] <= i32::MAX && after.sample_array_2d[i].len()
        == after.samples_2d_array_sizes[i] * after.samples_per_pixel by {
        assert(a2.0[i].len() == s.samples_2d_array_sizes[i] * spp);
    }
}

} // verus!
