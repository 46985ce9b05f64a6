//! The samplers that an integrator can be given, behind one interface.

use vstd::prelude::*;
use crate::geometry::Point2i;
use crate::sample::{Sample, SamplePoint};
use crate::samplers::state::SamplerState;
use crate::samplers::stratified::StratifiedSampler;

verus! {

/// A sampler of one of the kinds that the library has.
pub enum Sampler {
    Stratified(StratifiedSampler),
}

impl View for Sampler {
    type V = SamplerState;

    open spec fn view(&self) -> SamplerState {
        match self {
            Sampler::Stratified(ss) => ss@,
        }
    }
}

impl Sampler {
    /// The invariant of the sampler inside.
    pub open spec fn wf(self) -> bool {
        self@.wf()
    }

    /// Starts pixel `p` at its first sample, with new tables and arrays.
    pub fn start_pixel(&mut self, p: Point2i)
        requires
            old(self)@.wf(),
        ensures
            final(self)@ == old(self)@.start_pixel(p),
            final(self)@.wf(),
    {
        match self {
            Sampler::Stratified(ss) => ss.start_pixel(p),
        }
    }

    /// Hands out the next scalar of the current pixel sample.
    pub fn get_1d(&mut self) -> (s: Sample)
        requires
            old(self)@.wf(),
            old(self)@.active(),
        ensures
            s == old(self)@.get_1d().0,
            final(self)@ == old(self)@.get_1d().1,
            final(self)@.wf(),
            s.wf(),
            s.in_unit_interval(),
    {
        match self {
            Sampler::Stratified(ss) => ss.get_1d(),
        }
    }

    /// Hands out the next point of the current pixel sample.
    pub fn get_2d(&mut self) -> (p: SamplePoint)
        requires
            old(self)@.wf(),
            old(self)@.active(),
        ensures
            p == old(self)@.get_2d().0,
            final(self)@ == old(self)@.get_2d().1,
            final(self)@.wf(),
            p.wf(),
            p.x.in_unit_interval(),
            p.y.in_unit_interval(),
    {
        match self {
            Sampler::Stratified(ss) => ss.get_2d(),
        }
    }

    /// Registers an array of `n` scalars per pixel sample, before the first pixel.
    pub fn request_1d_array(&mut self, n: i32)
        requires
            old(self)@.wf(),
            !old(self)@.started,
            0 <= n,
            n * old(self)@.samples_per_pixel <= usize::MAX,
        ensures
            final(self)@ == old(self)@.request_1d_array(n as int),
            final(self)@.wf(),
    {
        match self {
            Sampler::Stratified(ss) => ss.request_1d_array(n),
        }
    }

    /// Registers an array of `n` points per pixel sample, before the first pixel.
    pub fn request_2d_array(&mut self, n: i32)
        requires
            old(self)@.wf(),
            !old(self)@.started,
            0 <= n,
            n * old(self)@.samples_per_pixel <= usize::MAX,
        ensures
            final(self)@ == old(self)@.request_2d_array(n as int),
            final(self)@.wf(),
    {
        match self {
            Sampler::Stratified(ss) => ss.request_2d_array(n),
        }
    }

    /// Hands out the next array of scalars for the current pixel sample, if one is left.
    pub fn get_1d_array(&mut self, n: i32) -> (r: Option<&[Sample]>)
        requires
            old(self)@.wf(),
            old(self)@.can_get_1d_array(n as int),
        ensures
            r is Some <==> old(self)@.array_1d_offset < old(self)@.sample_array_1d.len(),
            r matches Some(samples) ==> Some(samples@) == old(self)@.get_1d_array().0
                && samples@.len() == n && forall|i: int|
                0 <= i < n ==> (#[trigger] samples@[i]).wf(),
            r is None ==> old(self)@.get_1d_array().0 is None,
            final(self)@ == old(self)@.get_1d_array().1,
            final(self)@.wf(),
    {
        match self {
            Sampler::Stratified(ss) => ss.get_1d_array(n),
        }
    }

    /// Hands out the next array of points for the current pixel sample, if one is left.
    pub fn get_2d_array(&mut self, n: i32) -> (r: Option<&[SamplePoint]>)
        requires
            old(self)@.wf(),
            old(self)@.can_get_2d_array(n as int),
        ensures
            r is Some <==> old(self)@.array_2d_offset < old(self)@.sample_array_2d.len(),
            r matches Some(points) ==> Some(points@) == old(self)@.get_2d_array().0
                && points@.len() == n && forall|i: int|
                0 <= i < n ==> (#[trigger] points@[i]).wf(),
            r is None ==> old(self)@.get_2d_array().0 is None,
            final(self)@ == old(self)@.get_2d_array().1,
            final(self)@.wf(),
    {
        match self {
            Sampler::Stratified(ss) => ss.get_2d_array(n),
        }
    }

    /// Hands out the next two arrays of points, in the order of their
    /// requests. Where no array is left, or only one, it hands out nothing,
    /// and the one that was left is used up.
    pub fn get_2d_arrays(&mut self, n: i32) -> (r: (Option<&[SamplePoint]>, Option<&[SamplePoint]>))
        requires
            old(self)@.wf(),
            old(self)@.can_get_2d_array(n as int),
            old(self)@.get_2d_array().1.can_get_2d_array(n as int),
        ensures
            r.0 is Some <==> r.1 is Some,
            r.0 is Some <==> old(self)@.array_2d_offset + 2 <= old(self)@.sample_array_2d.len(),
            r.0 matches Some(first) ==> (r.1 matches Some(second) ==> Some((first@, second@)) == old(
                self,
            )@.get_2d_arrays().0 && first@.len() == n && second@.len() == n),
            r.0 is None ==> old(self)@.get_2d_arrays().0 is None,
            final(self)@ == old(self)@.get_2d_arrays().1,
            final(self)@.wf(),
    {
        match self {
            Sampler::Stratified(ss) => ss.get_2d_arrays(n),
        }
    }

    /// Hands out a copy of the next array of points for the current pixel
    /// sample; the copy is empty when every array has been handed out.
    pub fn get_2d_array_vec(&mut self, n: i32) -> (v: Vec<SamplePoint>)
        requires
            old(self)@.wf(),
            old(self)@.can_get_2d_array(n as int),
        ensures
            v@ == match old(self)@.get_2d_array().0 {
                Some(points) => points,
                None => Seq::empty(),
            },
            final(self)@ == old(self)@.get_2d_array().1,
            final(self)@.wf(),
            forall|i: int| 0 <= i < v@.len() ==> (#[trigger] v@[i]).wf(),
    {
        match self {
            Sampler::Stratified(ss) => ss.get_2d_array_vec(n),
        }
    }

    /// The size that an array of `count` samples is rounded up to by this
    /// kind of sampler; a stratified sampler takes `count` as it is.
    pub fn round_count(&self, count: i32) -> (r: i32)
        ensures
            r == count,
    {
        match self {
            Sampler::Stratified(ss) => ss.round_count(count),
        }
    }

    /// The pixel that is being sampled.
    pub fn get_current_pixel(&self) -> (p: Point2i)
        ensures
            p == self@.current_pixel,
    {
        match self {
            Sampler::Stratified(ss) => ss.get_current_pixel(),
        }
    }

    /// The number of the sample of the pixel that is being taken, from zero.
    pub fn get_current_sample_number(&self) -> (n: i64)
        ensures
            n == self@.current_pixel_sample_index,
    {
        match self {
            Sampler::Stratified(ss) => ss.get_current_sample_number(),
        }
    }

    /// Moves on to the next sample of the pixel and says whether there is one.
    pub fn start_next_sample(&mut self) -> (more: bool)
        requires
            old(self)@.wf(),
            old(self)@.current_pixel_sample_index < i64::MAX,
        ensures
            more == old(self)@.start_next_sample().0,
            final(self)@ == old(self)@.start_next_sample().1,
            final(self)@.wf(),
            final(self)@.current_pixel_sample_index == old(self)@.current_pixel_sample_index + 1,
            more == (old(self)@.current_pixel_sample_index + 1 < old(self)@.samples_per_pixel),
    {
        match self {
            Sampler::Stratified(ss) => ss.start_next_sample(),
        }
    }

    /// Restarts the generator at the beginning of sequence `seed`.
    pub fn reseed(&mut self, seed: u64)
        ensures
            final(self)@ == old(self)@.reseed(seed),
            old(self)@.wf() ==> final(self)@.wf(),
    {
        match self {
            Sampler::Stratified(ss) => ss.reseed(seed),
        }
    }

    /// An independent copy of this sampler, of the same kind, with its own
    /// generator at the start of sequence `seed`.
    pub fn clone_with_seed(&self, seed: u64) -> (sampler: Sampler)
        ensures
            sampler@ == self@.reseed(seed),
            self@.wf() ==> sampler@.wf(),
    {
        match self {
            Sampler::Stratified(ss) => ss.clone_with_seed(seed),
        }
    }

    /// The number of samples that the sampler takes in every pixel.
    pub fn get_samples_per_pixel(&self) -> (n: i64)
        ensures
            n == self@.samples_per_pixel,
    {
        match self {
            Sampler::Stratified(ss) => ss.get_samples_per_pixel(),
        }
    }
}

} // verus!
