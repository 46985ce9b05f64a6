//! What holds of a stratified sampler over whole runs of its operations.

use vstd::prelude::*;
use crate::geometry::Point2i;
use crate::rng::Rng;
use crate::samplers::state::{lemma_start_pixel_wf, SamplerState};
use crate::samplers::tables::{
    lemma_array_1d_chunk,
    lemma_array_2d_chunk,
    lemma_arrays_1d_row,
    lemma_arrays_2d_row,
    lemma_table_1d,
    lemma_tables_1d_row,
    spec_array_1d,
    spec_array_2d,
    spec_arrays_1d,
    spec_arrays_2d,
    spec_tables_1d,
    spec_tables_2d,
};
use crate::sampling::{
    lemma_latin_hypercube_covers,
    spec_column_holds,
    spec_latin_hypercube,
    spec_row_holds,
    spec_stratified_1d,
    spec_stratified_centers,
};

verus! {

/// The sampler after `k` further calls of `start_next_sample`.
pub open spec fn spec_after_samples(s: SamplerState, k: nat) -> SamplerState
    decreases k,
{
    if k == 0 {
        s
    } else {
        spec_after_samples(s, (k - 1) as nat).start_next_sample().1
    }
}

/// Every scalar and every point that is handed out lies in the unit
/// interval, coordinate by coordinate, and the invariant is kept.
pub proof fn law_samples_in_unit_interval(s: SamplerState)
    requires
        s.wf(),
        s.active(),
    ensures
        s.get_1d().0.in_unit_interval(),
        s.get_2d().0.x.in_unit_interval(),
        s.get_2d().0.y.in_unit_interval(),
        s.get_1d().1.wf(),
        s.get_2d().1.wf(),
{
    if s.current_1d_dimension < s.samples_1d.len() {
        assert(s.samples_1d[s.current_1d_dimension].len() == s.samples_per_pixel);
    }
    if s.current_2d_dimension < s.samples_2d.len() {
        assert(s.samples_2d[s.current_2d_dimension].len() == s.samples_per_pixel);
    }
    s.get_1d().0.lemma_wf_in_unit_interval();
    s.get_2d().0.x.lemma_wf_in_unit_interval();
    s.get_2d().0.y.lemma_wf_in_unit_interval();
}

/// Every array that is handed out has the requested size, and holds only
/// values of the unit interval.
pub proof fn law_arrays_in_unit_interval(s: SamplerState, n: int)
    requires
        s.wf(),
        s.can_get_1d_array(n),
        s.can_get_2d_array(n),
    ensures
        s.get_1d_array().0 matches Some(samples) ==> samples.len() == n && forall|i: int|
            0 <= i < n ==> (#[trigger] samples[i]).wf(),
        s.get_2d_array().0 matches Some(points) ==> points.len() == n && forall|i: int|
            0 <= i < n ==> (#[trigger] points[i]).wf(),
        s.get_1d_array().1.wf(),
        s.get_2d_array().1.wf(),
{
    let k = s.current_pixel_sample_index;
    if s.array_1d_offset < s.sample_array_1d.len() {
        let slot = s.array_1d_offset;
        assert(s.samples_1d_array_sizes[slot] == n);
        crate::samplers::stratified::lemma_chunk_bounds(n, s.samples_per_pixel, k);
        let samples = s.chunk_1d(slot);
        assert forall|i: int| 0 <= i < n implies (#[trigger] samples[i]).wf() by {
            assert(samples[i] == s.sample_array_1d[slot][k * n + i]);
        }
    }
    if s.array_2d_offset < s.sample_array_2d.len() {
        let slot = s.array_2d_offset;
        assert(s.samples_2d_array_sizes[slot] == n);
        crate::samplers::stratified::lemma_chunk_bounds(n, s.samples_per_pixel, k);
        let points = s.chunk_2d(slot);
        assert forall|i: int| 0 <= i < n implies (#[trigger] points[i]).wf() by {
            assert(points[i] == s.sample_array_2d[slot][k * n + i]);
        }
    }
}

/// Without jitter, each scalar table of a pixel holds the centres of the
/// strata, each once: sample `n` of the pattern is `(n + 1/2) /
/// samples_per_pixel`, and the table is that pattern in some order.
pub proof fn law_unjittered_table_holds_centers(s: SamplerState, p: Point2i, d: int)
    requires
        s.wf(),
        !s.jitter_samples,
        0 <= d < s.samples_1d.len(),
    ensures
        s.start_pixel(p).samples_1d[d].to_multiset() == spec_stratified_centers(
            s.samples_per_pixel as nat,
        ).to_multiset(),
        forall|n: int|
            0 <= n < s.samples_per_pixel ==> (#[trigger] spec_stratified_centers(
                s.samples_per_pixel as nat,
            )[n]).is_center_of(n, s.samples_per_pixel),
{
    let spp = s.samples_per_pixel as nat;
    let count = s.samples_1d.len();
    lemma_tables_1d_row(s.rng, spp, false, count, d);
    let start = spec_tables_1d(s.rng, spp, false, d as nat).1;
    lemma_table_1d(start, spp, false);
    assert(spec_stratified_1d(start, spp, false) =~= spec_stratified_centers(spp));
    assert forall|n: int| 0 <= n < s.samples_per_pixel implies (#[trigger] spec_stratified_centers(
        spp,
    )[n]).is_center_of(n, s.samples_per_pixel) by {
        spec_stratified_centers(spp)[n].lemma_half_is_center();
    }
}

/// Once a pixel is started the array requests are fixed: no operation that
/// hands out samples, and no move to the next sample or the next pixel,
/// changes their number or their sizes.
pub proof fn law_array_requests_are_fixed(s: SamplerState, p: Point2i)
    requires
        s.wf(),
    ensures
        ({
            let sizes = (s.samples_1d_array_sizes, s.samples_2d_array_sizes);
            let of = |t: SamplerState| (t.samples_1d_array_sizes, t.samples_2d_array_sizes);
            &&& of(s.start_pixel(p)) == sizes
            &&& of(s.start_next_sample().1) == sizes
            &&& of(s.get_1d().1) == sizes
            &&& of(s.get_2d().1) == sizes
            &&& of(s.get_1d_array().1) == sizes
            &&& of(s.get_2d_array().1) == sizes
            &&& of(s.get_2d_arrays().1) == sizes
            &&& s.start_pixel(p).sample_array_1d.len() == s.sample_array_1d.len()
            &&& s.start_pixel(p).sample_array_2d.len() == s.sample_array_2d.len()
        }),
{
    lemma_start_pixel_wf(s, p);
}

/// `k` calls of `start_next_sample` move the sample index on by `k`, keep
/// the invariant, and leave the tables and arrays as they are.
pub proof fn lemma_after_samples(s: SamplerState, k: nat)
    requires
        s.wf(),
    ensures
        spec_after_samples(s, k).wf(),
        spec_after_samples(s, k).current_pixel_sample_index == s.current_pixel_sample_index + k,
        spec_after_samples(s, k).samples_per_pixel == s.samples_per_pixel,
        spec_after_samples(s, k).samples_1d_array_sizes == s.samples_1d_array_sizes,
        spec_after_samples(s, k).samples_2d_array_sizes == s.samples_2d_array_sizes,
        spec_after_samples(s, k).sample_array_1d == s.sample_array_1d,
        spec_after_samples(s, k).sample_array_2d == s.sample_array_2d,
        k > 0 || s.array_2d_offset == 0 ==> spec_after_samples(s, k).array_2d_offset == 0,
    decreases k,
{
    if k > 0 {
        lemma_after_samples(s, (k - 1) as nat);
    }
}

/// One call of `start_next_sample`, at any sample index `k`: the index
/// becomes `k + 1`, the result says whether `k + 1` is still a sample of the
/// pixel, all four cursors are back at zero, and the invariant is kept.
pub proof fn law_start_next_sample_step(s: SamplerState, k: int)
    requires
        s.wf(),
        k == s.current_pixel_sample_index,
    ensures
        s.start_next_sample().1.current_pixel_sample_index == k + 1,
        s.start_next_sample().0 == (k + 1 < s.samples_per_pixel),
        s.start_next_sample().0 == s.start_next_sample().1.active(),
        s.start_next_sample().1.current_1d_dimension == 0,
        s.start_next_sample().1.current_2d_dimension == 0,
        s.start_next_sample().1.array_1d_offset == 0,
        s.start_next_sample().1.array_2d_offset == 0,
        s.start_next_sample().1.wf(),
{
}

/// After a pixel is started, the `k`-th call of `start_next_sample` says
/// that a sample is left exactly while `k < samples_per_pixel`: so it
/// returns `true` `samples_per_pixel - 1` times, and `false` on the call
/// that would move past the last sample.
pub proof fn law_start_next_sample_counts(s: SamplerState, p: Point2i, k: nat)
    requires
        s.wf(),
        k >= 1,
    ensures
        spec_after_samples(s.start_pixel(p), (k - 1) as nat).start_next_sample().0 == (k
            < s.samples_per_pixel),
        spec_after_samples(s.start_pixel(p), k).current_pixel_sample_index == k,
        spec_after_samples(s.start_pixel(p), k).active() == (k < s.samples_per_pixel),
{
    lemma_start_pixel_wf(s, p);
    lemma_after_samples(s.start_pixel(p), (k - 1) as nat);
    lemma_after_samples(s.start_pixel(p), k);
}

/// With one array of `n` points requested, each of the `samples_per_pixel`
/// samples of a pixel gets one array of `n` points, and nothing after it.
pub proof fn law_one_array_per_pixel_sample(s: SamplerState, n: int, p: Point2i, k: nat)
    requires
        s.wf(),
        s.sample_array_2d.len() == 0,
        0 < n <= i32::MAX,
        k < s.samples_per_pixel,
    ensures
        ({
            let at = spec_after_samples(s.request_2d_array(n).start_pixel(p), k);
            &&& at.active()
            &&& at.can_get_2d_array(n)
            &&& at.get_2d_array().0 matches Some(points) && points.len() == n
            &&& at.get_2d_array().1.get_2d_array().0 is None
        }),
{
    let requested = s.request_2d_array(n);
    lemma_request_2d_array_wf(s, n);
    lemma_start_pixel_wf(requested, p);
    let started = requested.start_pixel(p);
    lemma_after_samples(started, k);
    let at = spec_after_samples(started, k);
    assert(at.sample_array_2d.len() == 1);
    assert(at.samples_2d_array_sizes[0] == n);
    crate::samplers::stratified::lemma_chunk_bounds(n, at.samples_per_pixel, k as int);
}

/// Each array of scalars that a pixel sample gets is stratified by itself:
/// it is a stratified pattern of its own size, in some order.
pub proof fn law_array_of_scalars_is_stratified(s: SamplerState, p: Point2i, slot: int, k: nat)
    requires
        s.wf(),
        0 <= slot < s.sample_array_1d.len(),
        k < s.samples_per_pixel,
    ensures
        ({
            let at = spec_after_samples(s.start_pixel(p), k);
            let n = s.samples_1d_array_sizes[slot] as nat;
            &&& at.samples_1d_array_sizes[slot] == n
            &&& at.chunk_1d(slot).len() == n
            &&& exists|rng: Rng|
                at.chunk_1d(slot).to_multiset() == (#[trigger] spec_stratified_1d(
                    rng,
                    n,
                    s.jitter_samples,
                )).to_multiset()
        }),
{
    let spp = s.samples_per_pixel as nat;
    let sizes = s.samples_1d_array_sizes;
    let n = sizes[slot] as nat;
    lemma_start_pixel_wf(s, p);
    let started = s.start_pixel(p);
    lemma_after_samples(started, k);
    let at = spec_after_samples(started, k);
    let t1 = spec_tables_1d(s.rng, spp, s.jitter_samples, s.samples_1d.len());
    let t2 = spec_tables_2d(
        t1.1,
        s.x_pixel_samples as nat,
        s.y_pixel_samples as nat,
        s.jitter_samples,
        s.samples_2d.len(),
    );
    assert(at.sample_array_1d == spec_arrays_1d(t2.1, sizes, spp, s.jitter_samples, sizes.len()).0);
    lemma_arrays_1d_row(t2.1, sizes, spp, s.jitter_samples, sizes.len(), slot);
    let array_start = spec_arrays_1d(t2.1, sizes, spp, s.jitter_samples, slot as nat).1;
    lemma_array_1d_chunk(array_start, n, s.jitter_samples, spp, k as int);
    let chunk_start = spec_array_1d(array_start, n, s.jitter_samples, k).1;
    lemma_table_1d(chunk_start, n, s.jitter_samples);
    assert(at.chunk_1d(slot).to_multiset() == spec_stratified_1d(
        chunk_start,
        n,
        s.jitter_samples,
    ).to_multiset());
}

/// Each array of points that a pixel sample gets is a Latin hypercube of
/// its own: along either axis, every one of its strata holds one of its points.
pub proof fn law_array_of_points_is_latin_hypercube(s: SamplerState, p: Point2i, slot: int, k: nat)
    requires
        s.wf(),
        0 <= slot < s.sample_array_2d.len(),
        k < s.samples_per_pixel,
    ensures
        ({
            let at = spec_after_samples(s.start_pixel(p), k);
            let n = s.samples_2d_array_sizes[slot] as nat;
            &&& at.samples_2d_array_sizes[slot] == n
            &&& at.chunk_2d(slot).len() == n
            &&& exists|rng: Rng| at.chunk_2d(slot) == #[trigger] spec_latin_hypercube(rng, n).0
            &&& forall|i: int| 0 <= i < n ==> #[trigger] spec_column_holds(at.chunk_2d(slot), i)
            &&& forall|i: int| 0 <= i < n ==> #[trigger] spec_row_holds(at.chunk_2d(slot), i)
        }),
{
    let spp = s.samples_per_pixel as nat;
    let sizes = s.samples_2d_array_sizes;
    let n = sizes[slot] as nat;
    lemma_start_pixel_wf(s, p);
    let started = s.start_pixel(p);
    lemma_after_samples(started, k);
    let at = spec_after_samples(started, k);
    let t1 = spec_tables_1d(s.rng, spp, s.jitter_samples, s.samples_1d.len());
    let t2 = spec_tables_2d(
        t1.1,
        s.x_pixel_samples as nat,
        s.y_pixel_samples as nat,
        s.jitter_samples,
        s.samples_2d.len(),
    );
    let a1 = spec_arrays_1d(
        t2.1,
        s.samples_1d_array_sizes,
        spp,
        s.jitter_samples,
        s.samples_1d_array_sizes.len(),
    );
    assert(at.sample_array_2d == spec_arrays_2d(a1.1, sizes, spp, sizes.len()).0);
    lemma_arrays_2d_row(a1.1, sizes, spp, sizes.len(), slot);
    let array_start = spec_arrays_2d(a1.1, sizes, spp, slot as nat).1;
    lemma_array_2d_chunk(array_start, n, spp, k as int);
    let chunk_start = spec_array_2d(array_start, n, k).1;
    assert(at.chunk_2d(slot) == spec_latin_hypercube(chunk_start, n).0);
    lemma_latin_hypercube_covers(chunk_start, n);
}

/// Requesting an array keeps the invariant.
pub proof fn lemma_request_2d_array_wf(s: SamplerState, n: int)
    requires
        s.wf(),
        0 <= n <= i32::MAX,
    ensures
        s.request_2d_array(n).wf(),
{
    let after = s.request_2d_array(n);
    crate::samplers::stratified::lemma_chunk_bounds(n, s.samples_per_pixel, 0);
    assert forall|i: int| 0 <= i < after.sample_array_2d.len() implies 0
        <= #[trigger] after.samples_2d_array_sizes[i] <= i32::MAX && after.sample_array_2d[i].len()
        == after.samples_2d_array_sizes[i] * after.samples_per_pixel by {
        if i < s.sample_array_2d.len() {
            assert(after.samples_2d_array_sizes[i] == s.samples_2d_array_sizes[i]);
        }
    }
}

} // verus!
