//! Sample patterns: stratified in one and two dimensions, Latin hypercube,
//! and the shuffle that decorrelates them.
//!
//! Each generator is a function of the generator state it starts from. The
//! stratified patterns have a closed form over the stream of draws; the
//! shuffle is stated step by step, since each step's bounded draw may use up
//! a different number of draws.

use vstd::prelude::*;
use crate::rng::Rng;
use crate::sample::{Sample, SamplePoint, HALF};

verus! {

/// The offset of sample `k` of a pattern: the `k`-th draw when jittered, the centre when not.
pub open spec fn spec_offset(rng: Rng, k: nat, jitter: bool) -> u32 {
    if jitter {
        rng.spec_draw(k)
    } else {
        HALF
    }
}

/// The generator after a pattern that takes `draws` draws when jittered and none when not.
pub open spec fn spec_after(rng: Rng, draws: nat, jitter: bool) -> Rng {
    if jitter {
        rng.spec_skip(draws)
    } else {
        rng
    }
}

/// Sample `i` of a stratified pattern of `n` samples: it lies in stratum `i`.
pub open spec fn spec_stratum_sample(rng: Rng, n: nat, jitter: bool, i: int) -> Sample {
    Sample { stratum: i as u32, offset: spec_offset(rng, i as nat, jitter), strata: n as u32 }
}

/// One sample in each of `n` equal strata of the unit interval, in order.
pub open spec fn spec_stratified_1d(rng: Rng, n: nat, jitter: bool) -> Seq<Sample> {
    Seq::new(n, |i: int| spec_stratum_sample(rng, n, jitter, i))
}

/// The centres of `n` equal strata of the unit interval, in order: `(i + 1/2) / n`.
pub open spec fn spec_stratified_centers(n: nat) -> Seq<Sample> {
    Seq::new(n, |i: int| Sample { stratum: i as u32, offset: HALF, strata: n as u32 })
}

/// Point `k` of a stratified pattern over an `nx` by `ny` grid: it lies in
/// column `k % nx` and row `k / nx`.
pub open spec fn spec_cell_point(rng: Rng, nx: nat, ny: nat, jitter: bool, k: int) -> SamplePoint {
    SamplePoint {
        x: Sample {
            stratum: (k % nx as int) as u32,
            offset: spec_offset(rng, (2 * k) as nat, jitter),
            strata: nx as u32,
        },
        y: Sample {
            stratum: (k / nx as int) as u32,
            offset: spec_offset(rng, (2 * k + 1) as nat, jitter),
            strata: ny as u32,
        },
    }
}

/// One point in each cell of an `nx` by `ny` grid over the unit square, row by row.
pub open spec fn spec_stratified_2d(rng: Rng, nx: nat, ny: nat, jitter: bool) -> Seq<SamplePoint> {
    Seq::new(nx * ny, |k: int| spec_cell_point(rng, nx, ny, jitter, k))
}

/// `s` with its elements at `a` and `b` exchanged.
pub open spec fn spec_swap<T>(s: Seq<T>, a: int, b: int) -> Seq<T> {
    s.update(a, s[b]).update(b, s[a])
}

/// `s` with the `width` elements from `a` exchanged with the `width` elements from `b`.
pub open spec fn spec_swap_blocks<T>(s: Seq<T>, a: int, b: int, width: nat) -> Seq<T>
    decreases width,
{
    if width == 0 {
        s
    } else {
        spec_swap(spec_swap_blocks(s, a, b, (width - 1) as nat), a + width - 1, b + width - 1)
    }
}

/// The first `steps` steps of a shuffle of `count` blocks of `width` elements:
/// step `i` exchanges block `i` with a block drawn uniformly from `i..count`.
pub open spec fn spec_shuffle_steps<T>(
    s: Seq<T>,
    count: nat,
    width: nat,
    rng: Rng,
    steps: nat,
) -> (Seq<T>, Rng)
    decreases steps,
{
    if steps == 0 {
        (s, rng)
    } else {
        let i = (steps - 1) as nat;
        let (t, r) = spec_shuffle_steps(s, count, width, rng, i);
        let (d, r2) = r.spec_bounded((count - i) as u32);
        (spec_swap_blocks(t, (width * i) as int, width * (i + d), width), r2)
    }
}

/// A shuffle of the first `count` blocks of `width` elements of `s`.
pub open spec fn spec_shuffle<T>(s: Seq<T>, count: nat, width: nat, rng: Rng) -> (Seq<T>, Rng) {
    spec_shuffle_steps(s, count, width, rng, count)
}

/// Point `i` of the diagonal of an `n` by `n` grid: both coordinates lie in stratum `i`.
pub open spec fn spec_diagonal_point(rng: Rng, n: nat, i: int) -> SamplePoint {
    SamplePoint {
        x: Sample { stratum: i as u32, offset: rng.spec_draw((2 * i) as nat), strata: n as u32 },
        y: Sample { stratum: i as u32, offset: rng.spec_draw((2 * i + 1) as nat), strata: n as u32 },
    }
}

/// The diagonal that a Latin hypercube starts from.
pub open spec fn spec_diagonal(rng: Rng, n: nat) -> Seq<SamplePoint> {
    Seq::new(n, |i: int| spec_diagonal_point(rng, n, i))
}

/// The first coordinates of `points`.
pub open spec fn spec_xs(points: Seq<SamplePoint>) -> Seq<Sample> {
    Seq::new(points.len(), |i: int| points[i].x)
}

/// The second coordinates of `points`.
pub open spec fn spec_ys(points: Seq<SamplePoint>) -> Seq<Sample> {
    Seq::new(points.len(), |i: int| points[i].y)
}

/// The points whose coordinates are `xs` and `ys`, pair by pair.
pub open spec fn spec_zip(xs: Seq<Sample>, ys: Seq<Sample>) -> Seq<SamplePoint> {
    Seq::new(xs.len(), |i: int| SamplePoint { x: xs[i], y: ys[i] })
}

/// A Latin hypercube of `n` points: the diagonal, with the first coordinates
/// shuffled among the points and then the second ones.
pub open spec fn spec_latin_hypercube(rng: Rng, n: nat) -> (Seq<SamplePoint>, Rng) {
    let diagonal = spec_diagonal(rng, n);
    let (xs, r1) = spec_shuffle(spec_xs(diagonal), n, 1, rng.spec_skip(2 * n));
    let (ys, r2) = spec_shuffle(spec_ys(diagonal), n, 1, r1);
    (spec_zip(xs, ys), r2)
}

/// Writes one sample per stratum into the first `n_samples` places of `samp`.
///
/// Sample `i` lies in stratum `i` of `n_samples`: at the stratum's centre when
/// `jitter` is off, at the offset of the `i`-th draw when it is on.
pub fn stratified_sample_1d(samp: &mut [Sample], n_samples: u32, rng: &mut Rng, jitter: bool)
    requires
        n_samples <= old(samp)@.len(),
    ensures
        final(samp)@ == spec_stratified_1d(*old(rng), n_samples as nat, jitter) + old(samp)@.skip(
            n_samples as int,
        ),
        *final(rng) == spec_after(*old(rng), n_samples as nat, jitter),
{
    let mut i: u32 = 0;
    while i < n_samples
        invariant
            i <= n_samples,
            n_samples <= samp@.len(),
            samp@.len() == old(samp)@.len(),
            forall|k: int|
                0 <= k < i ==> #[trigger] samp@[k] == spec_stratum_sample(
                    *old(rng),
                    n_samples as nat,
                    jitter,
                    k,
                ),
            forall|k: int| i <= k < samp@.len() ==> #[trigger] samp@[k] == old(samp)@[k],
            *rng == spec_after(*old(rng), i as nat, jitter),
        decreases n_samples - i,
    {
        let delta: u32 = if jitter {
            rng.uniform_uint32()
        } else {
            HALF
        };
        proof {
            lemma_skip_next(*old(rng), i as nat);
        }
        samp[i as usize] = Sample { stratum: i, offset: delta, strata: n_samples };
        i += 1;
    }
    assert(samp@ =~= spec_stratified_1d(*old(rng), n_samples as nat, jitter) + old(samp)@.skip(
        n_samples as int,
    ));
}

/// Writes one point per cell of an `nx` by `ny` grid into the first `nx * ny` places of `samp`.
///
/// The cells are visited row by row; each takes two draws when `jitter` is
/// on, the first for `x`.
pub fn stratified_sample_2d(samp: &mut [SamplePoint], nx: u32, ny: u32, rng: &mut Rng, jitter: bool)
    requires
        nx * ny <= old(samp)@.len(),
    ensures
        final(samp)@ == spec_stratified_2d(*old(rng), nx as nat, ny as nat, jitter) + old(
            samp,
        )@.skip(nx * ny),
        *final(rng) == spec_after(*old(rng), (2 * (nx * ny)) as nat, jitter),
{
    let ghost total: int = nx * ny;
    let mut idx: usize = 0;
    let mut y: u32 = 0;
    while y < ny
        invariant
            y <= ny,
            idx == nx * y,
            total == nx * ny,
            total <= samp@.len(),
            samp@.len() == old(samp)@.len(),
            forall|k: int|
                0 <= k < idx ==> #[trigger] samp@[k] == spec_cell_point(
                    *old(rng),
                    nx as nat,
                    ny as nat,
                    jitter,
                    k,
                ),
            forall|k: int| idx <= k < samp@.len() ==> #[trigger] samp@[k] == old(samp)@[k],
            *rng == spec_after(*old(rng), (2 * idx) as nat, jitter),
        decreases ny - y,
    {
        let ghost row: int = idx as int;
        let mut x: u32 = 0;
        while x < nx
            invariant
                x <= nx,
                y < ny,
                row == nx * y,
                idx == row + x,
                total == nx * ny,
                total <= samp@.len(),
                samp@.len() == old(samp)@.len(),
                forall|k: int|
                    0 <= k < idx ==> #[trigger] samp@[k] == spec_cell_point(
                        *old(rng),
                        nx as nat,
                        ny as nat,
                        jitter,
                        k,
                    ),
                forall|k: int| idx <= k < samp@.len() ==> #[trigger] samp@[k] == old(samp)@[k],
                *rng == spec_after(*old(rng), (2 * idx) as nat, jitter),
            decreases nx - x,
        {
            proof {
                lemma_cell_index(nx as int, ny as int, x as int, y as int);
                lemma_skip_next(*old(rng), (2 * idx) as nat);
                lemma_skip_next(*old(rng), (2 * idx + 1) as nat);
            }
            let jx: u32 = if jitter {
                rng.uniform_uint32()
            } else {
                HALF
            };
            let jy: u32 = if jitter {
                rng.uniform_uint32()
            } else {
                HALF
            };
            let point = SamplePoint {
                x: Sample { stratum: x, offset: jx, strata: nx },
                y: Sample { stratum: y, offset: jy, strata: ny },
            };
            assert(point == spec_cell_point(*old(rng), nx as nat, ny as nat, jitter, idx as int));
            samp[idx] = point;
            idx += 1;
            x += 1;
        }
        proof {
            assert(nx * y + nx == nx * (y + 1)) by (nonlinear_arith);
        }
        y += 1;
    }
    assert(samp@ =~= spec_stratified_2d(*old(rng), nx as nat, ny as nat, jitter) + old(
        samp,
    )@.skip(nx * ny));
}

/// Exchanges the `width` elements from `a` with the `width` elements from `b`.
fn swap_blocks<T: Copy>(samp: &mut [T], a: usize, b: usize, width: u32)
    requires
        a + width <= old(samp)@.len(),
        b + width <= old(samp)@.len(),
    ensures
        final(samp)@ == spec_swap_blocks(old(samp)@, a as int, b as int, width as nat),
        final(samp)@.len() == old(samp)@.len(),
{
    let len: usize = samp.len();
    let mut j: u32 = 0;
    while j < width
        invariant
            j <= width,
            len == samp@.len(),
            a + width <= len,
            b + width <= len,
            samp@.len() == old(samp)@.len(),
            samp@ == spec_swap_blocks(old(samp)@, a as int, b as int, j as nat),
        decreases width - j,
    {
        let first: T = samp[a + j as usize];
        let second: T = samp[b + j as usize];
        samp[a + j as usize] = second;
        samp[b + j as usize] = first;
        j += 1;
    }
}

/// Shuffles the first `count` blocks of `n_dimensions` elements of `samp`.
///
/// Step `i` exchanges block `i` with a block drawn uniformly from `i..count`,
/// so the elements are permuted and none is lost.
pub fn shuffle<T: Copy>(samp: &mut [T], count: u32, n_dimensions: u32, rng: &mut Rng)
    requires
        n_dimensions * count <= old(samp)@.len(),
    ensures
        final(samp)@ == spec_shuffle(
            old(samp)@,
            count as nat,
            n_dimensions as nat,
            *old(rng),
        ).0,
        *final(rng) == spec_shuffle(old(samp)@, count as nat, n_dimensions as nat, *old(rng)).1,
        final(samp)@.len() == old(samp)@.len(),
        final(samp)@.to_multiset() == old(samp)@.to_multiset(),
{
    let len: usize = samp.len();
    let mut i: u32 = 0;
    while i < count
        invariant
            i <= count,
            len == samp@.len(),
            n_dimensions * count <= len,
            samp@.len() == old(samp)@.len(),
            samp@ == spec_shuffle_steps(
                old(samp)@,
                count as nat,
                n_dimensions as nat,
                *old(rng),
                i as nat,
            ).0,
            *rng == spec_shuffle_steps(
                old(samp)@,
                count as nat,
                n_dimensions as nat,
                *old(rng),
                i as nat,
            ).1,
        decreases count - i,
    {
        let ghost before = samp@;
        let ghost rng_before = *rng;
        let d: u32 = rng.uniform_uint32_bounded(count - i);
        let other: u32 = i + d;
        proof {
            lemma_block_in_range(n_dimensions as int, i as int, count as int);
            lemma_block_in_range(n_dimensions as int, other as int, count as int);
        }
        let a: usize = n_dimensions as usize * i as usize;
        let b: usize = n_dimensions as usize * other as usize;
        swap_blocks(samp, a, b, n_dimensions);
        proof {
            lemma_shuffle_step(
                old(samp)@,
                count as nat,
                n_dimensions as nat,
                *old(rng),
                i as nat,
            );
        }
        i += 1;
    }
    proof {
        lemma_shuffle_permutes(old(samp)@, count as nat, n_dimensions as nat, *old(rng));
    }
}

/// Step `i` of a shuffle, written out: what `i + 1` steps give from what `i` steps gave.
pub proof fn lemma_shuffle_step<T>(s: Seq<T>, count: nat, width: nat, rng: Rng, i: nat)
    ensures
        ({
            let before = spec_shuffle_steps(s, count, width, rng, i);
            let drawn = before.1.spec_bounded((count - i) as u32);
            let after = spec_shuffle_steps(s, count, width, rng, i + 1);
            &&& after.0 == spec_swap_blocks(
                before.0,
                (width * i) as int,
                width * (i + drawn.0),
                width,
            )
            &&& after.1 == drawn.1
        }),
{
    assert((i + 1 - 1) as nat == i);
}

/// Writes a Latin hypercube of `n_samples` points into the first `n_samples` places of `samp`.
///
/// The points start on the diagonal of an `n_samples` by `n_samples` grid,
/// each jittered inside its cell; then the first coordinates are shuffled
/// among the points, and then the second ones. Each row and each column of
/// the grid therefore holds exactly one point.
pub fn latin_hypercube(samp: &mut [SamplePoint], n_samples: u32, rng: &mut Rng)
    requires
        n_samples <= old(samp)@.len(),
    ensures
        final(samp)@ == spec_latin_hypercube(*old(rng), n_samples as nat).0 + old(samp)@.skip(
            n_samples as int,
        ),
        *final(rng) == spec_latin_hypercube(*old(rng), n_samples as nat).1,
{
    let mut xs: Vec<Sample> = Vec::new();
    let mut ys: Vec<Sample> = Vec::new();
    let mut i: u32 = 0;
    while i < n_samples
        invariant
            i <= n_samples,
            xs@.len() == i,
            ys@.len() == i,
            forall|k: int|
                0 <= k < i ==> #[trigger] xs@[k] == spec_diagonal_point(
                    *old(rng),
                    n_samples as nat,
                    k,
                ).x,
            forall|k: int|
                0 <= k < i ==> #[trigger] ys@[k] == spec_diagonal_point(
                    *old(rng),
                    n_samples as nat,
                    k,
                ).y,
            *rng == old(rng).spec_skip((2 * i) as nat),
        decreases n_samples - i,
    {
        proof {
            lemma_skip_next(*old(rng), (2 * i) as nat);
            lemma_skip_next(*old(rng), (2 * i + 1) as nat);
        }
        let jx: u32 = rng.uniform_uint32();
        let jy: u32 = rng.uniform_uint32();
        xs.push(Sample { stratum: i, offset: jx, strata: n_samples });
        ys.push(Sample { stratum: i, offset: jy, strata: n_samples });
        i += 1;
    }
    assert(xs@ =~= spec_xs(spec_diagonal(*old(rng), n_samples as nat)));
    assert(ys@ =~= spec_ys(spec_diagonal(*old(rng), n_samples as nat)));
    shuffle(xs.as_mut_slice(), n_samples, 1, rng);
    shuffle(ys.as_mut_slice(), n_samples, 1, rng);
    let mut k: u32 = 0;
    while k < n_samples
        invariant
            k <= n_samples,
            n_samples <= samp@.len(),
            samp@.len() == old(samp)@.len(),
            xs@.len() == n_samples,
            ys@.len() == n_samples,
            forall|m: int|
                0 <= m < k ==> #[trigger] samp@[m] == (SamplePoint { x: xs@[m], y: ys@[m] }),
            forall|m: int| k <= m < samp@.len() ==> #[trigger] samp@[m] == old(samp)@[m],
        decreases n_samples - k,
    {
        samp[k as usize] = SamplePoint { x: xs[k as usize], y: ys[k as usize] };
        k += 1;
    }
    assert(samp@ =~= spec_zip(xs@, ys@) + old(samp)@.skip(n_samples as int));
}

/// One more draw after `k` draws is `k + 1` draws.
pub proof fn lemma_skip_next(rng: Rng, k: nat)
    ensures
        rng.spec_skip(k + 1) == rng.spec_skip(k).spec_advance(),
{
}

/// Cell `(x, y)` of an `nx` by `ny` grid is at place `nx * y + x`, inside the grid.
pub proof fn lemma_cell_index(nx: int, ny: int, x: int, y: int)
    requires
        0 <= x < nx,
        0 <= y < ny,
    ensures
        0 <= nx * y + x < nx * ny,
        (nx * y + x) % nx == x,
        (nx * y + x) / nx == y,
{
    assert(0 <= nx * y + x < nx * ny) by (nonlinear_arith)
        requires
            0 <= x < nx,
            0 <= y < ny,
    ;
    assert(nx * y == y * nx) by (nonlinear_arith);
    vstd::arithmetic::div_mod::lemma_fundamental_div_mod_converse(nx * y + x, nx, y, x);
}

/// Exchanging two elements keeps the length and the elements.
pub proof fn lemma_swap_permutes<T>(s: Seq<T>, a: int, b: int)
    requires
        0 <= a < s.len(),
        0 <= b < s.len(),
    ensures
        spec_swap(s, a, b).len() == s.len(),
        spec_swap(s, a, b).to_multiset() == s.to_multiset(),
{
    broadcast use vstd::seq_lib::to_multiset_update;

    let t = s.update(a, s[b]);
    assert(t.to_multiset() =~= s.to_multiset().insert(s[b]).remove(s[a]));
    assert(t[b] == s[b] || a == b);
    assert(spec_swap(s, a, b).to_multiset() =~= t.to_multiset().insert(s[a]).remove(t[b]));
    s.to_multiset_ensures();
    assert(s.to_multiset().count(s[a]) > 0);
    assert(s.to_multiset().count(s[b]) > 0);
    assert(spec_swap(s, a, b).to_multiset() =~= s.to_multiset());
}

/// Exchanging two blocks keeps the length and the elements.
pub proof fn lemma_swap_blocks_permutes<T>(s: Seq<T>, a: int, b: int, width: nat)
    requires
        0 <= a,
        0 <= b,
        a + width <= s.len(),
        b + width <= s.len(),
    ensures
        spec_swap_blocks(s, a, b, width).len() == s.len(),
        spec_swap_blocks(s, a, b, width).to_multiset() == s.to_multiset(),
    decreases width,
{
    if width > 0 {
        lemma_swap_blocks_permutes(s, a, b, (width - 1) as nat);
        lemma_swap_permutes(
            spec_swap_blocks(s, a, b, (width - 1) as nat),
            a + width - 1,
            b + width - 1,
        );
    }
}

/// Every step of a shuffle keeps the length and the elements.
pub proof fn lemma_shuffle_steps_permutes<T>(s: Seq<T>, count: nat, width: nat, rng: Rng, steps: nat)
    requires
        steps <= count,
        count <= u32::MAX,
        width * count <= s.len(),
    ensures
        spec_shuffle_steps(s, count, width, rng, steps).0.len() == s.len(),
        spec_shuffle_steps(s, count, width, rng, steps).0.to_multiset() == s.to_multiset(),
    decreases steps,
{
    if steps > 0 {
        let i = (steps - 1) as nat;
        lemma_shuffle_steps_permutes(s, count, width, rng, i);
        let (t, r) = spec_shuffle_steps(s, count, width, rng, i);
        let (d, r2) = r.spec_bounded((count - i) as u32);
        crate::rng::lemma_bounded_below(r, (count - i) as u32, crate::rng::REJECTION_LIMIT as nat);
        lemma_block_in_range(width as int, (i + d) as int, count as int);
        lemma_block_in_range(width as int, i as int, count as int);
        lemma_swap_blocks_permutes(t, (width * i) as int, width * (i + d), width);
    }
}

/// A shuffle permutes: it keeps the length and the elements of the sequence.
pub proof fn lemma_shuffle_permutes<T>(s: Seq<T>, count: nat, width: nat, rng: Rng)
    requires
        count <= u32::MAX,
        width * count <= s.len(),
    ensures
        spec_shuffle(s, count, width, rng).0.len() == s.len(),
        spec_shuffle(s, count, width, rng).0.to_multiset() == s.to_multiset(),
{
    lemma_shuffle_steps_permutes(s, count, width, rng, count);
}

/// Block `i` of `count` blocks of `width` elements ends inside the first `width * count` elements.
pub proof fn lemma_block_in_range(width: int, i: int, count: int)
    requires
        0 <= width,
        0 <= i < count,
    ensures
        0 <= width * i,
        width * i + width <= width * count,
{
    assert(0 <= width * i && width * i + width <= width * count) by (nonlinear_arith)
        requires
            0 <= width,
            0 <= i < count,
    ;
}

/// What holds of every element of a sequence holds of every element of its permutations.
pub proof fn lemma_permutation_keeps<T>(s: Seq<T>, t: Seq<T>, holds: spec_fn(T) -> bool)
    requires
        s.to_multiset() == t.to_multiset(),
        forall|i: int| 0 <= i < s.len() ==> holds(#[trigger] s[i]),
    ensures
        forall|i: int| 0 <= i < t.len() ==> holds(#[trigger] t[i]),
{
    assert forall|i: int| 0 <= i < t.len() implies holds(#[trigger] t[i]) by {
        s.to_multiset_ensures();
        t.to_multiset_ensures();
        assert(t.contains(t[i]));
        assert(s.to_multiset().count(t[i]) > 0);
        assert(s.contains(t[i]));
        let j = choose|j: int| 0 <= j < s.len() && s[j] == t[i];
        assert(holds(s[j]));
    }
}

/// A stratified pattern has one sample in each stratum, in order: sample `i`
/// lies in `[i / n, (i + 1) / n)`, and at its centre when jitter is off.
pub proof fn lemma_stratified_1d_strata(rng: Rng, n: nat, jitter: bool)
    requires
        n <= u32::MAX,
    ensures
        spec_stratified_1d(rng, n, jitter).len() == n,
        forall|i: int|
            0 <= i < n ==> {
                let s = #[trigger] spec_stratified_1d(rng, n, jitter)[i];
                &&& s.wf()
                &&& s.in_unit_interval()
                &&& s.in_stratum(i, n as int)
                &&& !jitter ==> s.is_center_of(i, n as int)
            },
{
    assert forall|i: int| 0 <= i < n implies {
        let s = #[trigger] spec_stratified_1d(rng, n, jitter)[i];
        &&& s.wf()
        &&& s.in_unit_interval()
        &&& s.in_stratum(i, n as int)
        &&& !jitter ==> s.is_center_of(i, n as int)
    } by {
        let s = spec_stratified_1d(rng, n, jitter)[i];
        assert(s == spec_stratum_sample(rng, n, jitter, i));
        s.lemma_wf_in_unit_interval();
        if !jitter {
            s.lemma_half_is_center();
        }
    }
}

/// A stratified pattern over a grid has one point in each cell, row by row:
/// point `k` lies in column `k % nx` and row `k / nx`.
pub proof fn lemma_stratified_2d_cells(rng: Rng, nx: nat, ny: nat, jitter: bool)
    requires
        nx <= u32::MAX,
        ny <= u32::MAX,
    ensures
        spec_stratified_2d(rng, nx, ny, jitter).len() == nx * ny,
        forall|k: int|
            0 <= k < nx * ny ==> {
                let p = #[trigger] spec_stratified_2d(rng, nx, ny, jitter)[k];
                &&& p.wf()
                &&& p.x.in_stratum(k % nx as int, nx as int)
                &&& p.y.in_stratum(k / nx as int, ny as int)
                &&& !jitter ==> p.x.is_center_of(k % nx as int, nx as int) && p.y.is_center_of(
                    k / nx as int,
                    ny as int,
                )
            },
{
    assert forall|k: int| 0 <= k < nx * ny implies {
        let p = #[trigger] spec_stratified_2d(rng, nx, ny, jitter)[k];
        &&& p.wf()
        &&& p.x.in_stratum(k % nx as int, nx as int)
        &&& p.y.in_stratum(k / nx as int, ny as int)
        &&& !jitter ==> p.x.is_center_of(k % nx as int, nx as int) && p.y.is_center_of(
            k / nx as int,
            ny as int,
        )
    } by {
        let p = spec_stratified_2d(rng, nx, ny, jitter)[k];
        assert(p == spec_cell_point(rng, nx, ny, jitter, k));
        lemma_cell_of_index(nx as int, ny as int, k);
        p.x.lemma_wf_in_unit_interval();
        p.y.lemma_wf_in_unit_interval();
        if !jitter {
            p.x.lemma_half_is_center();
            p.y.lemma_half_is_center();
        }
    }
}

/// Place `k` of an `nx` by `ny` grid is in column `k % nx` and row `k / nx`, both inside the grid.
pub proof fn lemma_cell_of_index(nx: int, ny: int, k: int)
    requires
        0 <= k < nx * ny,
        0 <= nx,
        0 <= ny,
    ensures
        0 <= k % nx < nx,
        0 <= k / nx < ny,
{
    assert(nx > 0) by (nonlinear_arith)
        requires
            0 <= k < nx * ny,
            0 <= nx,
    ;
    vstd::arithmetic::div_mod::lemma_fundamental_div_mod(k, nx);
    vstd::arithmetic::div_mod::lemma_mod_bound(k, nx);
    let q = k / nx;
    let r = k % nx;
    assert(0 <= q < ny) by (nonlinear_arith)
        requires
            k == nx * q + r,
            0 <= r < nx,
            0 <= k < nx * ny,
            0 <= ny,
    ;
}

/// The coordinates of a Latin hypercube, axis by axis, are a permutation of
/// one jittered sample per stratum: each of the `n` strata of an axis holds
/// exactly one point, and every point lies in the unit square.
pub proof fn lemma_latin_hypercube_strata(rng: Rng, n: nat)
    requires
        n <= u32::MAX,
    ensures
        spec_latin_hypercube(rng, n).0.len() == n,
        spec_xs(spec_latin_hypercube(rng, n).0).to_multiset() == spec_xs(
            spec_diagonal(rng, n),
        ).to_multiset(),
        spec_ys(spec_latin_hypercube(rng, n).0).to_multiset() == spec_ys(
            spec_diagonal(rng, n),
        ).to_multiset(),
        forall|i: int|
            0 <= i < n ==> {
                let p = #[trigger] spec_diagonal(rng, n)[i];
                p.x.in_stratum(i, n as int) && p.y.in_stratum(i, n as int)
            },
        forall|i: int| 0 <= i < n ==> (#[trigger] spec_latin_hypercube(rng, n).0[i]).wf(),
{
    let diagonal = spec_diagonal(rng, n);
    let dx = spec_xs(diagonal);
    let dy = spec_ys(diagonal);
    let (xs, r1) = spec_shuffle(dx, n, 1, rng.spec_skip(2 * n));
    let (ys, r2) = spec_shuffle(dy, n, 1, r1);
    lemma_shuffle_permutes(dx, n, 1, rng.spec_skip(2 * n));
    lemma_shuffle_permutes(dy, n, 1, r1);
    let points = spec_latin_hypercube(rng, n).0;
    assert(points == spec_zip(xs, ys));
    assert(spec_xs(points) =~= xs);
    assert(spec_ys(points) =~= ys);
    assert forall|i: int| 0 <= i < n implies {
        let p = #[trigger] spec_diagonal(rng, n)[i];
        p.x.in_stratum(i, n as int) && p.y.in_stratum(i, n as int)
    } by {
        let p = spec_diagonal(rng, n)[i];
        assert(p == spec_diagonal_point(rng, n, i));
        p.x.lemma_wf_in_unit_interval();
        p.y.lemma_wf_in_unit_interval();
    }
    let ok = |s: Sample| s.wf();
    assert forall|i: int| 0 <= i < dx.len() implies ok(#[trigger] dx[i]) by {
        assert(diagonal[i] == spec_diagonal_point(rng, n, i));
    }
    assert forall|i: int| 0 <= i < dy.len() implies ok(#[trigger] dy[i]) by {
        assert(diagonal[i] == spec_diagonal_point(rng, n, i));
    }
    lemma_permutation_keeps(dx, xs, ok);
    lemma_permutation_keeps(dy, ys, ok);
    assert forall|i: int| 0 <= i < n implies (#[trigger] points[i]).wf() by {
        assert(ok(xs[i]));
        assert(ok(ys[i]));
    }
}

/// Some point of `points` has its first coordinate in stratum `i`.
pub open spec fn spec_column_holds(points: Seq<SamplePoint>, i: int) -> bool {
    exists|k: int| 0 <= k < points.len() && (#[trigger] points[k]).x.stratum == i
}

/// Some point of `points` has its second coordinate in stratum `i`.
pub open spec fn spec_row_holds(points: Seq<SamplePoint>, i: int) -> bool {
    exists|k: int| 0 <= k < points.len() && (#[trigger] points[k]).y.stratum == i
}

/// Every stratum of either axis holds a point of a Latin hypercube. There
/// are as many points as strata, so each row and each column of the grid
/// holds exactly one.
pub proof fn lemma_latin_hypercube_covers(rng: Rng, n: nat)
    requires
        n <= u32::MAX,
    ensures
        spec_latin_hypercube(rng, n).0.len() == n,
        forall|i: int|
            0 <= i < n ==> #[trigger] spec_column_holds(spec_latin_hypercube(rng, n).0, i),
        forall|i: int| 0 <= i < n ==> #[trigger] spec_row_holds(spec_latin_hypercube(rng, n).0, i),
{
    lemma_latin_hypercube_strata(rng, n);
    let points = spec_latin_hypercube(rng, n).0;
    let diagonal = spec_diagonal(rng, n);
    let xs = spec_xs(points);
    let ys = spec_ys(points);
    let dx = spec_xs(diagonal);
    let dy = spec_ys(diagonal);
    xs.to_multiset_ensures();
    ys.to_multiset_ensures();
    dx.to_multiset_ensures();
    dy.to_multiset_ensures();
    assert forall|i: int| 0 <= i < n implies #[trigger] spec_column_holds(points, i) by {
        assert(diagonal[i] == spec_diagonal_point(rng, n, i));
        assert(dx[i].stratum == i);
        assert(dx.contains(dx[i]));
        assert(xs.to_multiset().count(dx[i]) > 0);
        assert(xs.contains(dx[i]));
        let k = choose|k: int| 0 <= k < xs.len() && xs[k] == dx[i];
        assert(points[k].x.stratum == i);
    }
    assert forall|i: int| 0 <= i < n implies #[trigger] spec_row_holds(points, i) by {
        assert(diagonal[i] == spec_diagonal_point(rng, n, i));
        assert(dy[i].stratum == i);
        assert(dy.contains(dy[i]));
        assert(ys.to_multiset().count(dy[i]) > 0);
        assert(ys.contains(dy[i]));
        let k = choose|k: int| 0 <= k < ys.len() && ys[k] == dy[i];
        assert(points[k].y.stratum == i);
    }
}

} // verus!
