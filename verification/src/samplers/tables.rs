//! The tables and arrays of samples that a sampler makes for one pixel.

use vstd::prelude::*;
use crate::rng::Rng;
use crate::sample::{Sample, SamplePoint};
use crate::sampling::{
    latin_hypercube,
    lemma_latin_hypercube_strata,
    lemma_permutation_keeps,
    lemma_shuffle_permutes,
    lemma_stratified_1d_strata,
    lemma_stratified_2d_cells,
    shuffle,
    spec_after,
    spec_latin_hypercube,
    spec_shuffle,
    spec_stratified_1d,
    spec_stratified_2d,
    stratified_sample_1d,
    stratified_sample_2d,
};

verus! {

/// The rows of a table, as sequences.
pub open spec fn spec_rows<T>(table: Vec<Vec<T>>) -> Seq<Seq<T>> {
    Seq::new(table@.len(), |i: int| table@[i]@)
}

/// The sizes of the array requests, as integers.
pub open spec fn spec_sizes(sizes: Vec<i32>) -> Seq<int> {
    Seq::new(sizes@.len(), |i: int| sizes@[i] as int)
}

/// A stratified pattern of `n` samples, shuffled: the pattern and the generator after it.
pub open spec fn spec_table_1d(rng: Rng, n: nat, jitter: bool) -> (Seq<Sample>, Rng) {
    spec_shuffle(spec_stratified_1d(rng, n, jitter), n, 1, spec_after(rng, n, jitter))
}

/// A stratified pattern over an `nx` by `ny` grid, shuffled.
pub open spec fn spec_table_2d(rng: Rng, nx: nat, ny: nat, jitter: bool) -> (
    Seq<SamplePoint>,
    Rng,
) {
    spec_shuffle(
        spec_stratified_2d(rng, nx, ny, jitter),
        nx * ny,
        1,
        spec_after(rng, 2 * (nx * ny), jitter),
    )
}

/// `count` tables of `n` samples, generated one after the other.
pub open spec fn spec_tables_1d(rng: Rng, n: nat, jitter: bool, count: nat) -> (
    Seq<Seq<Sample>>,
    Rng,
)
    decreases count,
{
    if count == 0 {
        (Seq::empty(), rng)
    } else {
        let before = spec_tables_1d(rng, n, jitter, (count - 1) as nat);
        let table = spec_table_1d(before.1, n, jitter);
        (before.0.push(table.0), table.1)
    }
}

/// `count` tables over an `nx` by `ny` grid, generated one after the other.
pub open spec fn spec_tables_2d(rng: Rng, nx: nat, ny: nat, jitter: bool, count: nat) -> (
    Seq<Seq<SamplePoint>>,
    Rng,
)
    decreases count,
{
    if count == 0 {
        (Seq::empty(), rng)
    } else {
        let before = spec_tables_2d(rng, nx, ny, jitter, (count - 1) as nat);
        let table = spec_table_2d(before.1, nx, ny, jitter);
        (before.0.push(table.0), table.1)
    }
}

/// The storage of one array request of `size` samples: `chunks` patterns in
/// a row, one for each pixel sample, each stratified and shuffled by itself.
pub open spec fn spec_array_1d(rng: Rng, size: nat, jitter: bool, chunks: nat) -> (
    Seq<Sample>,
    Rng,
)
    decreases chunks,
{
    if chunks == 0 {
        (Seq::empty(), rng)
    } else {
        let before = spec_array_1d(rng, size, jitter, (chunks - 1) as nat);
        let chunk = spec_table_1d(before.1, size, jitter);
        (before.0 + chunk.0, chunk.1)
    }
}

/// The storage of one array request of `size` points: `chunks` Latin
/// hypercubes in a row, one for each pixel sample.
pub open spec fn spec_array_2d(rng: Rng, size: nat, chunks: nat) -> (Seq<SamplePoint>, Rng)
    decreases chunks,
{
    if chunks == 0 {
        (Seq::empty(), rng)
    } else {
        let before = spec_array_2d(rng, size, (chunks - 1) as nat);
        let chunk = spec_latin_hypercube(before.1, size);
        (before.0 + chunk.0, chunk.1)
    }
}

/// The storage of the first `count` array requests of `sizes`, in the order of the requests.
pub open spec fn spec_arrays_1d(rng: Rng, sizes: Seq<int>, chunks: nat, jitter: bool, count: nat) -> (
    Seq<Seq<Sample>>,
    Rng,
)
    decreases count,
{
    if count == 0 {
        (Seq::empty(), rng)
    } else {
        let before = spec_arrays_1d(rng, sizes, chunks, jitter, (count - 1) as nat);
        let array = spec_array_1d(before.1, sizes[count - 1] as nat, jitter, chunks);
        (before.0.push(array.0), array.1)
    }
}

/// The storage of the first `count` array requests of `sizes`, in the order of the requests.
pub open spec fn spec_arrays_2d(rng: Rng, sizes: Seq<int>, chunks: nat, count: nat) -> (
    Seq<Seq<SamplePoint>>,
    Rng,
)
    decreases count,
{
    if count == 0 {
        (Seq::empty(), rng)
    } else {
        let before = spec_arrays_2d(rng, sizes, chunks, (count - 1) as nat);
        let array = spec_array_2d(before.1, sizes[count - 1] as nat, chunks);
        (before.0.push(array.0), array.1)
    }
}

/// Every sample of every row lies in the unit interval.
pub open spec fn spec_all_wf_1d(rows: Seq<Seq<Sample>>) -> bool {
    forall|i: int, j: int|
        0 <= i < rows.len() && 0 <= j < rows[i].len() ==> (#[trigger] rows[i][j]).wf()
}

/// Every point of every row lies in the unit square.
pub open spec fn spec_all_wf_2d(rows: Seq<Seq<SamplePoint>>) -> bool {
    forall|i: int, j: int|
        0 <= i < rows.len() && 0 <= j < rows[i].len() ==> (#[trigger] rows[i][j]).wf()
}

/// A table of scalars has `n` samples of the unit interval: the stratified pattern, permuted.
pub proof fn lemma_table_1d(rng: Rng, n: nat, jitter: bool)
    requires
        n <= u32::MAX,
    ensures
        spec_table_1d(rng, n, jitter).0.len() == n,
        spec_table_1d(rng, n, jitter).0.to_multiset() == spec_stratified_1d(
            rng,
            n,
            jitter,
        ).to_multiset(),
        forall|j: int| 0 <= j < n ==> (#[trigger] spec_table_1d(rng, n, jitter).0[j]).wf(),
{
    let pattern = spec_stratified_1d(rng, n, jitter);
    let table = spec_table_1d(rng, n, jitter).0;
    lemma_stratified_1d_strata(rng, n, jitter);
    lemma_shuffle_permutes(pattern, n, 1, spec_after(rng, n, jitter));
    let ok = |s: Sample| s.wf();
    assert forall|i: int| 0 <= i < pattern.len() implies ok(#[trigger] pattern[i]) by {}
    lemma_permutation_keeps(pattern, table, ok);
    assert forall|j: int| 0 <= j < n implies (#[trigger] table[j]).wf() by {
        assert(ok(table[j]));
    }
}

/// A table of points has `nx * ny` points of the unit square: the stratified pattern, permuted.
pub proof fn lemma_table_2d(rng: Rng, nx: nat, ny: nat, jitter: bool)
    requires
        nx <= u32::MAX,
        ny <= u32::MAX,
        nx * ny <= u32::MAX,
    ensures
        spec_table_2d(rng, nx, ny, jitter).0.len() == nx * ny,
        spec_table_2d(rng, nx, ny, jitter).0.to_multiset() == spec_stratified_2d(
            rng,
            nx,
            ny,
            jitter,
        ).to_multiset(),
        forall|j: int|
            0 <= j < nx * ny ==> (#[trigger] spec_table_2d(rng, nx, ny, jitter).0[j]).wf(),
{
    let pattern = spec_stratified_2d(rng, nx, ny, jitter);
    let table = spec_table_2d(rng, nx, ny, jitter).0;
    lemma_stratified_2d_cells(rng, nx, ny, jitter);
    lemma_shuffle_permutes(pattern, nx * ny, 1, spec_after(rng, 2 * (nx * ny), jitter));
    let ok = |p: SamplePoint| p.wf();
    assert forall|i: int| 0 <= i < pattern.len() implies ok(#[trigger] pattern[i]) by {}
    lemma_permutation_keeps(pattern, table, ok);
    assert forall|j: int| 0 <= j < nx * ny implies (#[trigger] table[j]).wf() by {
        assert(ok(table[j]));
    }
}

/// `count` tables of scalars: each has `n` samples of the unit interval.
pub proof fn lemma_tables_1d(rng: Rng, n: nat, jitter: bool, count: nat)
    requires
        n <= u32::MAX,
    ensures
        spec_tables_1d(rng, n, jitter, count).0.len() == count,
        forall|i: int|
            0 <= i < count ==> (#[trigger] spec_tables_1d(rng, n, jitter, count).0[i]).len() == n,
        spec_all_wf_1d(spec_tables_1d(rng, n, jitter, count).0),
    decreases count,
{
    if count > 0 {
        lemma_tables_1d(rng, n, jitter, (count - 1) as nat);
        let before = spec_tables_1d(rng, n, jitter, (count - 1) as nat);
        lemma_table_1d(before.1, n, jitter);
    }
}

/// `count` tables of points: each has `nx * ny` points of the unit square.
pub proof fn lemma_tables_2d(rng: Rng, nx: nat, ny: nat, jitter: bool, count: nat)
    requires
        nx <= u32::MAX,
        ny <= u32::MAX,
        nx * ny <= u32::MAX,
    ensures
        spec_tables_2d(rng, nx, ny, jitter, count).0.len() == count,
        forall|i: int|
            0 <= i < count ==> (#[trigger] spec_tables_2d(rng, nx, ny, jitter, count).0[i]).len()
                == nx * ny,
        spec_all_wf_2d(spec_tables_2d(rng, nx, ny, jitter, count).0),
    decreases count,
{
    if count > 0 {
        lemma_tables_2d(rng, nx, ny, jitter, (count - 1) as nat);
        let before = spec_tables_2d(rng, nx, ny, jitter, (count - 1) as nat);
        lemma_table_2d(before.1, nx, ny, jitter);
    }
}

/// The storage of an array of scalars has `size * chunks` samples of the unit interval.
pub proof fn lemma_array_1d(rng: Rng, size: nat, jitter: bool, chunks: nat)
    requires
        size <= u32::MAX,
    ensures
        spec_array_1d(rng, size, jitter, chunks).0.len() == size * chunks,
        forall|j: int|
            0 <= j < size * chunks ==> (#[trigger] spec_array_1d(rng, size, jitter, chunks).0[j]).wf(),
    decreases chunks,
{
    if chunks > 0 {
        lemma_array_1d(rng, size, jitter, (chunks - 1) as nat);
        let before = spec_array_1d(rng, size, jitter, (chunks - 1) as nat);
        lemma_table_1d(before.1, size, jitter);
        assert(size * (chunks - 1) + size == size * chunks) by (nonlinear_arith);
    } else {
        assert(size * chunks == 0) by (nonlinear_arith)
            requires
                chunks == 0,
        ;
    }
}

/// The storage of an array of points has `size * chunks` points of the unit square.
pub proof fn lemma_array_2d(rng: Rng, size: nat, chunks: nat)
    requires
        size <= u32::MAX,
    ensures
        spec_array_2d(rng, size, chunks).0.len() == size * chunks,
        forall|j: int|
            0 <= j < size * chunks ==> (#[trigger] spec_array_2d(rng, size, chunks).0[j]).wf(),
    decreases chunks,
{
    if chunks > 0 {
        lemma_array_2d(rng, size, (chunks - 1) as nat);
        let before = spec_array_2d(rng, size, (chunks - 1) as nat);
        lemma_latin_hypercube_strata(before.1, size);
        assert(size * (chunks - 1) + size == size * chunks) by (nonlinear_arith);
    } else {
        assert(size * chunks == 0) by (nonlinear_arith)
            requires
                chunks == 0,
        ;
    }
}

/// The arrays of scalars: one storage per request, each of its size times `chunks`.
pub proof fn lemma_arrays_1d(rng: Rng, sizes: Seq<int>, chunks: nat, jitter: bool, count: nat)
    requires
        count <= sizes.len(),
        forall|i: int| 0 <= i < sizes.len() ==> 0 <= #[trigger] sizes[i] <= u32::MAX,
    ensures
        spec_arrays_1d(rng, sizes, chunks, jitter, count).0.len() == count,
        forall|i: int|
            0 <= i < count ==> (#[trigger] spec_arrays_1d(rng, sizes, chunks, jitter, count).0[i]).len()
                == sizes[i] * chunks,
        spec_all_wf_1d(spec_arrays_1d(rng, sizes, chunks, jitter, count).0),
    decreases count,
{
    if count > 0 {
        lemma_arrays_1d(rng, sizes, chunks, jitter, (count - 1) as nat);
        let before = spec_arrays_1d(rng, sizes, chunks, jitter, (count - 1) as nat);
        lemma_array_1d(before.1, sizes[count - 1] as nat, jitter, chunks);
    }
}

/// The arrays of points: one storage per request, each of its size times `chunks`.
pub proof fn lemma_arrays_2d(rng: Rng, sizes: Seq<int>, chunks: nat, count: nat)
    requires
        count <= sizes.len(),
        forall|i: int| 0 <= i < sizes.len() ==> 0 <= #[trigger] sizes[i] <= u32::MAX,
    ensures
        spec_arrays_2d(rng, sizes, chunks, count).0.len() == count,
        forall|i: int|
            0 <= i < count ==> (#[trigger] spec_arrays_2d(rng, sizes, chunks, count).0[i]).len()
                == sizes[i] * chunks,
        spec_all_wf_2d(spec_arrays_2d(rng, sizes, chunks, count).0),
    decreases count,
{
    if count > 0 {
        lemma_arrays_2d(rng, sizes, chunks, (count - 1) as nat);
        let before = spec_arrays_2d(rng, sizes, chunks, (count - 1) as nat);
        lemma_array_2d(before.1, sizes[count - 1] as nat, chunks);
    }
}

/// Table `d` of `count` tables is the table that is generated where the first `d` tables end.
pub proof fn lemma_tables_1d_row(rng: Rng, n: nat, jitter: bool, count: nat, d: int)
    requires
        0 <= d < count,
    ensures
        spec_tables_1d(rng, n, jitter, count).0.len() == count,
        spec_tables_1d(rng, n, jitter, count).0[d] == spec_table_1d(
            spec_tables_1d(rng, n, jitter, d as nat).1,
            n,
            jitter,
        ).0,
    decreases count,
{
    lemma_tables_1d_len(rng, n, jitter, count);
    lemma_tables_1d_len(rng, n, jitter, (count - 1) as nat);
    if d < count - 1 {
        lemma_tables_1d_row(rng, n, jitter, (count - 1) as nat, d);
    }
}

/// `count` tables are `count` tables.
pub proof fn lemma_tables_1d_len(rng: Rng, n: nat, jitter: bool, count: nat)
    ensures
        spec_tables_1d(rng, n, jitter, count).0.len() == count,
    decreases count,
{
    if count > 0 {
        lemma_tables_1d_len(rng, n, jitter, (count - 1) as nat);
    }
}

/// Chunk `j` of the storage of an array of scalars is the shuffled
/// stratified pattern that is generated where the first `j` chunks end.
pub proof fn lemma_array_1d_chunk(rng: Rng, size: nat, jitter: bool, chunks: nat, j: int)
    requires
        0 <= j < chunks,
        size <= u32::MAX,
    ensures
        spec_array_1d(rng, size, jitter, chunks).0.subrange(j * size, j * size + size)
            == spec_table_1d(spec_array_1d(rng, size, jitter, j as nat).1, size, jitter).0,
    decreases chunks,
{
    let before = spec_array_1d(rng, size, jitter, (chunks - 1) as nat);
    let chunk = spec_table_1d(before.1, size, jitter);
    lemma_array_1d(rng, size, jitter, (chunks - 1) as nat);
    lemma_table_1d(before.1, size, jitter);
    crate::sampling::lemma_block_in_range(size as int, j, chunks as int);
    assert(size * j == j * size) by (nonlinear_arith);
    if j == chunks - 1 {
        assert((before.0 + chunk.0).subrange(j * size, j * size + size) =~= chunk.0);
    } else {
        lemma_array_1d_chunk(rng, size, jitter, (chunks - 1) as nat, j);
        crate::sampling::lemma_block_in_range(size as int, j, chunks - 1);
        assert((before.0 + chunk.0).subrange(j * size, j * size + size) =~= before.0.subrange(
            j * size,
            j * size + size,
        ));
    }
}

/// Array `i` of the arrays of scalars is the storage that is generated where the first `i` arrays end.
pub proof fn lemma_arrays_1d_row(
    rng: Rng,
    sizes: Seq<int>,
    chunks: nat,
    jitter: bool,
    count: nat,
    i: int,
)
    requires
        0 <= i < count <= sizes.len(),
        forall|k: int| 0 <= k < sizes.len() ==> 0 <= #[trigger] sizes[k] <= u32::MAX,
    ensures
        spec_arrays_1d(rng, sizes, chunks, jitter, count).0[i] == spec_array_1d(
            spec_arrays_1d(rng, sizes, chunks, jitter, i as nat).1,
            sizes[i] as nat,
            jitter,
            chunks,
        ).0,
    decreases count,
{
    lemma_arrays_1d(rng, sizes, chunks, jitter, (count - 1) as nat);
    if i < count - 1 {
        lemma_arrays_1d_row(rng, sizes, chunks, jitter, (count - 1) as nat, i);
    }
}

/// Chunk `j` of the storage of an array of points is the Latin hypercube
/// that is generated where the first `j` chunks end.
pub proof fn lemma_array_2d_chunk(rng: Rng, size: nat, chunks: nat, j: int)
    requires
        0 <= j < chunks,
        size <= u32::MAX,
    ensures
        spec_array_2d(rng, size, chunks).0.subrange(j * size, j * size + size)
            == spec_latin_hypercube(spec_array_2d(rng, size, j as nat).1, size).0,
    decreases chunks,
{
    let before = spec_array_2d(rng, size, (chunks - 1) as nat);
    let chunk = spec_latin_hypercube(before.1, size);
    lemma_array_2d(rng, size, (chunks - 1) as nat);
    lemma_latin_hypercube_strata(before.1, size);
    crate::sampling::lemma_block_in_range(size as int, j, chunks as int);
    assert(size * j == j * size) by (nonlinear_arith);
    if j == chunks - 1 {
        assert((before.0 + chunk.0).subrange(j * size, j * size + size) =~= chunk.0);
    } else {
        lemma_array_2d_chunk(rng, size, (chunks - 1) as nat, j);
        crate::sampling::lemma_block_in_range(size as int, j, chunks - 1);
        assert((before.0 + chunk.0).subrange(j * size, j * size + size) =~= before.0.subrange(
            j * size,
            j * size + size,
        ));
    }
}

/// Array `i` of the arrays of points is the storage that is generated where the first `i` arrays end.
pub proof fn lemma_arrays_2d_row(rng: Rng, sizes: Seq<int>, chunks: nat, count: nat, i: int)
    requires
        0 <= i < count <= sizes.len(),
        forall|k: int| 0 <= k < sizes.len() ==> 0 <= #[trigger] sizes[k] <= u32::MAX,
    ensures
        spec_arrays_2d(rng, sizes, chunks, count).0[i] == spec_array_2d(
            spec_arrays_2d(rng, sizes, chunks, i as nat).1,
            sizes[i] as nat,
            chunks,
        ).0,
    decreases count,
{
    lemma_arrays_2d(rng, sizes, chunks, (count - 1) as nat);
    if i < count - 1 {
        lemma_arrays_2d_row(rng, sizes, chunks, (count - 1) as nat, i);
    }
}

/// Fills every table of `tables` with a stratified pattern of `n` samples, shuffled.
pub fn generate_tables_1d(tables: &mut Vec<Vec<Sample>>, n: u32, jitter: bool, rng: &mut Rng)
    requires
        forall|i: int| 0 <= i < old(tables)@.len() ==> (#[trigger] old(tables)@[i])@.len() == n,
    ensures
        spec_rows(*final(tables)) == spec_tables_1d(
            *old(rng),
            n as nat,
            jitter,
            old(tables)@.len(),
        ).0,
        *final(rng) == spec_tables_1d(*old(rng), n as nat, jitter, old(tables)@.len()).1,
{
    let count: usize = tables.len();
    let mut i: usize = 0;
    while i < count
        invariant
            i <= count,
            count == tables@.len(),
            forall|k: int| 0 <= k < count ==> (#[trigger] tables@[k])@.len() == n,
            spec_rows(*tables).take(i as int) == spec_tables_1d(
                *old(rng),
                n as nat,
                jitter,
                i as nat,
            ).0,
            *rng == spec_tables_1d(*old(rng), n as nat, jitter, i as nat).1,
        decreases count - i,
    {
        let ghost rows_before = spec_rows(*tables);
        let ghost start = *rng;
        stratified_sample_1d(tables[i].as_mut_slice(), n, rng, jitter);
        shuffle(tables[i].as_mut_slice(), n, 1, rng);
        proof {
            let rows = spec_rows(*tables);
            let table = spec_table_1d(start, n as nat, jitter);
            assert(spec_stratified_1d(start, n as nat, jitter) + rows_before[i as int].skip(
                n as int,
            ) =~= spec_stratified_1d(start, n as nat, jitter));
            assert(rows[i as int] == table.0);
            assert(rows.take(i + 1) =~= rows_before.take(i as int).push(table.0));
        }
        i += 1;
    }
    assert(spec_rows(*tables).take(count as int) =~= spec_rows(*tables));
}

/// Fills every table of `tables` with a stratified pattern over an `nx` by `ny` grid, shuffled.
pub fn generate_tables_2d(
    tables: &mut Vec<Vec<SamplePoint>>,
    nx: u32,
    ny: u32,
    jitter: bool,
    rng: &mut Rng,
)
    requires
        nx * ny <= u32::MAX,
        forall|i: int|
            0 <= i < old(tables)@.len() ==> (#[trigger] old(tables)@[i])@.len() == nx * ny,
    ensures
        spec_rows(*final(tables)) == spec_tables_2d(
            *old(rng),
            nx as nat,
            ny as nat,
            jitter,
            old(tables)@.len(),
        ).0,
        *final(rng) == spec_tables_2d(
            *old(rng),
            nx as nat,
            ny as nat,
            jitter,
            old(tables)@.len(),
        ).1,
{
    let count: usize = tables.len();
    assert(0 <= nx * ny) by (nonlinear_arith);
    let n: u32 = nx * ny;
    let mut i: usize = 0;
    while i < count
        invariant
            i <= count,
            count == tables@.len(),
            n == nx * ny,
            forall|k: int| 0 <= k < count ==> (#[trigger] tables@[k])@.len() == n,
            spec_rows(*tables).take(i as int) == spec_tables_2d(
                *old(rng),
                nx as nat,
                ny as nat,
                jitter,
                i as nat,
            ).0,
            *rng == spec_tables_2d(*old(rng), nx as nat, ny as nat, jitter, i as nat).1,
        decreases count - i,
    {
        let ghost rows_before = spec_rows(*tables);
        let ghost start = *rng;
        stratified_sample_2d(tables[i].as_mut_slice(), nx, ny, rng, jitter);
        shuffle(tables[i].as_mut_slice(), n, 1, rng);
        proof {
            let rows = spec_rows(*tables);
            let table = spec_table_2d(start, nx as nat, ny as nat, jitter);
            assert(spec_stratified_2d(start, nx as nat, ny as nat, jitter) + rows_before[i as int].skip(
                n as int,
            ) =~= spec_stratified_2d(start, nx as nat, ny as nat, jitter));
            assert((nx as nat) * (ny as nat) == n as nat);
            assert(rows[i as int] == table.0);
            assert(rows.take(i + 1) =~= rows_before.take(i as int).push(table.0));
        }
        i += 1;
    }
    assert(spec_rows(*tables).take(count as int) =~= spec_rows(*tables));
}

/// Fills the storage of one array of scalars: for each of the `chunks`
/// pixel samples, `size` stratified samples, shuffled.
pub fn generate_array_1d(storage: &mut [Sample], size: u32, chunks: u32, jitter: bool, rng: &mut Rng)
    requires
        old(storage)@.len() == size * chunks,
    ensures
        final(storage)@ == spec_array_1d(*old(rng), size as nat, jitter, chunks as nat).0,
        *final(rng) == spec_array_1d(*old(rng), size as nat, jitter, chunks as nat).1,
{
    let len: usize = storage.len();
    let mut j: u32 = 0;
    let mut offset: usize = 0;
    while j < chunks
        invariant
            j <= chunks,
            offset == size * j,
            len == size * chunks,
            storage@.len() == len,
            storage@.take(offset as int) == spec_array_1d(
                *old(rng),
                size as nat,
                jitter,
                j as nat,
            ).0,
            *rng == spec_array_1d(*old(rng), size as nat, jitter, j as nat).1,
        decreases chunks - j,
    {
        proof {
            crate::sampling::lemma_block_in_range(size as int, j as int, chunks as int);
        }
        let ghost before = storage@;
        let ghost start = *rng;
        let (head, tail) = storage.split_at_mut(offset);
        let (chunk, rest) = tail.split_at_mut(size as usize);
        stratified_sample_1d(chunk, size, rng, jitter);
        shuffle(chunk, size, 1, rng);
        proof {
            let made = spec_table_1d(start, size as nat, jitter);
            assert(spec_stratified_1d(start, size as nat, jitter) + before.subrange(
                offset as int,
                len as int,
            ).subrange(0, size as int).skip(size as int) =~= spec_stratified_1d(
                start,
                size as nat,
                jitter,
            ));
            assert(storage@ =~= before.take(offset as int) + (made.0 + before.skip(offset + size)));
            assert(storage@.take(offset + size) =~= before.take(offset as int) + made.0);
            assert(size * j + size == size * (j + 1)) by (nonlinear_arith);
        }
        offset += size as usize;
        j += 1;
    }
    assert(storage@.take(len as int) =~= storage@);
}

/// Fills the storage of one array of points: for each of the `chunks`
/// pixel samples, a Latin hypercube of `size` points.
pub fn generate_array_2d(storage: &mut [SamplePoint], size: u32, chunks: u32, rng: &mut Rng)
    requires
        old(storage)@.len() == size * chunks,
    ensures
        final(storage)@ == spec_array_2d(*old(rng), size as nat, chunks as nat).0,
        *final(rng) == spec_array_2d(*old(rng), size as nat, chunks as nat).1,
{
    let len: usize = storage.len();
    let mut j: u32 = 0;
    let mut offset: usize = 0;
    while j < chunks
        invariant
            j <= chunks,
            offset == size * j,
            len == size * chunks,
            storage@.len() == len,
            storage@.take(offset as int) == spec_array_2d(*old(rng), size as nat, j as nat).0,
            *rng == spec_array_2d(*old(rng), size as nat, j as nat).1,
        decreases chunks - j,
    {
        proof {
            crate::sampling::lemma_block_in_range(size as int, j as int, chunks as int);
        }
        let ghost before = storage@;
        let ghost start = *rng;
        let (head, tail) = storage.split_at_mut(offset);
        latin_hypercube(tail, size, rng);
        proof {
            let made = spec_latin_hypercube(start, size as nat);
            lemma_latin_hypercube_strata(start, size as nat);
            assert(storage@ =~= before.take(offset as int) + (made.0 + before.skip(offset + size)));
            assert(storage@.take(offset + size) =~= before.take(offset as int) + made.0);
            assert(size * j + size == size * (j + 1)) by (nonlinear_arith);
        }
        offset += size as usize;
        j += 1;
    }
    assert(storage@.take(len as int) =~= storage@);
}

/// Fills the storage of every array of scalars, in the order of the requests.
pub fn generate_arrays_1d(
    arrays: &mut Vec<Vec<Sample>>,
    sizes: &Vec<i32>,
    chunks: u32,
    jitter: bool,
    rng: &mut Rng,
)
    requires
        old(arrays)@.len() == sizes@.len(),
        forall|i: int|
            0 <= i < sizes@.len() ==> 0 <= #[trigger] sizes@[i] && old(arrays)@[i]@.len()
                == sizes@[i] * chunks,
    ensures
        spec_rows(*final(arrays)) == spec_arrays_1d(
            *old(rng),
            spec_sizes(*sizes),
            chunks as nat,
            jitter,
            sizes@.len(),
        ).0,
        *final(rng) == spec_arrays_1d(
            *old(rng),
            spec_sizes(*sizes),
            chunks as nat,
            jitter,
            sizes@.len(),
        ).1,
{
    let count: usize = sizes.len();
    let mut i: usize = 0;
    while i < count
        invariant
            i <= count,
            count == sizes@.len(),
            count == arrays@.len(),
            forall|k: int|
                0 <= k < count ==> 0 <= #[trigger] sizes@[k] && arrays@[k]@.len() == sizes@[k]
                    * chunks,
            spec_rows(*arrays).take(i as int) == spec_arrays_1d(
                *old(rng),
                spec_sizes(*sizes),
                chunks as nat,
                jitter,
                i as nat,
            ).0,
            *rng == spec_arrays_1d(
                *old(rng),
                spec_sizes(*sizes),
                chunks as nat,
                jitter,
                i as nat,
            ).1,
        decreases count - i,
    {
        let ghost rows_before = spec_rows(*arrays);
        let ghost start = *rng;
        let size: u32 = sizes[i] as u32;
        generate_array_1d(arrays[i].as_mut_slice(), size, chunks, jitter, rng);
        proof {
            let rows = spec_rows(*arrays);
            let made = spec_array_1d(start, size as nat, jitter, chunks as nat);
            assert(spec_sizes(*sizes)[i as int] == size);
            assert(rows[i as int] == made.0);
            lemma_array_1d(start, size as nat, jitter, chunks as nat);
            assert(rows.take(i + 1) =~= rows_before.take(i as int).push(made.0));
        }
        i += 1;
    }
    assert(spec_rows(*arrays).take(count as int) =~= spec_rows(*arrays));
}

/// Fills the storage of every array of points, in the order of the requests.
pub fn generate_arrays_2d(
    arrays: &mut Vec<Vec<SamplePoint>>,
    sizes: &Vec<i32>,
    chunks: u32,
    rng: &mut Rng,
)
    requires
        old(arrays)@.len() == sizes@.len(),
        forall|i: int|
            0 <= i < sizes@.len() ==> 0 <= #[trigger] sizes@[i] && old(arrays)@[i]@.len()
                == sizes@[i] * chunks,
    ensures
        spec_rows(*final(arrays)) == spec_arrays_2d(
            *old(rng),
            spec_sizes(*sizes),
            chunks as nat,
            sizes@.len(),
        ).0,
        *final(rng) == spec_arrays_2d(
            *old(rng),
            spec_sizes(*sizes),
            chunks as nat,
            sizes@.len(),
        ).1,
{
    let count: usize = sizes.len();
    let mut i: usize = 0;
    while i < count
        invariant
            i <= count,
            count == sizes@.len(),
            count == arrays@.len(),
            forall|k: int|
                0 <= k < count ==> 0 <= #[trigger] sizes@[k] && arrays@[k]@.len() == sizes@[k]
                    * chunks,
            spec_rows(*arrays).take(i as int) == spec_arrays_2d(
                *old(rng),
                spec_sizes(*sizes),
                chunks as nat,
                i as nat,
            ).0,
            *rng == spec_arrays_2d(*old(rng), spec_sizes(*sizes), chunks as nat, i as nat).1,
        decreases count - i,
    {
        let ghost rows_before = spec_rows(*arrays);
        let ghost start = *rng;
        let size: u32 = sizes[i] as u32;
        generate_array_2d(arrays[i].as_mut_slice(), size, chunks, rng);
        proof {
            let rows = spec_rows(*arrays);
            let made = spec_array_2d(start, size as nat, chunks as nat);
            assert(spec_sizes(*sizes)[i as int] == size);
            assert(rows[i as int] == made.0);
            lemma_array_2d(start, size as nat, chunks as nat);
            assert(rows.take(i + 1) =~= rows_before.take(i as int).push(made.0));
        }
        i += 1;
    }
    assert(spec_rows(*arrays).take(count as int) =~= spec_rows(*arrays));
}

} // verus!
