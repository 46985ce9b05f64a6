//! Exact sample values in the unit interval.
//!
//! A sample is kept as a stratum index, an offset inside that stratum and the
//! number of strata, all integers. Its value is the rational number
//! `(stratum + offset / 2^32) / strata`, so stratification is a statement
//! about integers and holds without rounding.

use vstd::prelude::*;

verus! {

/// The number of offsets that one stratum is divided into.
pub const OFFSET_SCALE: u64 = 0x1_0000_0000;

/// The offset of the centre of a stratum.
pub const HALF: u32 = 0x8000_0000;

/// A value in the unit interval: `(stratum + offset / 2^32) / strata`.
#[derive(Clone, Copy, Debug, PartialEq, Eq, Structural)]
pub struct Sample {
    pub stratum: u32,
    pub offset: u32,
    pub strata: u32,
}

/// A point of the unit square.
#[derive(Clone, Copy, Debug, PartialEq, Eq, Structural)]
pub struct SamplePoint {
    pub x: Sample,
    pub y: Sample,
}

impl Sample {
    /// The numerator of the value, over `self.denom()`.
    pub open spec fn numer(self) -> int {
        self.stratum as int * 0x1_0000_0000 + self.offset as int
    }

    /// The denominator of the value.
    pub open spec fn denom(self) -> int {
        self.strata as int * 0x1_0000_0000
    }

    /// The value lies in `[0, 1)`.
    pub open spec fn in_unit_interval(self) -> bool {
        0 <= self.numer() < self.denom()
    }

    /// The sample names one of its strata.
    pub open spec fn wf(self) -> bool {
        self.stratum < self.strata
    }

    /// The value lies in the stratum `[i / n, (i + 1) / n)`.
    pub open spec fn in_stratum(self, i: int, n: int) -> bool {
        &&& i * self.denom() <= n * self.numer()
        &&& n * self.numer() < (i + 1) * self.denom()
    }

    /// The value equals `(2 i + 1) / (2 n)`, the centre of stratum `i` of `n`.
    pub open spec fn is_center_of(self, i: int, n: int) -> bool {
        2 * n * self.numer() == (2 * i + 1) * self.denom()
    }

    /// The value `offset / 2^32`: the whole interval as a single stratum.
    pub open spec fn spec_uniform(offset: u32) -> Sample {
        Sample { stratum: 0, offset, strata: 1 }
    }

    /// The value zero.
    pub open spec fn spec_zero() -> Sample {
        Sample { stratum: 0, offset: 0, strata: 1 }
    }

    /// The value zero.
    pub fn zero() -> (s: Sample)
        ensures
            s == Sample::spec_zero(),
            s.wf(),
    {
        Sample { stratum: 0, offset: 0, strata: 1 }
    }

    /// The value `offset / 2^32`.
    pub fn uniform(offset: u32) -> (s: Sample)
        ensures
            s == Sample::spec_uniform(offset),
            s.wf(),
    {
        Sample { stratum: 0, offset, strata: 1 }
    }

    /// The numerator of the value as a machine integer.
    pub fn numerator(&self) -> (r: u64)
        ensures
            r == self.numer(),
    {
        self.stratum as u64 * OFFSET_SCALE + self.offset as u64
    }

    /// The denominator of the value as a machine integer.
    pub fn denominator(&self) -> (r: u64)
        ensures
            r == self.denom(),
    {
        self.strata as u64 * OFFSET_SCALE
    }

    /// A well-formed sample has a value in `[0, 1)`, inside its own stratum.
    pub proof fn lemma_wf_in_unit_interval(self)
        requires
            self.wf(),
        ensures
            self.in_unit_interval(),
            self.in_stratum(self.stratum as int, self.strata as int),
    {
        let n = self.strata as int;
        let i = self.stratum as int;
        let o = self.offset as int;
        assert(i * (n * 0x1_0000_0000) <= n * (i * 0x1_0000_0000 + o)) by (nonlinear_arith)
            requires
                0 <= i,
                0 <= n,
                0 <= o,
        ;
        assert(n * (i * 0x1_0000_0000 + o) < (i + 1) * (n * 0x1_0000_0000)) by (nonlinear_arith)
            requires
                0 <= i,
                0 < n,
                0 <= o < 0x1_0000_0000,
        ;
    }

    /// A sample at the half offset is the centre of its stratum.
    pub proof fn lemma_half_is_center(self)
        requires
            self.offset == HALF,
        ensures
            self.is_center_of(self.stratum as int, self.strata as int),
    {
        let n = self.strata as int;
        let i = self.stratum as int;
        assert(2 * n * (i * 0x1_0000_0000 + 0x8000_0000) == (2 * i + 1) * (n * 0x1_0000_0000))
            by (nonlinear_arith);
    }
}

impl SamplePoint {
    /// Both coordinates name one of their strata, so the point lies in the unit square.
    pub open spec fn wf(self) -> bool {
        self.x.wf() && self.y.wf()
    }

    /// The origin of the unit square.
    pub open spec fn spec_zero() -> SamplePoint {
        SamplePoint { x: Sample::spec_zero(), y: Sample::spec_zero() }
    }

    /// The origin of the unit square.
    pub fn zero() -> (p: SamplePoint)
        ensures
            p == SamplePoint::spec_zero(),
            p.wf(),
    {
        SamplePoint { x: Sample::zero(), y: Sample::zero() }
    }
}

} // verus!
