//! Radiometric quantities, as exact values.

use vstd::prelude::*;

verus! {

/// A quantity of light in three colour channels.
#[derive(Clone, Copy, Debug, PartialEq, Eq, Structural)]
pub struct Spectrum {
    pub r: i64,
    pub g: i64,
    pub b: i64,
}

/// The product of a spectrum and a whole multiple of pi: `spectrum * (pi_factor * pi)`.
#[derive(Clone, Copy, Debug, PartialEq, Eq, Structural)]
pub struct SpectrumTimesPi {
    pub spectrum: Spectrum,
    pub pi_factor: u32,
}

/// A probability density that a light can report.
#[derive(Clone, Copy, Debug, PartialEq, Eq, Structural)]
pub enum Pdf {
    /// The density 0: the strategy never gives this outcome.
    Zero,
    /// The density 1 of a delta distribution: the strategy gives one outcome only.
    One,
    /// The density of the uniform distribution over the directions of the sphere, `1 / (4 pi)`.
    UniformSphere,
}

impl Spectrum {
    /// The spectrum with `v` in every channel.
    pub open spec fn spec_new(v: i64) -> Spectrum {
        Spectrum { r: v, g: v, b: v }
    }

    /// The spectrum with `v` in every channel.
    pub fn new(v: i64) -> (s: Spectrum)
        ensures
            s == Spectrum::spec_new(v),
    {
        Spectrum { r: v, g: v, b: v }
    }

    /// No light in any channel.
    pub fn is_black(&self) -> (b: bool)
        ensures
            b == (*self == Spectrum::spec_new(0)),
    {
        self.r == 0 && self.g == 0 && self.b == 0
    }
}

} // verus!
