//! What every light hands to an integrator.

use vstd::prelude::*;
use crate::geometry::{Normal3i, Point3i, Vector3i};
use crate::interaction::InteractionCommon;
use crate::lights::point::PointLight;
use crate::sample::SamplePoint;
use crate::spectrum::{Pdf, Spectrum, SpectrumTimesPi};

verus! {

/// The light is a single point.
pub const DELTA_POSITION: u8 = 1;

/// The light shines from a single direction.
pub const DELTA_DIRECTION: u8 = 2;

/// The light is a surface.
pub const AREA: u8 = 4;

/// The light surrounds the scene.
pub const INFINITE: u8 = 8;

/// Whether a light with these flags can be hit by no ray that is chosen without it.
pub open spec fn spec_is_delta_light(flags: u8) -> bool {
    flags & DELTA_POSITION != 0 || flags & DELTA_DIRECTION != 0
}

/// Whether a light with these flags is a single point or a single direction.
pub fn is_delta_light(flags: u8) -> (b: bool)
    ensures
        b == spec_is_delta_light(flags),
{
    flags & DELTA_POSITION != 0 || flags & DELTA_DIRECTION != 0
}

/// The scene, which is shown to every light before rendering. Nothing of it
/// is read here.
pub struct Scene {}

/// A ray of light.
#[derive(Clone, Copy, Debug, PartialEq, Eq, Structural)]
pub struct Ray {
    pub o: Point3i,
    pub d: Vector3i,
    pub time: i64,
}

/// The two ends of a shadow ray. Whether anything lies between them is for
/// the scene to say.
pub struct VisibilityTester {
    pub p0: InteractionCommon,
    pub p1: InteractionCommon,
}

/// What a light gives for a point that it illuminates.
pub struct LiSample {
    /// The vector from the point to the light. The direction of incidence is
    /// this vector over its length, the square root of `distance_squared`.
    pub wi: Vector3i,
    /// The square of the distance between the point and the light.
    pub distance_squared: u128,
    pub pdf: Pdf,
    pub vis: VisibilityTester,
    /// The radiant intensity of the light towards the point. The radiance
    /// that arrives is `intensity / distance_squared`.
    pub intensity: Spectrum,
}

/// What a light gives for a ray that leaves it.
pub struct LeSample {
    /// Where the ray starts.
    pub origin: Point3i,
    /// The point of the unit square that the uniform map onto the sphere
    /// takes to the direction of the ray, and to the normal at the light.
    pub direction_sample: SamplePoint,
    /// How far the ray reaches; `None` for a ray without end.
    pub t_max: Option<u64>,
    pub time: i64,
    pub pdf_pos: Pdf,
    pub pdf_dir: Pdf,
    pub radiance: Spectrum,
}

impl VisibilityTester {
    /// The end at the point that is lit.
    pub fn p0(&self) -> (p: &InteractionCommon)
        ensures
            *p == self.p0,
    {
        &self.p0
    }

    /// The end at the light.
    pub fn p1(&self) -> (p: &InteractionCommon)
        ensures
            *p == self.p1,
    {
        &self.p1
    }
}

impl LiSample {
    /// The direction of incidence is defined and has length one: the vector
    /// to the light is not zero, and `distance_squared`, by whose square
    /// root it is divided, is the square of its length.
    pub open spec fn spec_unit_direction(self) -> bool {
        self.distance_squared > 0 && self.wi.spec_length_squared() == self.distance_squared
    }

    /// The radiance that arrives is `intensity / d2`, a finite value.
    pub open spec fn spec_radiance_is(self, intensity: Spectrum, d2: int) -> bool {
        self.intensity == intensity && self.distance_squared == d2 && d2 > 0
    }
}

/// A light of one of the kinds that the library has.
pub enum Light {
    Point(PointLight),
}

impl Light {
    /// The light that arrives at `iref` from this light.
    pub fn sample_li(&self, iref: &InteractionCommon, u: &SamplePoint) -> (r: LiSample)
        ensures
            self matches Light::Point(light) && r == light.spec_sample_li(*iref),
    {
        match self {
            Light::Point(light) => light.sample_li(iref, u),
        }
    }

    /// The power that the light emits.
    pub fn power(&self) -> (p: SpectrumTimesPi)
        ensures
            self matches Light::Point(light) && p == light.spec_power(),
    {
        match self {
            Light::Point(light) => light.power(),
        }
    }

    /// What the light needs to know of the scene before rendering.
    pub fn preprocess(&self, scene: &Scene) {
        match self {
            Light::Point(light) => light.preprocess(scene),
        }
    }

    /// What the light adds to a ray that leaves the scene.
    pub fn le(&self, ray: &Ray) -> (s: Spectrum)
        ensures
            self is Point ==> s == Spectrum::spec_new(0),
    {
        match self {
            Light::Point(light) => light.le(ray),
        }
    }

    /// The density with which a direction chosen without the light hits it.
    pub fn pdf_li(&self, iref: &InteractionCommon, wi: Vector3i) -> (pdf: Pdf)
        ensures
            self is Point ==> pdf == Pdf::Zero,
    {
        match self {
            Light::Point(light) => light.pdf_li(iref, wi),
        }
    }

    /// A ray that leaves the light.
    pub fn sample_le(&self, u1: &SamplePoint, u2: &SamplePoint, time: i64) -> (r: LeSample)
        ensures
            self matches Light::Point(light) && r == light.spec_sample_le(*u1, time),
    {
        match self {
            Light::Point(light) => light.sample_le(u1, u2, time),
        }
    }

    /// The densities with which a given ray leaves the light: of its position, of its direction.
    pub fn pdf_le(&self, ray: &Ray, n_light: &Normal3i) -> (r: (Pdf, Pdf))
        ensures
            self is Point ==> r == (Pdf::Zero, Pdf::UniformSphere),
    {
        match self {
            Light::Point(light) => light.pdf_le(ray, n_light),
        }
    }

    /// The flags that say of what kind the light is.
    pub fn get_flags(&self) -> (flags: u8)
        ensures
            self matches Light::Point(light) && flags == light.flags,
    {
        match self {
            Light::Point(light) => light.get_flags(),
        }
    }

    /// How many samples an integrator should take of the light.
    pub fn get_n_samples(&self) -> (n: i32)
        ensures
            self matches Light::Point(light) && n == light.n_samples,
    {
        match self {
            Light::Point(light) => light.get_n_samples(),
        }
    }
}

} // verus!
