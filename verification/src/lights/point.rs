//! A light that shines from a single point, the same in all directions.

use vstd::prelude::*;
use crate::geometry::{pnt3_distance_squared, Normal3i, Point3i, Vector3i};
use crate::interaction::InteractionCommon;
use crate::light::{LeSample, LiSample, Ray, Scene, VisibilityTester, DELTA_POSITION};
use crate::medium::MediumInterface;
use crate::sample::SamplePoint;
use crate::spectrum::{Pdf, Spectrum, SpectrumTimesPi};
use crate::transform::Transform;

verus! {

/// A light at one point of space that shines with the same intensity in
/// every direction.
#[derive(Clone)]
pub struct PointLight {
    /// Where the light is, in world space.
    pub p_light: Point3i,
    /// The radiant intensity, the same in every direction.
    pub i: Spectrum,
    /// The kind of the light: a single point.
    pub flags: u8,
    /// How many samples an integrator should take of the light: one.
    pub n_samples: i32,
    /// The media around the light, shared with the scene.
    pub medium_interface: MediumInterface,
}

impl PointLight {
    /// A point light at the image of the origin under `light_to_world`.
    pub fn new(light_to_world: &Transform, medium_interface: &MediumInterface, i: &Spectrum) -> (light:
        PointLight)
        ensures
            (light.p_light.x as int, light.p_light.y as int, light.p_light.z as int)
                == light_to_world.spec_transform_point(Point3i::spec_origin()),
            light.i == *i,
            light.flags == DELTA_POSITION,
            light.n_samples == 1,
            light.medium_interface == *medium_interface,
    {
        PointLight {
            p_light: light_to_world.transform_origin(),
            i: *i,
            flags: DELTA_POSITION,
            n_samples: 1,
            medium_interface: medium_interface.share(),
        }
    }

    /// What `sample_li` gives for `iref`: the vector to the light and the
    /// square of its length, the density one, the intensity, and the two
    /// ends of the shadow ray.
    pub open spec fn spec_sample_li(self, iref: InteractionCommon) -> LiSample {
        LiSample {
            wi: self.p_light.spec_vector_from(iref.p),
            distance_squared: self.p_light.spec_distance_squared(iref.p) as u128,
            pdf: Pdf::One,
            vis: VisibilityTester {
                p0: iref.spec_endpoint(),
                p1: InteractionCommon::spec_at(self.p_light, iref.time),
            },
            intensity: self.i,
        }
    }

    /// The power of the light: `4 pi` times its intensity.
    pub open spec fn spec_power(self) -> SpectrumTimesPi {
        SpectrumTimesPi { spectrum: self.i, pi_factor: 4 }
    }

    /// What `sample_le` gives for the direction sample `u1` at `time`.
    pub open spec fn spec_sample_le(self, u1: SamplePoint, time: i64) -> LeSample {
        LeSample {
            origin: self.p_light,
            direction_sample: u1,
            t_max: None,
            time,
            pdf_pos: Pdf::One,
            pdf_dir: Pdf::UniformSphere,
            radiance: self.i,
        }
    }

    /// The light that arrives at `iref` from this light.
    ///
    /// There is one direction only, so `u` is not read and the density is
    /// one. The vector to the light and the square of its length are exact.
    /// Away from the light itself the direction of incidence has length one
    /// and the radiance is the intensity over the square of the distance.
    pub fn sample_li(&self, iref: &InteractionCommon, u: &SamplePoint) -> (r: LiSample)
        ensures
            r == self.spec_sample_li(*iref),
            r.distance_squared == self.p_light.spec_distance_squared(iref.p),
            r.distance_squared > 0 <==> iref.p != self.p_light,
            iref.p != self.p_light ==> r.spec_unit_direction() && r.spec_radiance_is(
                self.i,
                self.p_light.spec_distance_squared(iref.p),
            ),
    {
        let wi: Vector3i = self.p_light.vector_from(&iref.p);
        let distance_squared: u128 = pnt3_distance_squared(&self.p_light, &iref.p);
        let vis = VisibilityTester {
            p0: iref.endpoint(),
            p1: InteractionCommon::at(self.p_light, iref.time),
        };
        LiSample { wi, distance_squared, pdf: Pdf::One, vis, intensity: self.i }
    }

    /// The power of the light: its intensity over the whole sphere, `4 pi` times the intensity.
    pub fn power(&self) -> (p: SpectrumTimesPi)
        ensures
            p == self.spec_power(),
            p.spectrum == self.i,
            p.pi_factor == 4,
    {
        SpectrumTimesPi { spectrum: self.i, pi_factor: 4 }
    }

    /// A point light needs nothing from the scene.
    pub fn preprocess(&self, scene: &Scene) {
    }

    /// What the light adds to a ray that leaves the scene: nothing.
    pub fn le(&self, ray: &Ray) -> (s: Spectrum)
        ensures
            s == Spectrum::spec_new(0),
    {
        Spectrum::new(0)
    }

    /// The density with which a direction chosen without the light hits it: zero, always.
    pub fn pdf_li(&self, iref: &InteractionCommon, wi: Vector3i) -> (pdf: Pdf)
        ensures
            pdf == Pdf::Zero,
    {
        Pdf::Zero
    }

    /// A ray that leaves the light in a direction that is uniform over the sphere.
    ///
    /// `u1` chooses the direction; `u2` is not read, since there is one
    /// position only.
    pub fn sample_le(&self, u1: &SamplePoint, u2: &SamplePoint, time: i64) -> (r: LeSample)
        ensures
            r == self.spec_sample_le(*u1, time),
    {
        LeSample {
            origin: self.p_light,
            direction_sample: *u1,
            t_max: None,
            time,
            pdf_pos: Pdf::One,
            pdf_dir: Pdf::UniformSphere,
            radiance: self.i,
        }
    }

    /// The flags that say of what kind the light is.
    pub fn get_flags(&self) -> (flags: u8)
        ensures
            flags == self.flags,
    {
        self.flags
    }

    /// How many samples an integrator should take of the light.
    pub fn get_n_samples(&self) -> (n: i32)
        ensures
            n == self.n_samples,
    {
        self.n_samples
    }

    /// The densities with which a given ray leaves the light: zero for its
    /// position, uniform over the sphere for its direction.
    pub fn pdf_le(&self, ray: &Ray, n_light: &Normal3i) -> (r: (Pdf, Pdf))
        ensures
            r.0 == Pdf::Zero,
            r.1 == Pdf::UniformSphere,
    {
        (Pdf::Zero, Pdf::UniformSphere)
    }
}

} // verus!
