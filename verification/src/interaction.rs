//! What a light is told of the point that it illuminates.

use vstd::prelude::*;
use crate::geometry::{Normal3i, Point3i, Vector3i};
use crate::medium::MediumInterface;

verus! {

/// A point of a surface or of a medium, with what is known there.
pub struct InteractionCommon {
    pub p: Point3i,
    pub time: i64,
    /// A bound on the error of `p`, coordinate by coordinate.
    pub p_error: Vector3i,
    /// The direction in which light leaves the point.
    pub wo: Vector3i,
    pub n: Normal3i,
    pub medium_interface: Option<MediumInterface>,
}

impl InteractionCommon {
    /// The point as a shadow ray sees it: the same place, time, error
    /// bound, outgoing direction and normal, and no media of its own.
    pub open spec fn spec_endpoint(self) -> InteractionCommon {
        InteractionCommon {
            p: self.p,
            time: self.time,
            p_error: self.p_error,
            wo: self.wo,
            n: self.n,
            medium_interface: None,
        }
    }

    /// A bare point at `p` and `time`: no error bound, no outgoing
    /// direction, no normal, no media.
    pub open spec fn spec_at(p: Point3i, time: i64) -> InteractionCommon {
        InteractionCommon {
            p,
            time,
            p_error: Vector3i::spec_zero(),
            wo: Vector3i::spec_zero(),
            n: Normal3i::spec_zero(),
            medium_interface: None,
        }
    }

    /// The point as a shadow ray sees it.
    pub fn endpoint(&self) -> (e: InteractionCommon)
        ensures
            e == self.spec_endpoint(),
    {
        InteractionCommon {
            p: self.p,
            time: self.time,
            p_error: self.p_error,
            wo: self.wo,
            n: self.n,
            medium_interface: None,
        }
    }

    /// A bare point at `p` and `time`.
    pub fn at(p: Point3i, time: i64) -> (e: InteractionCommon)
        ensures
            e == InteractionCommon::spec_at(p, time),
    {
        InteractionCommon {
            p,
            time,
            p_error: Vector3i::zero(),
            wo: Vector3i::zero(),
            n: Normal3i::zero(),
            medium_interface: None,
        }
    }
}

} // verus!
