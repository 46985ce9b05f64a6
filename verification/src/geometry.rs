//! Integer points and vectors.

use vstd::prelude::*;

verus! {

/// A pixel of the image plane.
#[derive(Clone, Copy, Debug, PartialEq, Eq, Structural)]
pub struct Point2i {
    pub x: i32,
    pub y: i32,
}

impl Point2i {
    /// The pixel in the corner of the image.
    pub open spec fn spec_zero() -> Point2i {
        Point2i { x: 0, y: 0 }
    }

    /// The pixel in the corner of the image.
    pub fn zero() -> (p: Point2i)
        ensures
            p == Point2i::spec_zero(),
    {
        Point2i { x: 0, y: 0 }
    }
}

/// A point of space, on the integer grid of world coordinates.
#[derive(Clone, Copy, Debug, PartialEq, Eq, Structural)]
pub struct Point3i {
    pub x: i32,
    pub y: i32,
    pub z: i32,
}

/// A vector of space; the difference of any two points fits.
#[derive(Clone, Copy, Debug, PartialEq, Eq, Structural)]
pub struct Vector3i {
    pub x: i64,
    pub y: i64,
    pub z: i64,
}

/// A surface normal.
#[derive(Clone, Copy, Debug, PartialEq, Eq, Structural)]
pub struct Normal3i {
    pub x: i64,
    pub y: i64,
    pub z: i64,
}

/// The square of `a`, which is never negative.
pub proof fn lemma_square_bounds(a: int)
    requires
        -0x8000_0000_0000_0000 <= a <= 0x7fff_ffff_ffff_ffff,
    ensures
        0 <= a * a <= 0x4000_0000_0000_0000_0000_0000_0000_0000,
        a * a == 0 <==> a == 0,
{
    assert(0 <= a * a <= 0x4000_0000_0000_0000_0000_0000_0000_0000 && (a * a == 0 <==> a == 0))
        by (nonlinear_arith)
        requires
            -0x8000_0000_0000_0000 <= a <= 0x7fff_ffff_ffff_ffff,
    ;
}

fn square(a: i64) -> (r: u128)
    ensures
        r == a * a,
        r <= 0x4000_0000_0000_0000_0000_0000_0000_0000,
        r == 0 <==> a == 0,
{
    proof {
        lemma_square_bounds(a as int);
    }
    let wide: i128 = a as i128;
    (wide * wide) as u128
}

impl Point3i {
    /// The origin of space.
    pub open spec fn spec_origin() -> Point3i {
        Point3i { x: 0, y: 0, z: 0 }
    }

    /// The vector that leads from `from` to this point.
    pub open spec fn spec_vector_from(self, from: Point3i) -> Vector3i {
        Vector3i {
            x: (self.x - from.x) as i64,
            y: (self.y - from.y) as i64,
            z: (self.z - from.z) as i64,
        }
    }

    /// The square of the distance between this point and `other`.
    pub open spec fn spec_distance_squared(self, other: Point3i) -> int {
        (self.x - other.x) * (self.x - other.x) + (self.y - other.y) * (self.y - other.y) + (self.z
            - other.z) * (self.z - other.z)
    }

    /// The origin of space.
    pub fn origin() -> (p: Point3i)
        ensures
            p == Point3i::spec_origin(),
    {
        Point3i { x: 0, y: 0, z: 0 }
    }

    /// The vector that leads from `from` to this point.
    pub fn vector_from(&self, from: &Point3i) -> (v: Vector3i)
        ensures
            v == self.spec_vector_from(*from),
            v.x == self.x - from.x,
            v.y == self.y - from.y,
            v.z == self.z - from.z,
    {
        Vector3i {
            x: self.x as i64 - from.x as i64,
            y: self.y as i64 - from.y as i64,
            z: self.z as i64 - from.z as i64,
        }
    }
}

impl Vector3i {
    /// The vector without length.
    pub open spec fn spec_zero() -> Vector3i {
        Vector3i { x: 0, y: 0, z: 0 }
    }

    /// The square of the length of the vector.
    pub open spec fn spec_length_squared(self) -> int {
        self.x * self.x + self.y * self.y + self.z * self.z
    }

    /// The vector without length.
    pub fn zero() -> (v: Vector3i)
        ensures
            v == Vector3i::spec_zero(),
    {
        Vector3i { x: 0, y: 0, z: 0 }
    }

    /// The square of the length of the vector; zero for the zero vector alone.
    pub fn length_squared(&self) -> (r: u128)
        ensures
            r == self.spec_length_squared(),
            r == 0 <==> *self == Vector3i::spec_zero(),
    {
        square(self.x) + square(self.y) + square(self.z)
    }
}

impl Normal3i {
    /// The normal without length, which stands for "no surface".
    pub open spec fn spec_zero() -> Normal3i {
        Normal3i { x: 0, y: 0, z: 0 }
    }

    /// The normal without length, which stands for "no surface".
    pub fn zero() -> (n: Normal3i)
        ensures
            n == Normal3i::spec_zero(),
    {
        Normal3i { x: 0, y: 0, z: 0 }
    }
}

/// The square of the distance between two points; zero where they are the same point.
pub fn pnt3_distance_squared(p1: &Point3i, p2: &Point3i) -> (r: u128)
    ensures
        r == p1.spec_distance_squared(*p2),
        r == p1.spec_vector_from(*p2).spec_length_squared(),
        r == 0 <==> *p1 == *p2,
{
    p1.vector_from(p2).length_squared()
}

} // verus!
