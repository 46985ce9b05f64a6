//! Affine maps of space with whole coefficients.

use vstd::prelude::*;
use crate::geometry::Point3i;

verus! {

/// One row of an affine map: `x`, `y` and `z` weigh the coordinates of a
/// point, and `t` is added.
#[derive(Clone, Copy, Debug, PartialEq, Eq, Structural)]
pub struct Row {
    pub x: i32,
    pub y: i32,
    pub z: i32,
    pub t: i32,
}

/// An affine map of space: each coordinate of the image is one row applied to the point.
#[derive(Clone, Copy, Debug, PartialEq, Eq, Structural)]
pub struct Transform {
    pub row_x: Row,
    pub row_y: Row,
    pub row_z: Row,
}

impl Row {
    /// The row applied to `p`.
    pub open spec fn spec_apply(self, p: Point3i) -> int {
        self.x * p.x + self.y * p.y + self.z * p.z + self.t
    }

    /// The row applied to `p`, where the result is a coordinate of the grid.
    pub fn apply(&self, p: &Point3i) -> (r: Option<i32>)
        ensures
            r is Some <==> i32::MIN <= self.spec_apply(*p) <= i32::MAX,
            r matches Some(v) ==> v == self.spec_apply(*p),
    {
        proof {
            lemma_product_bounds(self.x as int, p.x as int);
            lemma_product_bounds(self.y as int, p.y as int);
            lemma_product_bounds(self.z as int, p.z as int);
        }
        let sum: i128 = self.x as i128 * p.x as i128 + self.y as i128 * p.y as i128 + self.z as i128
            * p.z as i128 + self.t as i128;
        if sum < i32::MIN as i128 || sum > i32::MAX as i128 {
            None
        } else {
            Some(sum as i32)
        }
    }
}

/// The product of two coordinates of the grid fits in 64 bits.
pub proof fn lemma_product_bounds(a: int, b: int)
    requires
        i32::MIN <= a <= i32::MAX,
        i32::MIN <= b <= i32::MAX,
    ensures
        -0x4000_0000_0000_0000 <= a * b <= 0x4000_0000_0000_0000,
{
    assert(-0x4000_0000_0000_0000 <= a * b <= 0x4000_0000_0000_0000) by (nonlinear_arith)
        requires
            -0x8000_0000 <= a <= 0x7fff_ffff,
            -0x8000_0000 <= b <= 0x7fff_ffff,
    ;
}

impl Transform {
    /// The map that moves every point by `(x, y, z)`.
    pub open spec fn spec_translate(x: i32, y: i32, z: i32) -> Transform {
        Transform {
            row_x: Row { x: 1, y: 0, z: 0, t: x },
            row_y: Row { x: 0, y: 1, z: 0, t: y },
            row_z: Row { x: 0, y: 0, z: 1, t: z },
        }
    }

    /// The image of `p`, coordinate by coordinate.
    pub open spec fn spec_transform_point(self, p: Point3i) -> (int, int, int) {
        (self.row_x.spec_apply(p), self.row_y.spec_apply(p), self.row_z.spec_apply(p))
    }

    /// The image of `p` is a point of the grid.
    pub open spec fn spec_maps_to_grid(self, p: Point3i) -> bool {
        let image = self.spec_transform_point(p);
        &&& i32::MIN <= image.0 <= i32::MAX
        &&& i32::MIN <= image.1 <= i32::MAX
        &&& i32::MIN <= image.2 <= i32::MAX
    }

    /// The map that moves every point by `(x, y, z)`.
    pub fn translate(x: i32, y: i32, z: i32) -> (t: Transform)
        ensures
            t == Transform::spec_translate(x, y, z),
    {
        Transform {
            row_x: Row { x: 1, y: 0, z: 0, t: x },
            row_y: Row { x: 0, y: 1, z: 0, t: y },
            row_z: Row { x: 0, y: 0, z: 1, t: z },
        }
    }

    /// The image of `p`, where it is a point of the grid.
    pub fn transform_point(&self, p: &Point3i) -> (r: Option<Point3i>)
        ensures
            r is Some <==> self.spec_maps_to_grid(*p),
            r matches Some(q) ==> (q.x as int, q.y as int, q.z as int)
                == self.spec_transform_point(*p),
    {
        let x = self.row_x.apply(p);
        let y = self.row_y.apply(p);
        let z = self.row_z.apply(p);
        match (x, y, z) {
            (Some(x), Some(y), Some(z)) => Some(Point3i { x, y, z }),
            _ => None,
        }
    }

    /// The image of the origin, which is always a point of the grid: the
    /// constant terms of the three rows.
    pub fn transform_origin(&self) -> (q: Point3i)
        ensures
            self.spec_maps_to_grid(Point3i::spec_origin()),
            (q.x as int, q.y as int, q.z as int) == self.spec_transform_point(
                Point3i::spec_origin(),
            ),
    {
        Point3i { x: self.row_x.t, y: self.row_y.t, z: self.row_z.t }
    }
}

} // verus!
