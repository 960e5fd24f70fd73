//! Axis-aligned bounding boxes: three ranges, one for each axis.
//!
//! A box with `start <= end` on every axis bounds the points between; one
//! with `start == end` is a single plane, line or point. `around` gives the
//! smallest box that holds two others, and `empty` is the box that `around`
//! leaves out of account. A node of a bounding hierarchy holds two shapes
//! and the box around both.

use crate::hittable::Shape;
use crate::vec3::{spec_max, spec_min, Scalar, Vec3};
use std::ops::Range;
use vstd::prelude::*;

verus! {

/// A box given by its extent along each axis.
#[derive(Debug, PartialEq, Eq)]
pub struct AxisAlignedBoundingBox {
    pub x: Range<Scalar>,
    pub y: Range<Scalar>,
    pub z: Range<Scalar>,
}

/// Whether `outer` reaches at least as far as `inner` at both ends.
pub open spec fn range_contains(outer: Range<Scalar>, inner: Range<Scalar>) -> bool {
    outer.start@ <= inner.start@ && inner.end@ <= outer.end@
}

/// The range from the lower of the two starts to the higher of the two
/// ends.
pub open spec fn range_hull(r1: Range<Scalar>, r2: Range<Scalar>) -> Range<Scalar> {
    Range {
        start: Scalar { milli: spec_min(r1.start@, r2.start@) as i64 },
        end: Scalar { milli: spec_max(r1.end@, r2.end@) as i64 },
    }
}

/// The range between two coordinates, whichever is the lower.
pub open spec fn range_between(a: Scalar, b: Scalar) -> Range<Scalar> {
    if a@ <= b@ {
        Range { start: a, end: b }
    } else {
        Range { start: b, end: a }
    }
}

/// The range surrounding `r1` and `r2`.
pub fn range_around(r1: Range<Scalar>, r2: Range<Scalar>) -> (hull: Range<Scalar>)
    ensures
        hull == range_hull(r1, r2),
{
    let start = r1.start.min(r2.start);
    let end = r1.end.max(r2.end);
    Range { start, end }
}

fn range_of(a: Scalar, b: Scalar) -> (range: Range<Scalar>)
    ensures
        range == range_between(a, b),
{
    if a.le(&b) {
        Range { start: a, end: b }
    } else {
        Range { start: b, end: a }
    }
}

impl Clone for AxisAlignedBoundingBox {
    fn clone(&self) -> (copy: Self)
        ensures
            copy == *self,
    {
        AxisAlignedBoundingBox {
            x: Range { start: self.x.start, end: self.x.end },
            y: Range { start: self.y.start, end: self.y.end },
            z: Range { start: self.z.start, end: self.z.end },
        }
    }
}

impl AxisAlignedBoundingBox {
    /// Whether `self` holds all of `inner`.
    pub open spec fn contains(self, inner: AxisAlignedBoundingBox) -> bool {
        &&& range_contains(self.x, inner.x)
        &&& range_contains(self.y, inner.y)
        &&& range_contains(self.z, inner.z)
    }

    /// Whether the point lies in the box, its faces included.
    pub open spec fn holds(self, p: Vec3) -> bool {
        &&& self.x.start@ <= p.x@ <= self.x.end@
        &&& self.y.start@ <= p.y@ <= self.y.end@
        &&& self.z.start@ <= p.z@ <= self.z.end@
    }

    /// The smallest box around two boxes.
    pub open spec fn hull(a: AxisAlignedBoundingBox, b: AxisAlignedBoundingBox) -> AxisAlignedBoundingBox {
        AxisAlignedBoundingBox {
            x: range_hull(a.x, b.x),
            y: range_hull(a.y, b.y),
            z: range_hull(a.z, b.z),
        }
    }

    /// The box that holds nothing: on every axis it starts at the highest
    /// coordinate there is and ends at the lowest.
    pub open spec fn nothing() -> AxisAlignedBoundingBox {
        let inverted = Range { start: Scalar { milli: i64::MAX }, end: Scalar { milli: i64::MIN } };
        AxisAlignedBoundingBox { x: inverted, y: inverted, z: inverted }
    }

    /// The box with the given extent along each axis.
    pub fn new(x_range: Range<Scalar>, y_range: Range<Scalar>, z_range: Range<Scalar>) -> (made: Self)
        ensures
            made == (AxisAlignedBoundingBox { x: x_range, y: y_range, z: z_range }),
    {
        AxisAlignedBoundingBox { x: x_range, y: y_range, z: z_range }
    }

    /// The box with `a` and `b` at opposite corners.
    pub fn new_from_points(a: Vec3, b: Vec3) -> (made: Self)
        ensures
            made == (AxisAlignedBoundingBox {
                x: range_between(a.x, b.x),
                y: range_between(a.y, b.y),
                z: range_between(a.z, b.z),
            }),
            made.holds(a),
            made.holds(b),
    {
        AxisAlignedBoundingBox { x: range_of(a.x, b.x), y: range_of(a.y, b.y), z: range_of(a.z, b.z) }
    }

    /// The bounding box that surrounds both `a` and `b`: it holds both, and
    /// every box that holds both holds it.
    pub fn around(a: &AxisAlignedBoundingBox, b: &AxisAlignedBoundingBox) -> (made: AxisAlignedBoundingBox)
        ensures
            made == AxisAlignedBoundingBox::hull(*a, *b),
            made.contains(*a),
            made.contains(*b),
    {
        let a = a.clone();
        let b = b.clone();
        AxisAlignedBoundingBox {
            x: range_around(a.x, b.x),
            y: range_around(a.y, b.y),
            z: range_around(a.z, b.z),
        }
    }

    /// The three ranges, in the order x, y, z.
    pub fn axes(&self) -> (ranges: Vec<&Range<Scalar>>)
        ensures
            ranges@.len() == 3,
            *ranges@[0] == self.x,
            *ranges@[1] == self.y,
            *ranges@[2] == self.z,
    {
        let mut ranges: Vec<&Range<Scalar>> = Vec::new();
        ranges.push(&self.x);
        ranges.push(&self.y);
        ranges.push(&self.z);
        ranges
    }

    /// The bounding box with size 0 at the origin.
    pub fn zero() -> (made: Self)
        ensures
            made.x == (Range { start: Scalar { milli: 0 }, end: Scalar { milli: 0 } }),
            made.y == made.x,
            made.z == made.x,
    {
        let origin = Scalar::zero();
        AxisAlignedBoundingBox {
            x: Range { start: origin, end: origin },
            y: Range { start: origin, end: origin },
            z: Range { start: origin, end: origin },
        }
    }

    /// The bounding box of nothing, which `around` leaves out of account.
    pub fn empty() -> (made: Self)
        ensures
            made == AxisAlignedBoundingBox::nothing(),
    {
        let high = Scalar::from_milli(i64::MAX);
        let low = Scalar::from_milli(i64::MIN);
        AxisAlignedBoundingBox {
            x: Range { start: high, end: low },
            y: Range { start: high, end: low },
            z: Range { start: high, end: low },
        }
    }
}

/// The box around two boxes is the smallest that holds both: it holds each,
/// and whatever box holds each holds it.
pub proof fn lemma_around_is_minimal(a: AxisAlignedBoundingBox, b: AxisAlignedBoundingBox, c: AxisAlignedBoundingBox)
    ensures
        AxisAlignedBoundingBox::hull(a, b).contains(a),
        AxisAlignedBoundingBox::hull(a, b).contains(b),
        c.contains(a) && c.contains(b) ==> c.contains(AxisAlignedBoundingBox::hull(a, b)),
{
}

/// The box of nothing changes no box it is put around with, on either
/// side, and every box holds it.
pub proof fn lemma_around_nothing(b: AxisAlignedBoundingBox)
    ensures
        AxisAlignedBoundingBox::hull(AxisAlignedBoundingBox::nothing(), b) == b,
        AxisAlignedBoundingBox::hull(b, AxisAlignedBoundingBox::nothing()) == b,
        b.contains(AxisAlignedBoundingBox::nothing()),
{
}

/// The box of nothing holds no point: whatever is sought in a scene
/// without shapes is not there.
pub proof fn lemma_nothing_holds_no_point(p: Vec3)
    ensures
        !AxisAlignedBoundingBox::nothing().holds(p),
{
}

/// Putting boxes around each other does not depend on their order or
/// grouping.
pub proof fn lemma_around_commutes(a: AxisAlignedBoundingBox, b: AxisAlignedBoundingBox, c: AxisAlignedBoundingBox)
    ensures
        AxisAlignedBoundingBox::hull(a, b) == AxisAlignedBoundingBox::hull(b, a),
        AxisAlignedBoundingBox::hull(AxisAlignedBoundingBox::hull(a, b), c) == AxisAlignedBoundingBox::hull(
            a,
            AxisAlignedBoundingBox::hull(b, c),
        ),
{
}

/// A node of a bounding hierarchy: two shapes and the box around both.
#[derive(Debug)]
pub struct BVH {
    children: Vec<Shape>,
    bounding_box: AxisAlignedBoundingBox,
}

impl BVH {
    #[verifier::type_invariant]
    spec fn well_formed(self) -> bool {
        &&& self.children@.len() == 2
        &&& self.bounding_box == AxisAlignedBoundingBox::hull(self.children@[0].bounds(), self.children@[1].bounds())
    }

    /// The first of the two shapes.
    pub closed spec fn first(&self) -> Shape {
        self.children@[0]
    }

    /// The second of the two shapes.
    pub closed spec fn second(&self) -> Shape {
        self.children@[1]
    }

    /// The node over the two shapes.
    pub fn new(left: Shape, right: Shape) -> (node: BVH)
        requires
            left.boxable(),
            right.boxable(),
        ensures
            node.first() == left,
            node.second() == right,
    {
        let bounding_box = AxisAlignedBoundingBox::around(&left.aabb(), &right.aabb());
        let mut children: Vec<Shape> = Vec::new();
        children.push(left);
        children.push(right);
        BVH { children, bounding_box }
    }

    /// The first of the two shapes.
    pub fn left(&self) -> (shape: &Shape)
        ensures
            *shape == self.first(),
    {
        proof {
            use_type_invariant(self);
        }
        &self.children[0]
    }

    /// The second of the two shapes.
    pub fn right(&self) -> (shape: &Shape)
        ensures
            *shape == self.second(),
    {
        proof {
            use_type_invariant(self);
        }
        &self.children[1]
    }

    /// The bounding box surrounding both shapes: the smallest box that
    /// holds the box of each.
    pub fn bounding_box(&self) -> (bounds: &AxisAlignedBoundingBox)
        ensures
            *bounds == AxisAlignedBoundingBox::hull(self.first().bounds(), self.second().bounds()),
            bounds.contains(self.first().bounds()),
            bounds.contains(self.second().bounds()),
    {
        proof {
            use_type_invariant(self);
        }
        &self.bounding_box
    }
}

} // verus!
