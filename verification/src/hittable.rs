//! The shapes of a scene: spheres and triangles, each with its material.
//!
//! A shape is fixed once made, but for the node index that the acceleration
//! structure keeps in it.

use crate::bvh::{range_hull, AxisAlignedBoundingBox};
use crate::fault::SceneError;
use crate::material::Material;
use crate::vec3::{spec_max, spec_min, Point3, Scalar, Vec2, Vec3};
use std::ops::Range;
use std::sync::Arc;
use vstd::prelude::*;

verus! {

/// A shape of one of the two kinds.
#[derive(Debug, PartialEq, Eq)]
pub enum Shape {
    Sphere(Sphere),
    Triangle(Triangle),
}

/// A triangle with corners `a`, `b`, `c`. It faces the side from which the
/// corners appear in counter-clockwise order.
#[derive(Debug, PartialEq, Eq)]
pub struct Triangle {
    pub a: Point3,
    pub b: Point3,
    pub c: Point3,
    pub uv_a: Vec2,
    pub uv_b: Vec2,
    pub uv_c: Vec2,
    pub material: Arc<Material>,
    /// For use in the acceleration structure.
    pub node_index: usize,
}

/// A sphere. Its radius is never negative.
#[derive(Debug, PartialEq, Eq)]
pub struct Sphere {
    center: Point3,
    radius: Scalar,
    /// The direction that the middle of the texture faces.
    front_direction: Vec3,
    material: Arc<Material>,
    /// For use in the acceleration structure.
    node_index: usize,
}

/// The texture coordinates that a triangle has at its first corner when none
/// are given.
pub open spec fn default_uv_a() -> Vec2 {
    Vec2 { x: Scalar { milli: 0 }, y: Scalar { milli: 0 } }
}

/// The texture coordinates that a triangle has at its second corner when
/// none are given.
pub open spec fn default_uv_b() -> Vec2 {
    Vec2 { x: Scalar { milli: 1000 }, y: Scalar { milli: 0 } }
}

/// The texture coordinates that a triangle has at its third corner when none
/// are given.
pub open spec fn default_uv_c() -> Vec2 {
    Vec2 { x: Scalar { milli: 500 }, y: Scalar { milli: 1000 } }
}

/// The range from the lowest to the highest of three coordinates.
pub open spec fn span3(a: Scalar, b: Scalar, c: Scalar) -> Range<Scalar> {
    Range {
        start: Scalar { milli: spec_min(spec_min(a@, b@), c@) as i64 },
        end: Scalar { milli: spec_max(spec_max(a@, b@), c@) as i64 },
    }
}

/// The point `p` moved by `shift`, where that is a point.
pub open spec fn moved(p: Point3, shift: Vec3) -> Option<Point3> {
    if i64::MIN <= p.x@ + shift.x@ <= i64::MAX && i64::MIN <= p.y@ + shift.y@ <= i64::MAX && i64::MIN <= p.z@
        + shift.z@ <= i64::MAX {
        Some(Vec3::at(p.x@ + shift.x@, p.y@ + shift.y@, p.z@ + shift.z@))
    } else {
        None
    }
}

fn move_point(p: Point3, shift: Vec3) -> (q: Point3)
    requires
        moved(p, shift) is Some,
    ensures
        Some(q) == moved(p, shift),
{
    Vec3::from_milli(p.x.milli + shift.x.milli, p.y.milli + shift.y.milli, p.z.milli + shift.z.milli)
}

fn span(a: Scalar, b: Scalar, c: Scalar) -> (range: Range<Scalar>)
    ensures
        range == span3(a, b, c),
{
    Range { start: a.min(b).min(c), end: a.max(b).max(c) }
}

impl Triangle {
    /// The node of the acceleration structure that holds the triangle.
    pub open spec fn node(&self) -> usize {
        self.node_index
    }

    /// Whether the triangle has the given corners, texture coordinates and
    /// material, and is held by no node yet.
    pub open spec fn is(&self, a: Point3, b: Point3, c: Point3, uv_a: Vec2, uv_b: Vec2, uv_c: Vec2, material: Arc<Material>) -> bool {
        &&& self.a == a
        &&& self.b == b
        &&& self.c == c
        &&& self.uv_a == uv_a
        &&& self.uv_b == uv_b
        &&& self.uv_c == uv_c
        &&& self.material == material
        &&& self.node() == 0
    }

    /// The smallest box that holds the three corners.
    pub open spec fn bounds(&self) -> AxisAlignedBoundingBox {
        AxisAlignedBoundingBox {
            x: span3(self.a.x, self.b.x, self.c.x),
            y: span3(self.a.y, self.b.y, self.c.y),
            z: span3(self.a.z, self.b.z, self.c.z),
        }
    }

    /// The triangle with the given corners. Its texture coordinates are
    /// (0, 0) at `a`, (1, 0) at `b` and (0.5, 1) at `c`.
    pub fn new(a: Point3, b: Point3, c: Point3, material: Arc<Material>) -> (made: Self)
        ensures
            made.is(a, b, c, default_uv_a(), default_uv_b(), default_uv_c(), material),
    {
        Triangle {
            a,
            b,
            c,
            uv_a: Vec2::from_milli(0, 0),
            uv_b: Vec2::from_milli(1000, 0),
            uv_c: Vec2::from_milli(500, 1000),
            material,
            node_index: 0,
        }
    }

    /// The triangle with the given corners and texture coordinates.
    pub fn new_with_uv(
        a: Point3,
        b: Point3,
        c: Point3,
        uv_a: Vec2,
        uv_b: Vec2,
        uv_c: Vec2,
        material: Arc<Material>,
    ) -> (made: Self)
        ensures
            made.is(a, b, c, uv_a, uv_b, uv_c, material),
    {
        Triangle { a, b, c, uv_a, uv_b, uv_c, material, node_index: 0 }
    }

    /// The triangle with the given corners that faces the other way: its
    /// corners are taken in the order `c`, `b`, `a`.
    pub fn new_opposite_normal(a: Point3, b: Point3, c: Point3, material: Arc<Material>) -> (made: Self)
        ensures
            made.is(c, b, a, default_uv_a(), default_uv_b(), default_uv_c(), material),
    {
        Self::new(c, b, a, material)
    }

    /// Whether the triangle can be moved by `shift` without a corner
    /// leaving the coordinates there are.
    pub open spec fn can_shift(&self, shift: Vec3) -> bool {
        &&& moved(self.a, shift) is Some
        &&& moved(self.b, shift) is Some
        &&& moved(self.c, shift) is Some
    }

    /// The triangle moved by `shift`: every corner is moved, the texture
    /// coordinates and the material stay, and no node holds the new
    /// triangle yet.
    pub fn shift(&self, shift: Vec3) -> (made: Self)
        requires
            self.can_shift(shift),
        ensures
            made.is(
                moved(self.a, shift)->Some_0,
                moved(self.b, shift)->Some_0,
                moved(self.c, shift)->Some_0,
                self.uv_a,
                self.uv_b,
                self.uv_c,
                self.material,
            ),
    {
        Triangle::new_with_uv(
            move_point(self.a, shift),
            move_point(self.b, shift),
            move_point(self.c, shift),
            self.uv_a,
            self.uv_b,
            self.uv_c,
            self.material.clone(),
        )
    }

    /// The smallest box that holds the triangle.
    pub fn aabb(&self) -> (bounds: AxisAlignedBoundingBox)
        ensures
            bounds == self.bounds(),
            bounds.holds(self.a),
            bounds.holds(self.b),
            bounds.holds(self.c),
    {
        AxisAlignedBoundingBox {
            x: span(self.a.x, self.b.x, self.c.x),
            y: span(self.a.y, self.b.y, self.c.y),
            z: span(self.a.z, self.b.z, self.c.z),
        }
    }

    /// Records the node of the acceleration structure that holds the
    /// triangle. Nothing else changes.
    pub fn set_bh_node_index(&mut self, index: usize)
        ensures
            final(self).node() == index,
            final(self).a == old(self).a,
            final(self).b == old(self).b,
            final(self).c == old(self).c,
            final(self).uv_a == old(self).uv_a,
            final(self).uv_b == old(self).uv_b,
            final(self).uv_c == old(self).uv_c,
            final(self).material == old(self).material,
    {
        self.node_index = index;
    }

    /// The node of the acceleration structure that holds the triangle.
    pub fn bh_node_index(&self) -> (index: usize)
        ensures
            index == self.node(),
    {
        self.node_index
    }
}

impl Sphere {
    #[verifier::type_invariant]
    spec fn radius_is_not_negative(self) -> bool {
        self.radius@ >= 0
    }

    /// The centre.
    pub closed spec fn middle(&self) -> Point3 {
        self.center
    }

    /// The radius.
    pub closed spec fn reach(&self) -> Scalar {
        self.radius
    }

    /// The direction that the middle of the texture faces.
    pub closed spec fn front(&self) -> Vec3 {
        self.front_direction
    }

    /// The material.
    pub closed spec fn matter(&self) -> Arc<Material> {
        self.material
    }

    /// The node of the acceleration structure that holds the sphere.
    pub closed spec fn node(&self) -> usize {
        self.node_index
    }

    /// Whether the sphere has the given centre, the given radius (zero if
    /// that is negative), material and front, and is held by no node yet.
    pub open spec fn is(&self, center: Vec3, radius: Scalar, material: Arc<Material>, front: Vec3) -> bool {
        &&& self.middle() == center
        &&& self.reach()@ == spec_max(radius@, 0)
        &&& self.matter() == material
        &&& self.front() == front
        &&& self.node() == 0
    }

    /// Whether the box around the sphere can be written down: the centre
    /// less and plus the radius stays within the coordinates there are.
    pub open spec fn boxable(&self) -> bool {
        &&& i64::MIN <= self.middle().x@ - self.reach()@ && self.middle().x@ + self.reach()@ <= i64::MAX
        &&& i64::MIN <= self.middle().y@ - self.reach()@ && self.middle().y@ + self.reach()@ <= i64::MAX
        &&& i64::MIN <= self.middle().z@ - self.reach()@ && self.middle().z@ + self.reach()@ <= i64::MAX
    }

    /// The box from the centre less the radius to the centre plus the
    /// radius.
    pub open spec fn bounds(&self) -> AxisAlignedBoundingBox {
        AxisAlignedBoundingBox {
            x: Range {
                start: Scalar { milli: (self.middle().x@ - self.reach()@) as i64 },
                end: Scalar { milli: (self.middle().x@ + self.reach()@) as i64 },
            },
            y: Range {
                start: Scalar { milli: (self.middle().y@ - self.reach()@) as i64 },
                end: Scalar { milli: (self.middle().y@ + self.reach()@) as i64 },
            },
            z: Range {
                start: Scalar { milli: (self.middle().z@ - self.reach()@) as i64 },
                end: Scalar { milli: (self.middle().z@ + self.reach()@) as i64 },
            },
        }
    }

    /// A new sphere whose texture faces in the direction of the x-axis. A
    /// negative radius is taken as zero.
    pub fn new(center: Vec3, radius: Scalar, material: Arc<Material>) -> (made: Self)
        ensures
            made.is(center, radius, material, Vec3::at(1000, 0, 0)),
    {
        Sphere {
            center,
            radius: radius.max(Scalar::zero()),
            material,
            node_index: 0,
            front_direction: Vec3::x_axis(),
        }
    }

    /// A new sphere whose texture faces in the direction of `front_face`. A
    /// negative radius is taken as zero.
    pub fn new_facing(center: Vec3, radius: Scalar, material: Arc<Material>, front_face: Vec3) -> (made: Self)
        ensures
            made.is(center, radius, material, front_face),
    {
        Sphere {
            center,
            radius: radius.max(Scalar::zero()),
            material,
            node_index: 0,
            front_direction: front_face,
        }
    }

    /// The centre.
    pub fn center(&self) -> (c: Point3)
        ensures
            c == self.middle(),
    {
        self.center
    }

    /// The radius.
    pub fn radius(&self) -> (r: Scalar)
        ensures
            r == self.reach(),
            r@ >= 0,
    {
        proof {
            use_type_invariant(self);
        }
        self.radius
    }

    /// The material.
    pub fn material(&self) -> (m: &Arc<Material>)
        ensures
            *m == self.matter(),
    {
        &self.material
    }

    /// The direction that the middle of the texture faces.
    pub fn front_direction(&self) -> (f: Vec3)
        ensures
            f == self.front(),
    {
        self.front_direction
    }

    /// The box around the sphere.
    pub fn aabb(&self) -> (bounds: AxisAlignedBoundingBox)
        requires
            self.boxable(),
        ensures
            bounds == self.bounds(),
            bounds.holds(self.middle()),
    {
        proof {
            use_type_invariant(self);
        }
        let r: i64 = self.radius.milli;
        AxisAlignedBoundingBox {
            x: Range {
                start: Scalar { milli: self.center.x.milli - r },
                end: Scalar { milli: self.center.x.milli + r },
            },
            y: Range {
                start: Scalar { milli: self.center.y.milli - r },
                end: Scalar { milli: self.center.y.milli + r },
            },
            z: Range {
                start: Scalar { milli: self.center.z.milli - r },
                end: Scalar { milli: self.center.z.milli + r },
            },
        }
    }

    /// Records the node of the acceleration structure that holds the
    /// sphere. Nothing else changes.
    pub fn set_bh_node_index(&mut self, index: usize)
        ensures
            final(self).node() == index,
            final(self).middle() == old(self).middle(),
            final(self).reach() == old(self).reach(),
            final(self).front() == old(self).front(),
            final(self).matter() == old(self).matter(),
    {
        proof {
            use_type_invariant(&*self);
        }
        self.node_index = index;
    }

    /// The node of the acceleration structure that holds the sphere.
    pub fn bh_node_index(&self) -> (index: usize)
        ensures
            index == self.node(),
    {
        self.node_index
    }
}

impl Shape {
    /// The node of the acceleration structure that holds the shape.
    pub open spec fn node(&self) -> usize {
        match self {
            Shape::Sphere(s) => s.node(),
            Shape::Triangle(t) => t.node(),
        }
    }

    /// The box around the shape.
    pub open spec fn bounds(&self) -> AxisAlignedBoundingBox {
        match self {
            Shape::Sphere(s) => s.bounds(),
            Shape::Triangle(t) => t.bounds(),
        }
    }

    /// Whether the box around the shape can be written down.
    pub open spec fn boxable(&self) -> bool {
        match self {
            Shape::Sphere(s) => s.boxable(),
            Shape::Triangle(_) => true,
        }
    }

    /// The material of the shape.
    pub open spec fn matter(&self) -> Arc<Material> {
        match self {
            Shape::Sphere(s) => s.matter(),
            Shape::Triangle(t) => t.material,
        }
    }

    /// The box around the shape.
    pub fn aabb(&self) -> (bounds: AxisAlignedBoundingBox)
        requires
            self.boxable(),
        ensures
            bounds == self.bounds(),
    {
        match self {
            Shape::Sphere(s) => s.aabb(),
            Shape::Triangle(t) => t.aabb(),
        }
    }

    /// Records the node of the acceleration structure that holds the shape.
    /// The shape itself stays as it is.
    pub fn set_bh_node_index(&mut self, index: usize)
        ensures
            final(self).node() == index,
            final(self).bounds() == old(self).bounds(),
            final(self).matter() == old(self).matter(),
            (*final(self)) is Sphere <==> (*old(self)) is Sphere,
    {
        match self {
            Shape::Sphere(s) => s.set_bh_node_index(index),
            Shape::Triangle(t) => t.set_bh_node_index(index),
        }
    }

    /// The node of the acceleration structure that holds the shape.
    pub fn bh_node_index(&self) -> (index: usize)
        ensures
            index == self.node(),
    {
        match self {
            Shape::Sphere(s) => s.bh_node_index(),
            Shape::Triangle(t) => t.bh_node_index(),
        }
    }
}

impl Shape {
    /// The first fault of the shape, if it has one: a box around it that
    /// cannot be written down, or a fault of its material.
    pub open spec fn fault(&self) -> Option<SceneError> {
        if !self.boxable() {
            Some(SceneError::OutOfBounds)
        } else {
            (*self.matter()).fault()
        }
    }

    /// Looks for a fault in the shape and names the first.
    pub fn check(&self) -> (found: Result<(), SceneError>)
        ensures
            match self.fault() {
                None => found is Ok,
                Some(e) => found == Err::<(), SceneError>(e),
            },
    {
        match self {
            Shape::Sphere(s) => {
                if !s.fits() {
                    return Err(SceneError::OutOfBounds);
                }
                s.material().check()
            },
            Shape::Triangle(t) => t.material.check(),
        }
    }
}

impl Sphere {
    /// Whether the box around the sphere can be written down.
    pub fn fits(&self) -> (fit: bool)
        ensures
            fit == self.boxable(),
    {
        span_fits(self.center.x, self.radius) && span_fits(self.center.y, self.radius) && span_fits(
            self.center.z,
            self.radius,
        )
    }
}

/// Whether `middle` less `reach` and `middle` plus `reach` are both
/// coordinates.
fn span_fits(middle: Scalar, reach: Scalar) -> (fit: bool)
    ensures
        fit == (i64::MIN <= middle@ - reach@ && middle@ + reach@ <= i64::MAX),
{
    let m: i128 = middle.milli as i128;
    let r: i128 = reach.milli as i128;
    let low: i128 = i64::MIN as i128;
    let high: i128 = i64::MAX as i128;
    low <= m - r && m + r <= high
}

/// The first fault among the shapes of a scene, if there is one.
pub open spec fn scene_fault(shapes: Seq<Shape>) -> Option<SceneError>
    decreases shapes.len(),
{
    if shapes.len() == 0 {
        None
    } else if scene_fault(shapes.drop_last()) is Some {
        scene_fault(shapes.drop_last())
    } else {
        shapes.last().fault()
    }
}

/// A scene is without fault exactly when each of its shapes is.
pub proof fn lemma_scene_without_fault(shapes: Seq<Shape>)
    ensures
        scene_fault(shapes) is None <==> forall|i: int| 0 <= i < shapes.len() ==> (#[trigger] shapes[i]).fault() is None,
    decreases shapes.len(),
{
    if shapes.len() > 0 {
        let head = shapes.drop_last();
        lemma_scene_without_fault(head);
        if scene_fault(shapes) is None {
            assert forall|i: int| 0 <= i < shapes.len() implies (#[trigger] shapes[i]).fault() is None by {
                if i < head.len() {
                    assert(head[i] == shapes[i]);
                }
            }
        } else {
            if scene_fault(head) is Some {
                let i = choose|i: int| 0 <= i < head.len() && !((#[trigger] head[i]).fault() is None);
                assert(head[i] == shapes[i]);
            }
        }
    }
}

/// The shapes of a scene, checked: every colour is a colour, every blur a
/// blur, and every shape has its box.
#[derive(Debug)]
pub struct World {
    shapes: Vec<Shape>,
}

impl View for World {
    type V = Seq<Shape>;

    /// The shapes, in the order given.
    closed spec fn view(&self) -> Seq<Shape> {
        self.shapes@
    }
}

impl World {
    #[verifier::type_invariant]
    spec fn well_formed(self) -> bool {
        scene_fault(self.shapes@) is None
    }

    /// Checks the shapes and makes a world of them, or names the first
    /// fault of the first shape that has one. A scene without shapes is a
    /// world.
    pub fn build(shapes: Vec<Shape>) -> (made: Result<World, SceneError>)
        ensures
            match scene_fault(shapes@) {
                None => made matches Ok(world) && world@ == shapes@,
                Some(e) => made matches Err(f) && f == e,
            },
    {
        let mut i: usize = 0;
        assert(shapes@.subrange(0, 0) =~= Seq::<Shape>::empty());
        while i < shapes.len()
            invariant
                i <= shapes@.len(),
                scene_fault(shapes@.subrange(0, i as int)) is None,
            decreases shapes@.len() - i,
        {
            let found = shapes[i].check();
            proof {
                let head = shapes@.subrange(0, i as int);
                let next = shapes@.subrange(0, i as int + 1);
                assert(next.drop_last() =~= head);
                assert(next.last() == shapes@[i as int]);
                if found is Err {
                    lemma_first_fault(shapes@, i as int + 1);
                }
            }
            match found {
                Ok(_) => {},
                Err(e) => {
                    return Err(e);
                },
            }
            i += 1;
        }
        assert(shapes@.subrange(0, shapes@.len() as int) =~= shapes@);
        Ok(World { shapes })
    }

    /// The shapes, in the order given. None of them has a fault.
    pub fn shapes(&self) -> (shapes: &Vec<Shape>)
        ensures
            shapes@ == self@,
            scene_fault(self@) is None,
    {
        proof {
            use_type_invariant(self);
        }
        &self.shapes
    }

    /// The box around the world: the smallest box that holds the box of
    /// every shape. Around a world without shapes it is the box of nothing.
    pub fn bounding_box(&self) -> (bounds: AxisAlignedBoundingBox)
        ensures
            bounds == bounds_of(self@),
            forall|i: int| 0 <= i < self@.len() ==> bounds.contains((#[trigger] self@[i]).bounds()),
    {
        proof {
            use_type_invariant(self);
            lemma_scene_without_fault(self.shapes@);
        }
        bounding_box(&self.shapes)
    }
}

/// A fault among the first shapes of a scene is the fault of the scene.
pub proof fn lemma_first_fault(shapes: Seq<Shape>, k: int)
    requires
        0 <= k <= shapes.len(),
        scene_fault(shapes.subrange(0, k)) is Some,
    ensures
        scene_fault(shapes) == scene_fault(shapes.subrange(0, k)),
    decreases shapes.len() - k,
{
    if k < shapes.len() {
        let next = shapes.subrange(0, k + 1);
        assert(next.drop_last() =~= shapes.subrange(0, k));
        lemma_first_fault(shapes, k + 1);
    } else {
        assert(shapes.subrange(0, k) =~= shapes);
    }
}

/// The box around all the shapes of a scene.
pub open spec fn bounds_of(shapes: Seq<Shape>) -> AxisAlignedBoundingBox
    decreases shapes.len(),
{
    if shapes.len() == 0 {
        AxisAlignedBoundingBox::nothing()
    } else {
        AxisAlignedBoundingBox::hull(bounds_of(shapes.drop_last()), shapes.last().bounds())
    }
}

/// The box around all the shapes of a scene: the smallest box that holds
/// the box of every shape. Around no shape at all it is the box of nothing.
pub fn bounding_box(shapes: &Vec<Shape>) -> (bounds: AxisAlignedBoundingBox)
    requires
        forall|i: int| 0 <= i < shapes@.len() ==> (#[trigger] shapes@[i]).boxable(),
    ensures
        bounds == bounds_of(shapes@),
        forall|i: int| 0 <= i < shapes@.len() ==> bounds.contains((#[trigger] shapes@[i]).bounds()),
{
    let mut bounds = AxisAlignedBoundingBox::empty();
    let mut i: usize = 0;
    assert(shapes@.subrange(0, 0) =~= Seq::<Shape>::empty());
    while i < shapes.len()
        invariant
            i <= shapes@.len(),
            forall|k: int| 0 <= k < shapes@.len() ==> (#[trigger] shapes@[k]).boxable(),
            bounds == bounds_of(shapes@.subrange(0, i as int)),
            forall|k: int| 0 <= k < i ==> bounds.contains((#[trigger] shapes@[k]).bounds()),
        decreases shapes@.len() - i,
    {
        let shape_bounds = shapes[i].aabb();
        let ghost before = bounds;
        bounds = AxisAlignedBoundingBox::around(&bounds, &shape_bounds);
        proof {
            let head = shapes@.subrange(0, i as int);
            let next = shapes@.subrange(0, i as int + 1);
            assert(next.drop_last() =~= head);
            assert(next.last() == shapes@[i as int]);
            assert forall|k: int| 0 <= k <= i implies bounds.contains((#[trigger] shapes@[k]).bounds()) by {
                if k < i {
                    assert(before.contains(shapes@[k].bounds()));
                }
            }
        }
        i += 1;
    }
    assert(shapes@.subrange(0, shapes@.len() as int) =~= shapes@);
    bounds
}

} // verus!
