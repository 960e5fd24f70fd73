use rt::bvh::{range_around, AxisAlignedBoundingBox};
use rt::vec3::{Scalar, Vec3};
use std::ops::Range;

fn range(start: i64, end: i64) -> Range<Scalar> {
    Scalar::from_milli(start)..Scalar::from_milli(end)
}

fn cube(low: i64, high: i64) -> AxisAlignedBoundingBox {
    AxisAlignedBoundingBox::new(range(low, high), range(low, high), range(low, high))
}

#[test]
fn box_keeps_the_ranges_given() {
    let made = AxisAlignedBoundingBox::new(range(1, 2), range(3, 4), range(5, 6));
    assert_eq!(made.x, range(1, 2));
    assert_eq!(made.y, range(3, 4));
    assert_eq!(made.z, range(5, 6));
}

#[test]
fn box_from_points_orders_each_axis() {
    let made = AxisAlignedBoundingBox::new_from_points(
        Vec3::from_milli(1000, -2000, 3000),
        Vec3::from_milli(-1000, 5000, 3000),
    );
    assert_eq!(made, AxisAlignedBoundingBox::new(range(-1000, 1000), range(-2000, 5000), range(3000, 3000)));
    let swapped = AxisAlignedBoundingBox::new_from_points(
        Vec3::from_milli(-1000, 5000, 3000),
        Vec3::from_milli(1000, -2000, 3000),
    );
    assert_eq!(made, swapped);
}

#[test]
fn range_around_takes_the_lowest_start_and_the_highest_end() {
    assert_eq!(range_around(range(0, 10), range(5, 20)), range(0, 20));
    assert_eq!(range_around(range(5, 20), range(0, 10)), range(0, 20));
    assert_eq!(range_around(range(0, 100), range(10, 20)), range(0, 100));
    assert_eq!(range_around(range(-5, -1), range(1, 5)), range(-5, 5));
    assert_eq!(range_around(range(3, 3), range(3, 3)), range(3, 3));
}

#[test]
fn around_holds_both_boxes() {
    let a = AxisAlignedBoundingBox::new(range(0, 10), range(0, 10), range(0, 10));
    let b = AxisAlignedBoundingBox::new(range(5, 20), range(-5, 5), range(2, 3));
    let both = AxisAlignedBoundingBox::around(&a, &b);
    assert_eq!(both, AxisAlignedBoundingBox::new(range(0, 20), range(-5, 10), range(0, 10)));
    assert_eq!(AxisAlignedBoundingBox::around(&b, &a), both);
    assert_eq!(AxisAlignedBoundingBox::around(&a, &a), a);
}

#[test]
fn around_the_box_of_nothing_is_the_other_box() {
    let nothing = AxisAlignedBoundingBox::empty();
    for b in [cube(0, 0), cube(-5, 7), cube(i64::MIN, i64::MAX), cube(3, 1)] {
        assert_eq!(AxisAlignedBoundingBox::around(&nothing, &b), b);
        assert_eq!(AxisAlignedBoundingBox::around(&b, &nothing), b);
    }
    assert_eq!(AxisAlignedBoundingBox::around(&nothing, &nothing), nothing);
}

#[test]
fn zero_box_is_the_origin() {
    assert_eq!(AxisAlignedBoundingBox::zero(), cube(0, 0));
    // Unlike the box of nothing, the origin counts when it is put around with another box.
    assert_eq!(AxisAlignedBoundingBox::around(&AxisAlignedBoundingBox::zero(), &cube(5, 7)), cube(0, 7));
}

#[test]
fn axes_come_in_the_order_x_y_z() {
    let made = AxisAlignedBoundingBox::new(range(1, 2), range(3, 4), range(5, 6));
    let axes = made.axes();
    assert_eq!(axes, vec![&range(1, 2), &range(3, 4), &range(5, 6)]);
}

#[test]
fn clone_is_equal() {
    let made = AxisAlignedBoundingBox::new(range(1, 2), range(3, 4), range(5, 6));
    assert_eq!(made.clone(), made);
}

use rt::bvh::BVH;
use rt::hittable::{Shape, Sphere, Triangle};
use rt::material::{Dielectric, Material};
use std::sync::Arc;

#[test]
fn node_holds_two_shapes_and_the_box_around_both() {
    let glass = Arc::new(Material::Dielectric(Dielectric::new(Scalar::from_milli(1500))));
    let left = Shape::Sphere(Sphere::new(Vec3::from_milli(0, 0, 0), Scalar::from_milli(1000), glass.clone()));
    let right = Shape::Triangle(Triangle::new(
        Vec3::from_milli(0, 0, 5000),
        Vec3::from_milli(3000, 0, 5000),
        Vec3::from_milli(0, 3000, 5000),
        glass.clone(),
    ));
    let node = BVH::new(left, right);
    assert!(matches!(node.left(), Shape::Sphere(_)));
    assert!(matches!(node.right(), Shape::Triangle(_)));
    assert_eq!(
        node.bounding_box(),
        &AxisAlignedBoundingBox::new(range(-1000, 3000), range(-1000, 3000), range(-1000, 5000))
    );
    assert_eq!(
        node.bounding_box(),
        &AxisAlignedBoundingBox::around(&node.left().aabb(), &node.right().aabb())
    );
}
