use rt::vec3::{Scalar, Vec2, Vec3, MILLI_PER_UNIT};

#[test]
fn scalar_counts_thousandths() {
    assert_eq!(MILLI_PER_UNIT, 1000);
    assert_eq!(Scalar::from_milli(1500).milli, 1500);
    assert_eq!(Scalar::from_units(3), Scalar::from_milli(3000));
    assert_eq!(Scalar::from_units(-7), Scalar::from_milli(-7000));
    assert_eq!(Scalar::from_units(i32::MAX).milli, 2147483647000);
    assert_eq!(Scalar::from_units(i32::MIN).milli, -2147483648000);
    assert_eq!(Scalar::zero().milli, 0);
}

#[test]
fn scalar_comparisons() {
    let low = Scalar::from_milli(-5);
    let high = Scalar::from_milli(7);
    assert!(low.lt(&high));
    assert!(!high.lt(&low));
    assert!(!low.lt(&low));
    assert!(low.le(&low));
    assert!(low.le(&high));
    assert!(!high.le(&low));
    assert_eq!(low.min(high), low);
    assert_eq!(high.min(low), low);
    assert_eq!(low.max(high), high);
    assert_eq!(high.max(low), high);
}

#[test]
fn half_rounds_down() {
    assert_eq!(Scalar::from_milli(10_000_000).half(), Scalar::from_milli(5_000_000));
    assert_eq!(Scalar::from_milli(7).half(), Scalar::from_milli(3));
    assert_eq!(Scalar::from_milli(-7).half(), Scalar::from_milli(-4));
    assert_eq!(Scalar::from_milli(-8).half(), Scalar::from_milli(-4));
    assert_eq!(Scalar::from_milli(1).half(), Scalar::from_milli(0));
    assert_eq!(Scalar::from_milli(-1).half(), Scalar::from_milli(-1));
    assert_eq!(Scalar::from_milli(0).half(), Scalar::from_milli(0));
    assert_eq!(Scalar::from_milli(i64::MAX).half().milli, i64::MAX / 2);
    assert_eq!(Scalar::from_milli(i64::MIN).half().milli, i64::MIN / 2);
}

#[test]
fn negation() {
    assert_eq!(Scalar::from_milli(5).neg(), Scalar::from_milli(-5));
    assert_eq!(Scalar::from_milli(-5).neg(), Scalar::from_milli(5));
    assert_eq!(Scalar::from_milli(0).neg(), Scalar::from_milli(0));
    assert_eq!(Scalar::from_milli(i64::MAX).neg().milli, -i64::MAX);
}

#[test]
fn vectors_hold_their_coordinates() {
    let v = Vec3::new(Scalar::from_milli(1), Scalar::from_milli(2), Scalar::from_milli(3));
    assert_eq!(v, Vec3::from_milli(1, 2, 3));
    assert_eq!((v.x.milli, v.y.milli, v.z.milli), (1, 2, 3));
    assert_eq!(Vec3::x_axis(), Vec3::from_milli(1000, 0, 0));
    assert_eq!(Vec3::z_axis(), Vec3::from_milli(0, 0, 1000));
    let uv = Vec2::new(Scalar::from_milli(500), Scalar::from_milli(1000));
    assert_eq!(uv, Vec2::from_milli(500, 1000));
}
