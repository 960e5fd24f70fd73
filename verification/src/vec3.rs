//! Exact decimal scalars and the small vectors built from them.

use vstd::prelude::*;

verus! {

/// The number of `Scalar` steps in one unit.
pub const MILLI_PER_UNIT: i64 = 1000;

/// A decimal number with three fractional digits, held as a whole count of
/// thousandths: `Scalar { milli: 1500 }` is 1.5.
#[derive(Clone, Copy, Debug, PartialEq, Eq, Structural)]
pub struct Scalar {
    pub milli: i64,
}

impl View for Scalar {
    type V = int;

    /// The value in thousandths.
    open spec fn view(&self) -> int {
        self.milli as int
    }
}

impl Scalar {
    /// The scalar that is `milli` thousandths.
    pub fn from_milli(milli: i64) -> (s: Scalar)
        ensures
            s@ == milli,
    {
        Scalar { milli }
    }

    /// The scalar that is `units` whole units.
    pub fn from_units(units: i32) -> (s: Scalar)
        ensures
            s@ == units * 1000,
    {
        let wide: i64 = units as i64;
        Scalar { milli: wide * 1000 }
    }

    /// Zero.
    pub fn zero() -> (s: Scalar)
        ensures
            s@ == 0,
    {
        Scalar { milli: 0 }
    }

    /// Whether `self` is strictly below `other`.
    pub fn lt(&self, other: &Scalar) -> (b: bool)
        ensures
            b == (self@ < other@),
    {
        self.milli < other.milli
    }

    /// Whether `self` is at most `other`.
    pub fn le(&self, other: &Scalar) -> (b: bool)
        ensures
            b == (self@ <= other@),
    {
        self.milli <= other.milli
    }

    /// The smaller of the two.
    pub fn min(self, other: Scalar) -> (m: Scalar)
        ensures
            m@ == spec_min(self@, other@),
    {
        if self.milli <= other.milli {
            self
        } else {
            other
        }
    }

    /// The larger of the two.
    pub fn max(self, other: Scalar) -> (m: Scalar)
        ensures
            m@ == spec_max(self@, other@),
    {
        if self.milli >= other.milli {
            self
        } else {
            other
        }
    }

    /// Half of `self`, rounded down to a whole thousandth.
    pub fn half(self) -> (h: Scalar)
        ensures
            h@ == self@ / 2,
    {
        let q: i64 = self.milli / 2;
        let r: i64 = self.milli % 2;
        if r < 0 {
            Scalar { milli: q - 1 }
        } else {
            Scalar { milli: q }
        }
    }

    /// The negation of `self`.
    pub fn neg(self) -> (n: Scalar)
        requires
            self@ > i64::MIN,
        ensures
            n@ == -self@,
    {
        Scalar { milli: -self.milli }
    }
}

/// The smaller of two integers.
pub open spec fn spec_min(a: int, b: int) -> int {
    if a <= b {
        a
    } else {
        b
    }
}

/// The larger of two integers.
pub open spec fn spec_max(a: int, b: int) -> int {
    if a >= b {
        a
    } else {
        b
    }
}

/// A point or direction in space, each coordinate an exact decimal.
#[derive(Clone, Copy, Debug, PartialEq, Eq, Structural)]
pub struct Vec3 {
    pub x: Scalar,
    pub y: Scalar,
    pub z: Scalar,
}

/// A position in space.
pub type Point3 = Vec3;

impl Vec3 {
    /// The vector with the given coordinates.
    pub fn new(x: Scalar, y: Scalar, z: Scalar) -> (v: Vec3)
        ensures
            v == (Vec3 { x, y, z }),
    {
        Vec3 { x, y, z }
    }

    /// The vector whose coordinates are the given counts of thousandths.
    pub fn from_milli(x: i64, y: i64, z: i64) -> (v: Vec3)
        ensures
            v == Vec3::at(x as int, y as int, z as int),
    {
        Vec3 { x: Scalar { milli: x }, y: Scalar { milli: y }, z: Scalar { milli: z } }
    }

    /// The vector at the given thousandths.
    pub open spec fn at(x: int, y: int, z: int) -> Vec3 {
        Vec3 { x: Scalar { milli: x as i64 }, y: Scalar { milli: y as i64 }, z: Scalar { milli: z as i64 } }
    }

    /// The unit vector along the first axis.
    pub fn x_axis() -> (v: Vec3)
        ensures
            v == Vec3::at(1000, 0, 0),
    {
        Vec3::from_milli(1000, 0, 0)
    }

    /// The unit vector along the third axis.
    pub fn z_axis() -> (v: Vec3)
        ensures
            v == Vec3::at(0, 0, 1000),
    {
        Vec3::from_milli(0, 0, 1000)
    }
}

/// A texture coordinate pair.
#[derive(Clone, Copy, Debug, PartialEq, Eq, Structural)]
pub struct Vec2 {
    pub x: Scalar,
    pub y: Scalar,
}

impl Vec2 {
    /// The pair with the given coordinates.
    pub fn new(x: Scalar, y: Scalar) -> (v: Vec2)
        ensures
            v == (Vec2 { x, y }),
    {
        Vec2 { x, y }
    }

    /// The pair whose coordinates are the given counts of thousandths.
    pub fn from_milli(x: i64, y: i64) -> (v: Vec2)
        ensures
            v == (Vec2 { x: Scalar { milli: x }, y: Scalar { milli: y } }),
    {
        Vec2 { x: Scalar { milli: x }, y: Scalar { milli: y } }
    }
}

} // verus!
