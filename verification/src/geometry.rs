use vstd::prelude::*;

verus! {

/// Bit pattern of the number one in IEEE 754 binary32.
pub const ONE_BITS: u32 = 0x3f80_0000;

/// Bit pattern of positive infinity in IEEE 754 binary32: the largest
/// pattern with a clear sign bit that is still a number.
pub const INFINITY_BITS: u32 = 0x7f80_0000;

/// A single-precision number, carried as its IEEE 754 binary32 bit pattern.
///
/// The library stores these values and hands them on. It never does
/// arithmetic on them, and the only question it asks of one is whether it is
/// greater than zero.
#[derive(Clone, Copy, Debug, PartialEq, Eq, Structural, Hash)]
pub struct Scalar {
    pub bits: u32,
}

impl Scalar {
    /// The number is greater than zero: its sign bit is clear, it is not
    /// zero, and it is not a NaN.
    pub open spec fn positive(self) -> bool {
        0 < self.bits <= INFINITY_BITS
    }

    pub fn from_bits(bits: u32) -> (s: Scalar)
        ensures
            s.bits == bits,
    {
        Scalar { bits }
    }

    pub fn zero() -> (s: Scalar)
        ensures
            s.bits == 0,
    {
        Scalar { bits: 0 }
    }

    pub fn one() -> (s: Scalar)
        ensures
            s.bits == ONE_BITS,
    {
        Scalar { bits: ONE_BITS }
    }

    pub fn is_positive(self) -> (p: bool)
        ensures
            p == self.positive(),
    {
        0 < self.bits && self.bits <= INFINITY_BITS
    }
}

#[derive(Clone, Copy, Debug, PartialEq, Eq, Structural, Hash)]
pub struct Point {
    pub x: Scalar,
    pub y: Scalar,
}

#[derive(Clone, Copy, Debug, PartialEq, Eq, Structural, Hash)]
pub struct Size {
    pub width: Scalar,
    pub height: Scalar,
}

#[derive(Clone, Copy, Debug, PartialEq, Eq, Structural, Hash)]
pub struct Rect {
    pub origin: Point,
    pub size: Size,
}

impl Rect {
    /// The rectangle of the given size whose origin is the point (0, 0).
    pub open spec fn spec_at_origin(size: Size) -> Rect {
        Rect { origin: Point { x: Scalar { bits: 0 }, y: Scalar { bits: 0 } }, size }
    }

    #[verifier::when_used_as_spec(spec_at_origin)]
    pub fn at_origin(size: Size) -> (r: Rect)
        ensures
            r == Rect::spec_at_origin(size),
    {
        Rect { origin: Point { x: Scalar::zero(), y: Scalar::zero() }, size }
    }
}

/// A 4 by 4 transform, row by row.
#[derive(Clone, Copy, Debug, PartialEq, Eq, Structural, Hash)]
pub struct Matrix4 {
    pub m11: Scalar, pub m12: Scalar, pub m13: Scalar, pub m14: Scalar,
    pub m21: Scalar, pub m22: Scalar, pub m23: Scalar, pub m24: Scalar,
    pub m31: Scalar, pub m32: Scalar, pub m33: Scalar, pub m34: Scalar,
    pub m41: Scalar, pub m42: Scalar, pub m43: Scalar, pub m44: Scalar,
}

impl Matrix4 {
    /// Ones on the diagonal, zeros elsewhere.
    pub open spec fn spec_identity() -> Matrix4 {
        let o = Scalar { bits: ONE_BITS };
        let z = Scalar { bits: 0 };
        Matrix4 {
            m11: o, m12: z, m13: z, m14: z,
            m21: z, m22: o, m23: z, m24: z,
            m31: z, m32: z, m33: o, m34: z,
            m41: z, m42: z, m43: z, m44: o,
        }
    }

    #[verifier::when_used_as_spec(spec_identity)]
    pub fn identity() -> (m: Matrix4)
        ensures
            m == Matrix4::spec_identity(),
    {
        let o = Scalar::one();
        let z = Scalar::zero();
        Matrix4 {
            m11: o, m12: z, m13: z, m14: z,
            m21: z, m22: o, m23: z, m24: z,
            m31: z, m32: z, m33: o, m34: z,
            m41: z, m42: z, m43: z, m44: o,
        }
    }
}

/// A colour with its opacity, each channel a number from zero to one.
#[derive(Clone, Copy, Debug, PartialEq, Eq, Structural, Hash)]
pub struct ColorF {
    pub r: Scalar,
    pub g: Scalar,
    pub b: Scalar,
    pub a: Scalar,
}

impl ColorF {
    /// The colour paints something: its opacity is greater than zero.
    pub open spec fn visible(self) -> bool {
        self.a.positive()
    }

    pub fn new(r: Scalar, g: Scalar, b: Scalar, a: Scalar) -> (c: ColorF)
        ensures
            c == (ColorF { r, g, b, a }),
    {
        ColorF { r, g, b, a }
    }

    pub fn is_visible(self) -> (v: bool)
        ensures
            v == self.visible(),
    {
        self.a.is_positive()
    }
}

} // verus!
