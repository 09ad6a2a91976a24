use vstd::prelude::*;

verus! {

/// Bit pattern of the single-precision value `1.0`.
pub const ONE_BITS: u32 = 0x3f80_0000;

/// Bit pattern of the canonical quiet single-precision NaN.
pub const NAN_BITS: u32 = 0x7fc0_0000;

/// A point or direction in 3D space.
///
/// Each coordinate is kept as the IEEE-754 bit pattern of a single-precision
/// float, so that equality is bit-exact: two NaNs with the same pattern are
/// equal, `0.0` and `-0.0` are not. This is what lets a `Vec3` serve as a key
/// when vertices of a mesh are matched by position.
#[derive(Debug, Clone, Copy, PartialEq, Eq, Structural, Hash)]
pub struct Vec3 {
    pub x: u32,
    pub y: u32,
    pub z: u32,
}

impl Vec3 {
    /// Builds a vector from the bit patterns of its three coordinates.
    pub fn new(x: u32, y: u32, z: u32) -> (r: Vec3)
        ensures
            r.x == x,
            r.y == y,
            r.z == z,
    {
        Vec3 { x, y, z }
    }

    /// The all-NaN vector, which stands for "no result".
    pub fn nan() -> (r: Vec3)
        ensures
            r.x == NAN_BITS,
            r.y == NAN_BITS,
            r.z == NAN_BITS,
    {
        Vec3 { x: NAN_BITS, y: NAN_BITS, z: NAN_BITS }
    }

    /// The origin: all three coordinates are positive zero.
    pub fn zero() -> (r: Vec3)
        ensures
            r.x == 0,
            r.y == 0,
            r.z == 0,
    {
        Vec3 { x: 0, y: 0, z: 0 }
    }
}

/// A segment with ordered endpoints: `(a, b)` and `(b, a)` are different lines.
#[derive(Debug, Clone, Copy, PartialEq, Eq, Structural, Hash)]
pub struct Line3 {
    pub a: Vec3,
    pub b: Vec3,
}

impl Line3 {
    pub fn new(a: Vec3, b: Vec3) -> (r: Line3)
        ensures
            r.a == a,
            r.b == b,
    {
        Line3 { a, b }
    }
}

/// A triangle with ordered vertices; the order fixes the sign of its normal.
#[derive(Debug, Clone, Copy, PartialEq, Eq, Structural, Hash)]
pub struct Triangle3 {
    pub a: Vec3,
    pub b: Vec3,
    pub c: Vec3,
}

impl Triangle3 {
    pub fn new(a: Vec3, b: Vec3, c: Vec3) -> (r: Triangle3)
        ensures
            r.a == a,
            r.b == b,
            r.c == c,
    {
        Triangle3 { a, b, c }
    }
}

/// A row-major 4x4 affine transform; entries are single-precision bit patterns.
#[derive(Debug, Clone, Copy)]
pub struct Mat4 {
    pub m: [[u32; 4]; 4],
}

/// The bit pattern of the identity matrix's entry at row `i`, column `j`.
pub open spec fn identity_entry(i: int, j: int) -> u32 {
    if i == j {
        ONE_BITS
    } else {
        0
    }
}

impl Mat4 {
    pub fn identity() -> (r: Mat4)
        ensures
            forall|i: int, j: int|
                0 <= i < 4 && 0 <= j < 4 ==> #[trigger] r.m[i][j] == identity_entry(i, j),
    {
        let r = Mat4 {
            m: [
                [ONE_BITS, 0, 0, 0],
                [0, ONE_BITS, 0, 0],
                [0, 0, ONE_BITS, 0],
                [0, 0, 0, ONE_BITS],
            ],
        };
        assert(forall|i: int, j: int|
            0 <= i < 4 && 0 <= j < 4 ==> #[trigger] r.m[i][j] == identity_entry(i, j));
        r
    }
}

} // verus!
