//! Scalars and small vectors.
//!
//! A scalar is carried as the bit pattern of an IEEE-754 binary64 number.
//! Everything here is order-theoretic (comparison, minimum, maximum, absolute
//! value, sign flip, component selection) and therefore exact on bit patterns.
//! Rounded arithmetic is left to the caller.

use vstd::prelude::*;

verus! {

pub type Spectrum = Vector3;

pub type Point3 = Vector3;

pub type Point2 = Vector2;

pub type Vec3 = Vector3;

/// Mask of the sign bit.
pub const SIGN_BIT: u64 = 0x8000_0000_0000_0000;

/// Bits of positive infinity; every larger magnitude is a NaN.
pub const POS_INFINITY: u64 = 0x7ff0_0000_0000_0000;

/// Bits of negative infinity.
pub const NEG_INFINITY: u64 = 0xfff0_0000_0000_0000;

/// Bits of `0.0`.
pub const ZERO: u64 = 0;

/// Bits of `0.5`.
pub const ONE_HALF: u64 = 0x3fe0_0000_0000_0000;

/// The pattern without its sign bit.
pub open spec fn magnitude(a: u64) -> int {
    if a >= SIGN_BIT {
        a - SIGN_BIT
    } else {
        a as int
    }
}

/// Whether the sign bit is set.
pub open spec fn is_negative(a: u64) -> bool {
    a >= SIGN_BIT
}

/// Whether the pattern encodes a NaN.
pub open spec fn is_nan(a: u64) -> bool {
    magnitude(a) > POS_INFINITY
}

/// The position of a number on the number line, as an integer that grows with
/// the encoded value. Both zeros have key 0. For two patterns that are not NaN,
/// the encoded numbers compare exactly as their keys do.
pub open spec fn order_key(a: u64) -> int {
    if is_negative(a) {
        -magnitude(a)
    } else {
        magnitude(a)
    }
}

/// `a < b` on the encoded numbers: false as soon as one side is a NaN.
pub open spec fn less(a: u64, b: u64) -> bool {
    !is_nan(a) && !is_nan(b) && order_key(a) < order_key(b)
}

/// `a <= b` on the encoded numbers: false as soon as one side is a NaN.
pub open spec fn less_eq(a: u64, b: u64) -> bool {
    !is_nan(a) && !is_nan(b) && order_key(a) <= order_key(b)
}

/// `a == b` on the encoded numbers: the zeros are equal, a NaN equals nothing.
pub open spec fn same_number(a: u64, b: u64) -> bool {
    !is_nan(a) && !is_nan(b) && order_key(a) == order_key(b)
}

/// The smaller of two numbers, ignoring a NaN where the other side is a number.
/// Of the two zeros the negative one is the smaller.
pub open spec fn minimum(a: u64, b: u64) -> u64 {
    if is_nan(a) {
        b
    } else if is_nan(b) {
        a
    } else if order_key(b) < order_key(a) {
        b
    } else if order_key(a) < order_key(b) {
        a
    } else if is_negative(a) {
        a
    } else {
        b
    }
}

/// The larger of two numbers, ignoring a NaN where the other side is a number.
/// Of the two zeros the positive one is the larger.
pub open spec fn maximum(a: u64, b: u64) -> u64 {
    if is_nan(a) {
        b
    } else if is_nan(b) {
        a
    } else if order_key(a) < order_key(b) {
        b
    } else if order_key(b) < order_key(a) {
        a
    } else if is_negative(a) {
        b
    } else {
        a
    }
}

/// The pattern with the sign bit cleared.
pub open spec fn absolute(a: u64) -> u64 {
    if a >= SIGN_BIT {
        (a - SIGN_BIT) as u64
    } else {
        a
    }
}

/// The pattern with the sign bit flipped.
pub open spec fn negated(a: u64) -> u64 {
    if a >= SIGN_BIT {
        (a - SIGN_BIT) as u64
    } else {
        (a + SIGN_BIT) as u64
    }
}

pub fn fp_is_nan(a: u64) -> (r: bool)
    ensures
        r == is_nan(a),
{
    fp_abs(a) > POS_INFINITY
}

/// The order key as a machine integer.
pub fn fp_order_key(a: u64) -> (r: i64)
    ensures
        r == order_key(a),
{
    if a >= SIGN_BIT {
        let m: u64 = a - SIGN_BIT;
        -(m as i64)
    } else {
        a as i64
    }
}

pub fn fp_lt(a: u64, b: u64) -> (r: bool)
    ensures
        r == less(a, b),
{
    !fp_is_nan(a) && !fp_is_nan(b) && fp_order_key(a) < fp_order_key(b)
}

pub fn fp_le(a: u64, b: u64) -> (r: bool)
    ensures
        r == less_eq(a, b),
{
    !fp_is_nan(a) && !fp_is_nan(b) && fp_order_key(a) <= fp_order_key(b)
}

pub fn fp_gt(a: u64, b: u64) -> (r: bool)
    ensures
        r == less(b, a),
{
    fp_lt(b, a)
}

pub fn fp_ge(a: u64, b: u64) -> (r: bool)
    ensures
        r == less_eq(b, a),
{
    fp_le(b, a)
}

pub fn fp_eq(a: u64, b: u64) -> (r: bool)
    ensures
        r == same_number(a, b),
{
    !fp_is_nan(a) && !fp_is_nan(b) && fp_order_key(a) == fp_order_key(b)
}

pub fn fp_min(a: u64, b: u64) -> (r: u64)
    ensures
        r == minimum(a, b),
{
    if fp_is_nan(a) {
        b
    } else if fp_is_nan(b) {
        a
    } else {
        let ka: i64 = fp_order_key(a);
        let kb: i64 = fp_order_key(b);
        if kb < ka {
            b
        } else if ka < kb {
            a
        } else if a >= SIGN_BIT {
            a
        } else {
            b
        }
    }
}

pub fn fp_max(a: u64, b: u64) -> (r: u64)
    ensures
        r == maximum(a, b),
{
    if fp_is_nan(a) {
        b
    } else if fp_is_nan(b) {
        a
    } else {
        let ka: i64 = fp_order_key(a);
        let kb: i64 = fp_order_key(b);
        if ka < kb {
            b
        } else if kb < ka {
            a
        } else if a >= SIGN_BIT {
            b
        } else {
            a
        }
    }
}

pub fn fp_abs(a: u64) -> (r: u64)
    ensures
        r == absolute(a),
{
    if a >= SIGN_BIT {
        a - SIGN_BIT
    } else {
        a
    }
}

pub fn fp_neg(a: u64) -> (r: u64)
    ensures
        r == negated(a),
{
    if a >= SIGN_BIT {
        a - SIGN_BIT
    } else {
        a + SIGN_BIT
    }
}

/// The minimum of two numbers is the number whose key is the smaller key, and
/// it does not depend on the order of the arguments.
pub proof fn lemma_minimum_of_numbers(a: u64, b: u64)
    requires
        !is_nan(a),
        !is_nan(b),
    ensures
        !is_nan(minimum(a, b)),
        minimum(a, b) == a || minimum(a, b) == b,
        order_key(minimum(a, b)) <= order_key(a),
        order_key(minimum(a, b)) <= order_key(b),
        minimum(a, b) == minimum(b, a),
{
}

/// The maximum of two numbers is the number whose key is the larger key, and
/// it does not depend on the order of the arguments.
pub proof fn lemma_maximum_of_numbers(a: u64, b: u64)
    requires
        !is_nan(a),
        !is_nan(b),
    ensures
        !is_nan(maximum(a, b)),
        maximum(a, b) == a || maximum(a, b) == b,
        order_key(maximum(a, b)) >= order_key(a),
        order_key(maximum(a, b)) >= order_key(b),
        maximum(a, b) == maximum(b, a),
{
}

/// Taking minima of numbers is associative.
pub proof fn lemma_minimum_associative(a: u64, b: u64, c: u64)
    requires
        !is_nan(a),
        !is_nan(b),
        !is_nan(c),
    ensures
        minimum(minimum(a, b), c) == minimum(a, minimum(b, c)),
{
}

/// Taking maxima of numbers is associative.
pub proof fn lemma_maximum_associative(a: u64, b: u64, c: u64)
    requires
        !is_nan(a),
        !is_nan(b),
        !is_nan(c),
    ensures
        maximum(maximum(a, b), c) == maximum(a, maximum(b, c)),
{
}

/// Three scalars.
#[derive(Debug, Clone, Copy, PartialEq, Eq, Structural)]
pub struct Vector3 {
    pub x: u64,
    pub y: u64,
    pub z: u64,
}

/// Two scalars.
#[derive(Debug, Clone, Copy, PartialEq, Eq, Structural)]
pub struct Vector2 {
    pub x: u64,
    pub y: u64,
}

impl Default for Vector3 {
    fn default() -> (r: Self)
        ensures
            r == (Vector3 { x: ZERO, y: ZERO, z: ZERO }),
    {
        Vector3 { x: ZERO, y: ZERO, z: ZERO }
    }
}

impl Default for Vector2 {
    fn default() -> (r: Self)
        ensures
            r == (Vector2 { x: ZERO, y: ZERO }),
    {
        Vector2 { x: ZERO, y: ZERO }
    }
}

impl Vector3 {
    /// The component on `axis`: 0 is x, 1 is y, anything else is z.
    pub open spec fn component(self, axis: int) -> u64 {
        if axis == 0 {
            self.x
        } else if axis == 1 {
            self.y
        } else {
            self.z
        }
    }

    /// No component is a NaN.
    pub open spec fn is_numeric(self) -> bool {
        !is_nan(self.x) && !is_nan(self.y) && !is_nan(self.z)
    }

    /// The axis of the largest component: x where x is strictly larger than
    /// both others, y where x is not larger than y and y is strictly larger
    /// than z, and z in every other case.
    pub open spec fn dominant_axis(self) -> int {
        if less(self.y, self.x) {
            if less(self.z, self.x) {
                0
            } else {
                2
            }
        } else if less(self.z, self.y) {
            1
        } else {
            2
        }
    }

    /// The component-wise absolute value.
    pub open spec fn abs_spec(self) -> Vector3 {
        Vector3 { x: absolute(self.x), y: absolute(self.y), z: absolute(self.z) }
    }

    /// The component-wise sign flip.
    pub open spec fn flipped(self) -> Vector3 {
        Vector3 { x: negated(self.x), y: negated(self.y), z: negated(self.z) }
    }

    pub fn from(scalar: u64) -> (r: Vector3)
        ensures
            r == (Vector3 { x: scalar, y: scalar, z: scalar }),
    {
        Vector3 { x: scalar, y: scalar, z: scalar }
    }

    pub fn new(scalar_x: u64, scalar_y: u64, scalar_z: u64) -> (r: Vector3)
        ensures
            r == (Vector3 { x: scalar_x, y: scalar_y, z: scalar_z }),
    {
        Vector3 { x: scalar_x, y: scalar_y, z: scalar_z }
    }

    /// Per component, `self` where it is at least `rhs`, and `rhs` otherwise
    /// (so also wherever one of the two is a NaN).
    pub fn max_component_wise(&self, rhs: Vector3) -> (r: Vector3)
        ensures
            r.x == (if less_eq(rhs.x, self.x) { self.x } else { rhs.x }),
            r.y == (if less_eq(rhs.y, self.y) { self.y } else { rhs.y }),
            r.z == (if less_eq(rhs.z, self.z) { self.z } else { rhs.z }),
    {
        Vector3 {
            x: if fp_ge(self.x, rhs.x) { self.x } else { rhs.x },
            y: if fp_ge(self.y, rhs.y) { self.y } else { rhs.y },
            z: if fp_ge(self.z, rhs.z) { self.z } else { rhs.z },
        }
    }

    /// The axis of the largest component: 0, 1 or 2 for x, y or z. Where the
    /// largest value occurs twice, z wins over x and y, and y over x.
    pub fn max_dimension(&self) -> (r: i32)
        ensures
            r == self.dominant_axis(),
            0 <= r < 3,
            self.is_numeric() ==> {
                &&& order_key(self.component(r as int)) >= order_key(self.x)
                &&& order_key(self.component(r as int)) >= order_key(self.y)
                &&& order_key(self.component(r as int)) >= order_key(self.z)
            },
    {
        if fp_gt(self.x, self.y) {
            if fp_gt(self.x, self.z) {
                0
            } else {
                2
            }
        } else if fp_gt(self.y, self.z) {
            1
        } else {
            2
        }
    }

    /// The vector whose components are those of `self` on the axes `x`, `y`, `z`.
    pub fn permute(&self, x: i32, y: i32, z: i32) -> (r: Vector3)
        requires
            0 <= x < 3,
            0 <= y < 3,
            0 <= z < 3,
        ensures
            r.x == self.component(x as int),
            r.y == self.component(y as int),
            r.z == self.component(z as int),
    {
        Vector3 { x: self.pick(x), y: self.pick(y), z: self.pick(z) }
    }

    fn pick(&self, axis: i32) -> (r: u64)
        ensures
            r == self.component(axis as int),
    {
        if axis == 0 {
            self.x
        } else if axis == 1 {
            self.y
        } else {
            self.z
        }
    }

    /// Turns the vector around where `alignment`, its dot product with the
    /// reference direction, is below zero; leaves it as it is otherwise.
    pub fn face_outward_normal(&mut self, alignment: u64)
        ensures
            *final(self) == (if less(alignment, ZERO) { old(self).flipped() } else { *old(self) }),
    {
        if fp_lt(alignment, ZERO) {
            self.x = fp_neg(self.x);
            self.y = fp_neg(self.y);
            self.z = fp_neg(self.z);
        }
    }

    pub fn abs(&self) -> (r: Vector3)
        ensures
            r == self.abs_spec(),
    {
        Vector3 { x: fp_abs(self.x), y: fp_abs(self.y), z: fp_abs(self.z) }
    }
}

impl Vector2 {
    pub fn new(scalar_x: u64, scalar_y: u64) -> (r: Vector2)
        ensures
            r == (Vector2 { x: scalar_x, y: scalar_y }),
    {
        Vector2 { x: scalar_x, y: scalar_y }
    }

    /// Per component, `self` where it is at least `rhs`, and `rhs` otherwise.
    pub fn max_component_wise(&self, rhs: Vector2) -> (r: Vector2)
        ensures
            r.x == (if less_eq(rhs.x, self.x) { self.x } else { rhs.x }),
            r.y == (if less_eq(rhs.y, self.y) { self.y } else { rhs.y }),
    {
        Vector2 {
            x: if fp_ge(self.x, rhs.x) { self.x } else { rhs.x },
            y: if fp_ge(self.y, rhs.y) { self.y } else { rhs.y },
        }
    }
}

} // verus!
