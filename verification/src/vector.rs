//! Three-dimensional vectors of fixed-point scalars.

use vstd::prelude::*;
use crate::fixed::{
    LIMIT, SCALE, floor_sqrt, is_floor_sqrt, isqrt, lemma_floor_sqrt_exists, lemma_floor_sqrt_le,
    lemma_fraction_bound, lemma_product_bound, lemma_root_dominates, lemma_square_nonnegative,
    magnitude, mul_div, trunc_div,
};

verus! {

/// How far the squared length of a vector may be from 1.0 for the vector to
/// count as a unit vector: what rounding three components to millionths can
/// cost, in raw squared units.
pub const UNIT_SLACK: i64 = 4_000_000;

/// A vector, or a point, with fixed-point components.
#[derive(Clone, Copy, Debug, PartialEq, Eq, Structural)]
pub struct Vec3 {
    pub x: i64,
    pub y: i64,
    pub z: i64,
}

impl Vec3 {
    /// Every component has a magnitude of at most `bound`.
    pub open spec fn within(self, bound: int) -> bool {
        magnitude(self.x as int) <= bound && magnitude(self.y as int) <= bound && magnitude(
            self.z as int,
        ) <= bound
    }

    /// The largest magnitude among the components.
    pub open spec fn reach(self) -> int {
        let x = magnitude(self.x as int);
        let y = magnitude(self.y as int);
        let z = magnitude(self.z as int);
        if x >= y && x >= z {
            x
        } else if y >= z {
            y
        } else {
            z
        }
    }

    /// The component-wise sum.
    pub open spec fn spec_plus(self, other: Vec3) -> Vec3 {
        Vec3 {
            x: (self.x + other.x) as i64,
            y: (self.y + other.y) as i64,
            z: (self.z + other.z) as i64,
        }
    }

    /// The component-wise difference.
    pub open spec fn spec_minus(self, other: Vec3) -> Vec3 {
        Vec3 {
            x: (self.x - other.x) as i64,
            y: (self.y - other.y) as i64,
            z: (self.z - other.z) as i64,
        }
    }

    /// Each component times `num / den`, rounded toward zero.
    pub open spec fn spec_ratio(self, num: int, den: int) -> Vec3
        recommends
            den > 0,
    {
        Vec3 {
            x: trunc_div(self.x * num, den) as i64,
            y: trunc_div(self.y * num, den) as i64,
            z: trunc_div(self.z * num, den) as i64,
        }
    }

    /// The vector times the fixed-point scalar `k`.
    pub open spec fn spec_scaled(self, k: int) -> Vec3 {
        self.spec_ratio(k, SCALE as int)
    }

    /// The sum of the products of the components, in raw squared units.
    pub open spec fn raw_dot(self, other: Vec3) -> int {
        self.x * other.x + self.y * other.y + self.z * other.z
    }

    /// The dot product, as a fixed-point scalar.
    pub open spec fn spec_dot(self, other: Vec3) -> int {
        trunc_div(self.raw_dot(other), SCALE as int)
    }

    /// The squared length, in raw squared units.
    pub open spec fn norm_sq(self) -> int {
        self.raw_dot(self)
    }

    /// The length, rounded down to a millionth.
    pub open spec fn spec_length(self) -> int {
        floor_sqrt(self.norm_sq())
    }

    /// The vector scaled to length 1.0; the zero vector stays zero.
    pub open spec fn spec_normalized(self) -> Vec3 {
        if self.spec_length() == 0 {
            Vec3 { x: 0, y: 0, z: 0 }
        } else {
            self.spec_ratio(SCALE as int, self.spec_length())
        }
    }

    /// The squared length is 1.0 up to `UNIT_SLACK`.
    pub open spec fn is_unit(self) -> bool {
        SCALE * SCALE - UNIT_SLACK <= self.norm_sq() <= SCALE * SCALE + UNIT_SLACK
    }

    pub fn new(x: i64, y: i64, z: i64) -> (v: Vec3)
        ensures
            v == (Vec3 { x, y, z }),
    {
        Vec3 { x, y, z }
    }

    pub fn zero() -> (v: Vec3)
        ensures
            v == (Vec3 { x: 0, y: 0, z: 0 }),
    {
        Vec3 { x: 0, y: 0, z: 0 }
    }

    /// Tells whether every component lies within `bound` of zero.
    pub fn is_within(&self, bound: i64) -> (b: bool)
        requires
            bound >= 0,
        ensures
            b == self.within(bound as int),
    {
        -bound <= self.x && self.x <= bound && -bound <= self.y && self.y <= bound && -bound
            <= self.z && self.z <= bound
    }

    pub fn plus(self, other: Vec3) -> (v: Vec3)
        requires
            i64::MIN <= self.x + other.x <= i64::MAX,
            i64::MIN <= self.y + other.y <= i64::MAX,
            i64::MIN <= self.z + other.z <= i64::MAX,
        ensures
            v == self.spec_plus(other),
            v.x == self.x + other.x,
            v.y == self.y + other.y,
            v.z == self.z + other.z,
    {
        Vec3 { x: self.x + other.x, y: self.y + other.y, z: self.z + other.z }
    }

    pub fn minus(self, other: Vec3) -> (v: Vec3)
        requires
            i64::MIN <= self.x - other.x <= i64::MAX,
            i64::MIN <= self.y - other.y <= i64::MAX,
            i64::MIN <= self.z - other.z <= i64::MAX,
        ensures
            v == self.spec_minus(other),
            v.x == self.x - other.x,
            v.y == self.y - other.y,
            v.z == self.z - other.z,
    {
        Vec3 { x: self.x - other.x, y: self.y - other.y, z: self.z - other.z }
    }

    /// Each component times `num / den`, for a fraction of magnitude at most
    /// one, or any ratio whose results stay in range.
    pub fn ratio(self, num: i64, den: i64) -> (v: Vec3)
        requires
            den > 0,
            magnitude(trunc_div(self.x * num, den as int)) <= i64::MAX,
            magnitude(trunc_div(self.y * num, den as int)) <= i64::MAX,
            magnitude(trunc_div(self.z * num, den as int)) <= i64::MAX,
        ensures
            v == self.spec_ratio(num as int, den as int),
            v.x == trunc_div(self.x * num, den as int),
            v.y == trunc_div(self.y * num, den as int),
            v.z == trunc_div(self.z * num, den as int),
    {
        Vec3 {
            x: mul_div(self.x, num, den),
            y: mul_div(self.y, num, den),
            z: mul_div(self.z, num, den),
        }
    }

    /// The vector times the fixed-point scalar `k`.
    pub fn scaled(self, k: i64) -> (v: Vec3)
        requires
            magnitude(trunc_div(self.x * k, SCALE as int)) <= i64::MAX,
            magnitude(trunc_div(self.y * k, SCALE as int)) <= i64::MAX,
            magnitude(trunc_div(self.z * k, SCALE as int)) <= i64::MAX,
        ensures
            v == self.spec_scaled(k as int),
            v.x == trunc_div(self.x * k, SCALE as int),
            v.y == trunc_div(self.y * k, SCALE as int),
            v.z == trunc_div(self.z * k, SCALE as int),
    {
        self.ratio(k, SCALE)
    }

    /// The dot product, as a fixed-point scalar.
    pub fn dot(self, other: Vec3) -> (d: i64)
        requires
            self.within(LIMIT as int),
            other.within(LIMIT as int),
            magnitude(self.spec_dot(other)) <= i64::MAX,
        ensures
            d == self.spec_dot(other),
    {
        proof {
            lemma_product_bound(self.x as int, other.x as int, LIMIT as int, LIMIT as int);
            lemma_product_bound(self.y as int, other.y as int, LIMIT as int, LIMIT as int);
            lemma_product_bound(self.z as int, other.z as int, LIMIT as int, LIMIT as int);
            assert(LIMIT * LIMIT == 0x100_0000_0000_0000_0000_0000_0000_0000int)
                by (nonlinear_arith);
        }
        let p: i128 = (self.x as i128) * (other.x as i128) + (self.y as i128) * (other.y as i128)
            + (self.z as i128) * (other.z as i128);
        let q: i128 = p / (SCALE as i128);
        q as i64
    }

    /// The length, rounded down to a millionth.
    pub fn length(self) -> (len: i64)
        requires
            self.within(LIMIT as int),
        ensures
            len == self.spec_length(),
            is_floor_sqrt(self.norm_sq(), len as int),
            0 <= len <= 2 * LIMIT,
            magnitude(self.x as int) <= len,
            magnitude(self.y as int) <= len,
            magnitude(self.z as int) <= len,
    {
        proof {
            lemma_product_bound(self.x as int, self.x as int, LIMIT as int, LIMIT as int);
            lemma_product_bound(self.y as int, self.y as int, LIMIT as int, LIMIT as int);
            lemma_product_bound(self.z as int, self.z as int, LIMIT as int, LIMIT as int);
            assert(LIMIT * LIMIT == 0x100_0000_0000_0000_0000_0000_0000_0000int)
                by (nonlinear_arith);
            lemma_square_nonnegative(self.x as int);
            lemma_square_nonnegative(self.y as int);
            lemma_square_nonnegative(self.z as int);
        }
        let p: i128 = (self.x as i128) * (self.x as i128) + (self.y as i128) * (self.y as i128)
            + (self.z as i128) * (self.z as i128);
        let r: u64 = isqrt(p as u128);
        proof {
            assert((2 * LIMIT) * (2 * LIMIT) == 4 * (LIMIT * LIMIT)) by (nonlinear_arith);
            lemma_floor_sqrt_le(self.norm_sq(), r as int, 2 * LIMIT);
            lemma_length_dominates(self, r as int);
        }
        r as i64
    }

    /// The vector scaled to length 1.0; the zero vector stays zero.
    pub fn normalized(self) -> (v: Vec3)
        requires
            self.within(LIMIT as int),
        ensures
            v == self.spec_normalized(),
            v.within(SCALE as int),
    {
        let len: i64 = self.length();
        if len == 0 {
            Vec3 { x: 0, y: 0, z: 0 }
        } else {
            proof {
                lemma_fraction_bound(self.x as int, len as int, SCALE as int);
                lemma_fraction_bound(self.y as int, len as int, SCALE as int);
                lemma_fraction_bound(self.z as int, len as int, SCALE as int);
            }
            self.ratio(SCALE, len)
        }
    }
}

/// No component of a vector is longer than the vector.
pub proof fn lemma_length_dominates(v: Vec3, len: int)
    requires
        is_floor_sqrt(v.norm_sq(), len),
    ensures
        magnitude(v.x as int) <= len,
        magnitude(v.y as int) <= len,
        magnitude(v.z as int) <= len,
{
    lemma_square_nonnegative(v.x as int);
    lemma_square_nonnegative(v.y as int);
    lemma_square_nonnegative(v.z as int);
    lemma_root_dominates(v.x as int, v.norm_sq(), len);
    lemma_root_dominates(v.y as int, v.norm_sq(), len);
    lemma_root_dominates(v.z as int, v.norm_sq(), len);
}

/// A vector is within a bound just when its largest component is.
pub proof fn lemma_within_reach(v: Vec3, bound: int)
    ensures
        v.within(bound) <==> v.reach() <= bound,
{
}

/// A vector whose components are within `cap` is no longer than twice `cap`.
pub proof fn lemma_speed_bound(v: Vec3, cap: int)
    requires
        cap >= 0,
        v.within(cap),
    ensures
        0 <= v.spec_length() <= 2 * cap,
        is_floor_sqrt(v.norm_sq(), v.spec_length()),
{
    lemma_product_bound(v.x as int, v.x as int, cap, cap);
    lemma_product_bound(v.y as int, v.y as int, cap, cap);
    lemma_product_bound(v.z as int, v.z as int, cap, cap);
    lemma_square_nonnegative(v.x as int);
    lemma_square_nonnegative(v.y as int);
    lemma_square_nonnegative(v.z as int);
    lemma_floor_sqrt_exists(v.norm_sq());
    assert((2 * cap) * (2 * cap) == 4 * (cap * cap)) by (nonlinear_arith);
    lemma_floor_sqrt_le(v.norm_sq(), v.spec_length(), 2 * cap);
}

/// No component of a unit vector is longer than two.
pub proof fn lemma_unit_components(n: Vec3)
    requires
        n.is_unit(),
    ensures
        n.within(2 * SCALE),
        n.within(LIMIT as int),
{
    lemma_square_nonnegative(n.x as int);
    lemma_square_nonnegative(n.y as int);
    lemma_square_nonnegative(n.z as int);
    let top = SCALE * SCALE + UNIT_SLACK;
    assert(is_floor_sqrt(top, 1_000_001)) by (nonlinear_arith)
        requires
            top == 1_000_004_000_000,
    ;
    lemma_root_dominates(n.x as int, top, 1_000_001);
    lemma_root_dominates(n.y as int, top, 1_000_001);
    lemma_root_dominates(n.z as int, top, 1_000_001);
}

} // verus!
