//! Points and directions of the plane.

use vstd::prelude::*;

verus! {

/// A vector of the mathematical plane: what every exec vector stands for.
pub struct Vector {
    pub x: int,
    pub y: int,
}

impl Vector {
    pub open spec fn zero() -> Vector {
        Vector { x: 0, y: 0 }
    }

    pub open spec fn is_zero(self) -> bool {
        self.x == 0 && self.y == 0
    }

    pub open spec fn plus(self, other: Vector) -> Vector {
        Vector { x: self.x + other.x, y: self.y + other.y }
    }

    pub open spec fn minus(self, other: Vector) -> Vector {
        Vector { x: self.x - other.x, y: self.y - other.y }
    }

    pub open spec fn scaled(self, k: int) -> Vector {
        Vector { x: k * self.x, y: k * self.y }
    }

    /// The square of the length.
    pub open spec fn norm_sq(self) -> int {
        self.x * self.x + self.y * self.y
    }

    /// The component of `self x other` along the plane's normal.
    pub open spec fn cross(self, other: Vector) -> int {
        self.x * other.y - self.y * other.x
    }

    /// The image under the reflection that swaps left and right.
    pub open spec fn mirrored(self) -> Vector {
        Vector { x: -self.x, y: self.y }
    }
}

/// A position, or a facing direction, in fixed-point units.
#[derive(Clone, Copy, Debug, PartialEq, Eq, Structural)]
pub struct Vec2 {
    pub x: i32,
    pub y: i32,
}

impl View for Vec2 {
    type V = Vector;

    open spec fn view(&self) -> Vector {
        Vector { x: self.x as int, y: self.y as int }
    }
}

/// Whether two points lie no further apart than `radius`. No point is within a
/// negative radius of another.
pub open spec fn within(a: Vector, b: Vector, radius: int) -> bool {
    radius >= 0 && a.minus(b).norm_sq() <= radius * radius
}

impl Vec2 {
    pub fn new(x: i32, y: i32) -> (v: Vec2)
        ensures
            v.x == x,
            v.y == y,
    {
        Vec2 { x, y }
    }

    /// The square of the distance between two points.
    pub fn distance_squared(&self, other: &Vec2) -> (d: i128)
        ensures
            d == self@.minus(other@).norm_sq(),
    {
        let dx: i128 = self.x as i128 - other.x as i128;
        let dy: i128 = self.y as i128 - other.y as i128;
        assert(dx * dx <= 0x1_0000_0000 * 0x1_0000_0000) by (nonlinear_arith)
            requires
                -0x1_0000_0000 <= dx <= 0x1_0000_0000,
        ;
        assert(dy * dy <= 0x1_0000_0000 * 0x1_0000_0000) by (nonlinear_arith)
            requires
                -0x1_0000_0000 <= dy <= 0x1_0000_0000,
        ;
        assert(0 <= dx * dx) by (nonlinear_arith);
        assert(0 <= dy * dy) by (nonlinear_arith);
        dx * dx + dy * dy
    }

    /// Whether `other` lies within `radius` of this point, the rim included.
    pub fn is_within(&self, other: &Vec2, radius: i64) -> (b: bool)
        ensures
            b == within(self@, other@, radius as int),
    {
        if radius < 0 {
            return false;
        }
        let r: i128 = radius as i128;
        assert(0 <= r * r <= 0x8000_0000_0000_0000 * 0x8000_0000_0000_0000) by (nonlinear_arith)
            requires
                0 <= r <= 0x8000_0000_0000_0000,
        ;
        self.distance_squared(other) <= r * r
    }
}

/// A steering direction. Only where it points matters, not how long it is; the
/// zero vector means that nothing pulls.
#[derive(Clone, Copy, Debug, PartialEq, Eq, Structural)]
pub struct Pull {
    pub x: i128,
    pub y: i128,
}

impl View for Pull {
    type V = Vector;

    open spec fn view(&self) -> Vector {
        Vector { x: self.x as int, y: self.y as int }
    }
}

const TWO_POW_64: i128 = 0x1_0000_0000_0000_0000;

/// Floor division of `v` by 2^64, with the remainder.
fn split_words(v: i128) -> (r: (i128, i128))
    ensures
        v == r.0 * TWO_POW_64 + r.1,
        0 <= r.1 < TWO_POW_64,
        -0x8000_0000_0000_0000 <= r.0 < 0x8000_0000_0000_0000,
{
    let q: i128 = v / TWO_POW_64;
    let m: i128 = v % TWO_POW_64;
    if m < 0 {
        (q - 1, m + TWO_POW_64)
    } else {
        (q, m)
    }
}

impl Pull {
    pub fn new(x: i128, y: i128) -> (p: Pull)
        ensures
            p.x == x,
            p.y == y,
    {
        Pull { x, y }
    }

    pub fn is_zero(&self) -> (b: bool)
        ensures
            b == self@.is_zero(),
    {
        self.x == 0 && self.y == 0
    }
}

impl Vec2 {
    /// Whether the cross product of this direction and `desired` is positive.
    /// Exact for every pair: the product is 160 bits wide and is compared in
    /// two words.
    pub fn cross_is_positive(&self, desired: &Pull) -> (b: bool)
        ensures
            b == (self@.cross(desired@) > 0),
    {
        let fx: i128 = self.x as i128;
        let fy: i128 = self.y as i128;
        let (xh, xl) = split_words(desired.x);
        let (yh, yl) = split_words(desired.y);
        proof {
            lemma_product_bound(fx as int, yh as int, 0x8000_0000, 0x8000_0000_0000_0000);
            lemma_product_bound(fy as int, xh as int, 0x8000_0000, 0x8000_0000_0000_0000);
            lemma_product_bound(fx as int, yl as int, 0x8000_0000, 0x1_0000_0000_0000_0000);
            lemma_product_bound(fy as int, xl as int, 0x8000_0000, 0x1_0000_0000_0000_0000);
        }
        let high: i128 = fx * yh - fy * xh;
        let low: i128 = fx * yl - fy * xl;
        let (lh, ll) = split_words(low);
        let top: i128 = high + lh;
        proof {
            let t = TWO_POW_64 as int;
            assert(self@.cross(desired@) == top * t + ll) by (nonlinear_arith)
                requires
                    self@.cross(desired@) == fx * (yh * t + yl) - fy * (xh * t + xl),
                    high == fx * yh - fy * xh,
                    low == fx * yl - fy * xl,
                    low == lh * t + ll,
                    top == high + lh,
            ;
            assert(top > 0 ==> top * t + ll > 0) by (nonlinear_arith)
                requires
                    t > 0,
                    ll >= 0,
            ;
            assert(top < 0 ==> top * t + ll < 0) by (nonlinear_arith)
                requires
                    t > 0,
                    ll < t,
            ;
        }
        top > 0 || (top == 0 && ll > 0)
    }
}

/// `|a * b| <= m * n` where `|a| <= m` and `|b| <= n`.
pub proof fn lemma_product_bound(a: int, b: int, m: int, n: int)
    by (nonlinear_arith)
    requires
        -m <= a <= m,
        -n <= b <= n,
    ensures
        -(m * n) <= a * b <= m * n,
{
}

} // verus!
