//! Integer geometry of touch positions.
//!
//! Positions are whole surface units. Squares and products are taken in
//! 128 bits, so that no pair of positions can overflow them, and distances
//! are rounded down to whole units.

use vstd::prelude::*;

verus! {

/// A position on the touch surface, in surface-local units.
#[derive(Clone, Copy, Debug, PartialEq, Eq, Structural)]
pub struct Point {
    pub x: i32,
    pub y: i32,
}

/// The difference of two positions, or any other displacement.
#[derive(Clone, Copy, Debug, PartialEq, Eq, Structural)]
pub struct Delta {
    pub dx: i64,
    pub dy: i64,
}

/// The displacement that leads from `from` to `to`.
pub open spec fn delta_between(from: Point, to: Point) -> Delta {
    Delta { dx: (to.x - from.x) as i64, dy: (to.y - from.y) as i64 }
}

/// The square of the distance between two positions.
pub open spec fn dist_sq(a: Point, b: Point) -> nat {
    ((a.x - b.x) * (a.x - b.x) + (a.y - b.y) * (a.y - b.y)) as nat
}

/// `r` is the square root of `n`, rounded down.
pub open spec fn is_sqrt_floor(n: nat, r: nat) -> bool {
    r * r <= n < (r + 1) * (r + 1)
}

/// The square root of `n`, rounded down.
pub open spec fn sqrt_floor(n: nat) -> nat {
    choose|r: nat| is_sqrt_floor(n, r)
}

/// The distance between two positions, rounded down to whole units.
pub open spec fn dist(a: Point, b: Point) -> nat {
    sqrt_floor(dist_sq(a, b))
}

/// The point halfway between two positions, each coordinate rounded down.
pub open spec fn midpoint(a: Point, b: Point) -> Point {
    Point { x: ((a.x + b.x) / 2) as i32, y: ((a.y + b.y) / 2) as i32 }
}

/// Half of `v`, rounded towards zero.
pub open spec fn half_toward_zero(v: int) -> int {
    if v >= 0 {
        v / 2
    } else {
        -((-v) / 2)
    }
}

/// The mean of two displacements, each component rounded towards zero.
pub open spec fn mean_delta(a: Delta, b: Delta) -> Delta {
    Delta {
        dx: half_toward_zero(a.dx + b.dx) as i64,
        dy: half_toward_zero(a.dy + b.dy) as i64,
    }
}

/// The dot product of two displacements: positive where they point the
/// same way, by less than a right angle.
pub open spec fn dot(a: Delta, b: Delta) -> int {
    a.dx * b.dx + a.dy * b.dy
}

/// The square of the length of the sum of two displacements.
pub open spec fn sum_len_sq(a: Delta, b: Delta) -> nat {
    ((a.dx + b.dx) * (a.dx + b.dx) + (a.dy + b.dy) * (a.dy + b.dy)) as nat
}

/// A displacement that the difference of two positions can take.
pub open spec fn in_surface_range(d: Delta) -> bool {
    -0xFFFF_FFFF <= d.dx <= 0xFFFF_FFFF && -0xFFFF_FFFF <= d.dy <= 0xFFFF_FFFF
}

/// A number has at most one rounded-down square root.
pub proof fn lemma_sqrt_floor_unique(n: nat, a: nat, b: nat)
    requires
        is_sqrt_floor(n, a),
        is_sqrt_floor(n, b),
    ensures
        a == b,
{
    if a < b {
        assert((a + 1) * (a + 1) <= b * b) by (nonlinear_arith)
            requires
                a + 1 <= b,
        ;
    }
    if b < a {
        assert((b + 1) * (b + 1) <= a * a) by (nonlinear_arith)
            requires
                b + 1 <= a,
        ;
    }
}

/// What `is_sqrt_floor` finds is `sqrt_floor`.
pub proof fn lemma_sqrt_floor_is(n: nat, r: nat)
    requires
        is_sqrt_floor(n, r),
    ensures
        sqrt_floor(n) == r,
{
    lemma_sqrt_floor_unique(n, r, sqrt_floor(n));
}

/// The distance between two positions fits 64 bits with room to spare.
pub proof fn lemma_dist_bounded(a: Point, b: Point)
    ensures
        dist(a, b) <= 0x2_0000_0000,
        is_sqrt_floor(dist_sq(a, b), dist(a, b)),
{
    let n = dist_sq(a, b);
    let dx = a.x - b.x;
    let dy = a.y - b.y;
    assert(0 <= dx * dx <= 0xFFFF_FFFF * 0xFFFF_FFFF) by (nonlinear_arith)
        requires
            -0xFFFF_FFFF <= dx <= 0xFFFF_FFFF,
    ;
    assert(0 <= dy * dy <= 0xFFFF_FFFF * 0xFFFF_FFFF) by (nonlinear_arith)
        requires
            -0xFFFF_FFFF <= dy <= 0xFFFF_FFFF,
    ;
    lemma_sqrt_floor_exists(n);
    let r = sqrt_floor(n);
    if r > 0x2_0000_0000 {
        lemma_square_monotone(0x2_0000_0001, r);
        assert(0x2_0000_0001 * 0x2_0000_0001 > 2 * (0xFFFF_FFFF * 0xFFFF_FFFF)) by (nonlinear_arith);
    }
}

/// Every number has a rounded-down square root.
pub proof fn lemma_sqrt_floor_exists(n: nat)
    ensures
        is_sqrt_floor(n, sqrt_floor(n)),
    decreases n,
{
    if n == 0 {
        assert(is_sqrt_floor(0, 0)) by (nonlinear_arith);
    } else {
        lemma_sqrt_floor_exists((n - 1) as nat);
        let r = sqrt_floor((n - 1) as nat);
        if n < (r + 1) * (r + 1) {
            assert(is_sqrt_floor(n, r));
        } else {
            assert((r + 1 + 1) * (r + 1 + 1) > (r + 1) * (r + 1)) by (nonlinear_arith);
            assert(is_sqrt_floor(n, r + 1));
        }
    }
}

/// Squaring is monotone on the naturals.
pub proof fn lemma_square_monotone(a: nat, b: nat)
    requires
        a <= b,
    ensures
        a * a <= b * b,
{
    assert(a * a <= b * b) by (nonlinear_arith)
        requires
            a <= b,
    ;
}

/// The square root, rounded down, of a 128-bit number.
pub fn isqrt(n: u128) -> (r: u64)
    ensures
        is_sqrt_floor(n as nat, r as nat),
        r == sqrt_floor(n as nat),
{
    let mut lo: u128 = 0;
    let mut hi: u128 = 0x1_0000_0000_0000_0000;
    proof {
        assert(0x1_0000_0000_0000_0000 * 0x1_0000_0000_0000_0000 > u128::MAX) by (nonlinear_arith);
    }
    while hi - lo > 1
        invariant
            lo < hi <= 0x1_0000_0000_0000_0000,
            lo * lo <= n,
            n < hi * hi,
        decreases hi - lo,
    {
        let mid: u128 = lo + (hi - lo) / 2;
        proof {
            lemma_square_monotone(mid as nat, 0xFFFF_FFFF_FFFF_FFFF);
            assert(0xFFFF_FFFF_FFFF_FFFF * 0xFFFF_FFFF_FFFF_FFFF <= u128::MAX) by (nonlinear_arith);
        }
        if mid * mid <= n {
            lo = mid;
        } else {
            hi = mid;
        }
    }
    proof {
        assert(hi == lo + 1);
        lemma_sqrt_floor_is(n as nat, lo as nat);
    }
    lo as u64
}

/// The absolute value of a coordinate difference.
fn magnitude(v: i64) -> (m: u64)
    requires
        -0x2_0000_0000 <= v <= 0x2_0000_0000,
    ensures
        m == (if v >= 0 { v as int } else { -v }),
        (m as int) * (m as int) == v * v,
{
    proof {
        assert((-v) * (-v) == v * v) by (nonlinear_arith);
    }
    if v >= 0 {
        v as u64
    } else {
        (-v) as u64
    }
}

/// The square of a coordinate difference.
fn square(v: i64) -> (s: u128)
    requires
        -0x2_0000_0000 <= v <= 0x2_0000_0000,
    ensures
        s == v * v,
        s <= 0x4_0000_0000_0000_0000,
{
    let m = magnitude(v) as u128;
    proof {
        lemma_square_monotone(m as nat, 0x2_0000_0000);
        assert(0x2_0000_0000 * 0x2_0000_0000 == 0x4_0000_0000_0000_0000) by (nonlinear_arith);
    }
    m * m
}

impl Point {
    /// The displacement that leads from `self` to `to`.
    pub fn delta_to(&self, to: &Point) -> (d: Delta)
        ensures
            d == delta_between(*self, *to),
            in_surface_range(d),
    {
        Delta { dx: to.x as i64 - self.x as i64, dy: to.y as i64 - self.y as i64 }
    }

    /// The square of the distance to `other`.
    pub fn distance_squared(&self, other: &Point) -> (d: u128)
        ensures
            d == dist_sq(*self, *other),
    {
        let dx = self.x as i64 - other.x as i64;
        let dy = self.y as i64 - other.y as i64;
        square(dx) + square(dy)
    }

    /// The distance to `other`, rounded down to whole units.
    pub fn distance(&self, other: &Point) -> (d: u64)
        ensures
            d == dist(*self, *other),
    {
        isqrt(self.distance_squared(other))
    }

    /// The point halfway between `self` and `other`.
    pub fn midpoint(&self, other: &Point) -> (m: Point)
        ensures
            m == midpoint(*self, *other),
    {
        Point { x: floor_mean(self.x, other.x), y: floor_mean(self.y, other.y) }
    }
}

/// The mean of two coordinates, rounded down.
fn floor_mean(a: i32, b: i32) -> (m: i32)
    ensures
        m == (a + b) / 2,
{
    let shifted: u64 = ((a as i64 + 0x8000_0000) + (b as i64 + 0x8000_0000)) as u64;
    ((shifted / 2) as i64 - 0x8000_0000) as i32
}

/// Half of `v`, rounded towards zero.
fn halve(v: i64) -> (h: i64)
    requires
        -0x2_0000_0000 <= v <= 0x2_0000_0000,
    ensures
        h == half_toward_zero(v as int),
{
    if v >= 0 {
        ((v as u64) / 2) as i64
    } else {
        -((((-v) as u64) / 2) as i64)
    }
}

impl Delta {
    /// Whether the displacement is nothing at all.
    pub fn is_zero(&self) -> (z: bool)
        ensures
            z == (self.dx == 0 && self.dy == 0),
    {
        self.dx == 0 && self.dy == 0
    }

    /// The mean of `self` and `other`, each component rounded towards zero.
    pub fn mean_with(&self, other: &Delta) -> (m: Delta)
        requires
            in_surface_range(*self),
            in_surface_range(*other),
        ensures
            m == mean_delta(*self, *other),
            in_surface_range(m),
    {
        Delta { dx: halve(self.dx + other.dx), dy: halve(self.dy + other.dy) }
    }

    /// The dot product of `self` and `other`.
    pub fn dot(&self, other: &Delta) -> (p: i128)
        requires
            in_surface_range(*self),
            in_surface_range(*other),
        ensures
            p == dot(*self, *other),
    {
        proof {
            lemma_product_bound(self.dx as int, other.dx as int);
            lemma_product_bound(self.dy as int, other.dy as int);
        }
        (self.dx as i128) * (other.dx as i128) + (self.dy as i128) * (other.dy as i128)
    }

    /// The square of the length of the sum of `self` and `other`.
    pub fn sum_length_squared(&self, other: &Delta) -> (s: u128)
        requires
            in_surface_range(*self),
            in_surface_range(*other),
        ensures
            s == sum_len_sq(*self, *other),
    {
        square(self.dx + other.dx) + square(self.dy + other.dy)
    }
}

/// The product of two coordinate differences stays far inside 128 bits.
proof fn lemma_product_bound(a: int, b: int)
    requires
        -0xFFFF_FFFF <= a <= 0xFFFF_FFFF,
        -0xFFFF_FFFF <= b <= 0xFFFF_FFFF,
    ensures
        -0x1_0000_0000_0000_0000 <= a * b <= 0x1_0000_0000_0000_0000,
{
    assert(-0x1_0000_0000_0000_0000 <= a * b <= 0x1_0000_0000_0000_0000) by (nonlinear_arith)
        requires
            -0xFFFF_FFFF <= a <= 0xFFFF_FFFF,
            -0xFFFF_FFFF <= b <= 0xFFFF_FFFF,
    ;
}

} // verus!
