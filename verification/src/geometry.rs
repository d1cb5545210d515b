//! Fixed-point plane geometry.
//!
//! Lengths and coordinates are integers counted in thousandths of a world
//! unit. Directions are vectors whose length is close to `SCALE`.

use vstd::prelude::*;

verus! {

/// Fixed-point steps in one whole: one world unit, and a multiplier of one.
pub const SCALE: i64 = 1000;

/// Largest magnitude of a stored world coordinate.
pub const COORD_LIMIT: i64 = 1_000_000_000_000;

/// Largest magnitude kept in a component of an accumulated force.
pub const FORCE_LIMIT: i64 = 1_000_000_000_000_000;

/// Largest magnitude of a component for which every operation of this module
/// stays inside the machine integers.
pub const WIDE_LIMIT: i64 = 4_000_000_000_000_000_000;

/// Absolute value.
pub open spec fn abs(v: int) -> int {
    if v >= 0 {
        v
    } else {
        -v
    }
}

/// Division that rounds toward zero, for a positive divisor.
pub open spec fn tdiv(a: int, b: int) -> int {
    if a >= 0 {
        a / b
    } else {
        -((-a) / b)
    }
}

/// `v` limited to the interval from `lo` to `hi`.
pub open spec fn clamp(v: int, lo: int, hi: int) -> int {
    if v < lo {
        lo
    } else if v > hi {
        hi
    } else {
        v
    }
}

/// `r` is the integer square root of `n`, rounded down.
pub open spec fn is_sqrt(n: int, r: int) -> bool {
    0 <= r && r * r <= n < (r + 1) * (r + 1)
}

/// The integer square root of `n`, rounded down.
pub open spec fn sqrt(n: int) -> int {
    choose|r: int| is_sqrt(n, r)
}

/// A number has at most one rounded-down square root.
pub proof fn lemma_sqrt_unique(n: int, r: int)
    requires
        is_sqrt(n, r),
    ensures
        sqrt(n) == r,
{
    let s = sqrt(n);
    assert(is_sqrt(n, s));
    if s < r {
        assert((s + 1) * (s + 1) <= r * r) by (nonlinear_arith)
            requires
                0 <= s,
                s + 1 <= r,
        ;
    } else if r < s {
        assert((r + 1) * (r + 1) <= s * s) by (nonlinear_arith)
            requires
                0 <= r,
                r + 1 <= s,
        ;
    }
}

/// Every number from zero on has a rounded-down square root.
pub proof fn lemma_sqrt_exists(n: int)
    requires
        0 <= n,
    ensures
        is_sqrt(n, sqrt(n)),
    decreases n,
{
    if n == 0 {
        assert(is_sqrt(0, 0));
    } else {
        lemma_sqrt_exists(n - 1);
        let r = sqrt(n - 1);
        if (r + 1) * (r + 1) <= n {
            assert((r + 1) * (r + 1) < (r + 2) * (r + 2)) by (nonlinear_arith)
                requires
                    0 <= r,
            ;
            assert(n < (r + 1 + 1) * (r + 1 + 1)) by (nonlinear_arith)
                requires
                    n - 1 < (r + 1) * (r + 1),
                    0 <= r,
            ;
            assert(is_sqrt(n, r + 1));
        } else {
            assert(is_sqrt(n, r));
        }
    }
}

/// The square root never exceeds a bound whose square covers the number.
pub proof fn lemma_sqrt_le(n: int, bound: int)
    requires
        0 <= n <= bound * bound,
        0 <= bound,
    ensures
        0 <= sqrt(n) <= bound,
{
    lemma_sqrt_exists(n);
    let s = sqrt(n);
    if s > bound {
        assert((bound + 1) * (bound + 1) <= s * s) by (nonlinear_arith)
            requires
                0 <= bound,
                bound + 1 <= s,
        ;
        assert(bound * bound < (bound + 1) * (bound + 1)) by (nonlinear_arith)
            requires
                0 <= bound,
        ;
    }
}

/// Truncating division keeps the sign of the dividend and never grows it.
pub proof fn lemma_tdiv_bounds(a: int, b: int)
    requires
        b > 0,
    ensures
        a >= 0 ==> 0 <= tdiv(a, b) <= a,
        a <= 0 ==> a <= tdiv(a, b) <= 0,
        abs(tdiv(a, b)) * b <= abs(a),
{
    let m = abs(a);
    assert(0 <= m / b <= m && (m / b) * b <= m) by (nonlinear_arith)
        requires
            m >= 0,
            b > 0,
    ;
}

/// A product divided by a divisor that covers one factor stays within the
/// other factor.
pub proof fn lemma_tdiv_mul_bounds(a: int, k: int, d: int)
    requires
        d > 0,
        abs(k) <= d,
    ensures
        abs(tdiv(a * k, d)) <= abs(a),
{
    let p = a * k;
    assert(abs(p) <= abs(a) * d) by (nonlinear_arith)
        requires
            p == a * k,
            abs(k) <= d,
            d > 0,
    ;
    lemma_tdiv_bounds(p, d);
    assert(abs(tdiv(p, d)) <= abs(a)) by (nonlinear_arith)
        requires
            abs(tdiv(p, d)) * d <= abs(p),
            abs(p) <= abs(a) * d,
            d > 0,
            abs(a) >= 0,
            abs(tdiv(p, d)) >= 0,
    ;
}

/// Integer square root, rounded down.
pub fn isqrt(n: u128) -> (r: u64)
    ensures
        is_sqrt(n as int, r as int),
        r == sqrt(n as int),
{
    let mut lo: u128 = 0;
    let mut hi: u128 = 0x1_0000_0000_0000_0000;
    assert(hi * hi > n) by (nonlinear_arith)
        requires
            hi == 0x1_0000_0000_0000_0000,
            n <= 0xffff_ffff_ffff_ffff_ffff_ffff_ffff_ffff,
    ;
    while hi - lo > 1
        invariant
            lo < hi <= 0x1_0000_0000_0000_0000,
            lo * lo <= n < hi * hi,
        decreases hi - lo,
    {
        let mid: u128 = lo + (hi - lo) / 2;
        assert(mid * mid <= 0xffff_ffff_ffff_ffff * 0xffff_ffff_ffff_ffff) by (nonlinear_arith)
            requires
                0 <= mid <= 0xffff_ffff_ffff_ffff,
        ;
        if mid * mid <= n {
            lo = mid;
        } else {
            hi = mid;
        }
    }
    proof {
        lemma_sqrt_unique(n as int, lo as int);
    }
    lo as u64
}

/// A point or vector of the plane with mathematical integer components.
pub struct V2 {
    pub x: int,
    pub y: int,
}

impl V2 {
    /// The zero vector.
    pub open spec fn zero() -> V2 {
        V2 { x: 0, y: 0 }
    }

    /// The vector in machine integers, for components that fit them.
    pub open spec fn fixed(self) -> Vec2 {
        Vec2 { x: self.x as i64, y: self.y as i64 }
    }

    /// Both components lie within `limit` of zero.
    pub open spec fn within(self, limit: int) -> bool {
        abs(self.x) <= limit && abs(self.y) <= limit
    }

    /// Component-wise sum.
    pub open spec fn plus(self, other: V2) -> V2 {
        V2 { x: self.x + other.x, y: self.y + other.y }
    }

    /// Component-wise difference.
    pub open spec fn minus(self, other: V2) -> V2 {
        V2 { x: self.x - other.x, y: self.y - other.y }
    }

    /// Every component multiplied by `k`.
    pub open spec fn times(self, k: int) -> V2 {
        V2 { x: self.x * k, y: self.y * k }
    }

    /// Every component multiplied by `num` and divided by `den`, rounding
    /// toward zero.
    pub open spec fn scaled(self, num: int, den: int) -> V2 {
        V2 { x: tdiv(self.x * num, den), y: tdiv(self.y * num, den) }
    }

    /// Every component limited to `limit` in magnitude.
    pub open spec fn clamped(self, limit: int) -> V2 {
        V2 { x: clamp(self.x, -limit, limit), y: clamp(self.y, -limit, limit) }
    }

    /// Scalar product.
    pub open spec fn dot(self, other: V2) -> int {
        self.x * other.x + self.y * other.y
    }

    /// Squared Euclidean length.
    pub open spec fn norm_sq(self) -> int {
        self.x * self.x + self.y * self.y
    }

    /// Squared Euclidean distance to `other`.
    pub open spec fn dist_sq(self, other: V2) -> int {
        self.minus(other).norm_sq()
    }

    /// Euclidean length, rounded down.
    pub open spec fn length(self) -> int {
        sqrt(self.norm_sq())
    }

    /// The vector turned a quarter turn counter-clockwise.
    pub open spec fn perp(self) -> V2 {
        V2 { x: -self.y, y: self.x }
    }

    /// The direction of the vector as a vector of length about `SCALE`; the
    /// zero vector where the length rounds to zero.
    pub open spec fn direction(self) -> V2 {
        let len = self.length();
        if len == 0 {
            V2 { x: 0, y: 0 }
        } else {
            self.scaled(SCALE as int, len)
        }
    }
}

/// A squared length is never negative and covers the square of each
/// component.
pub proof fn lemma_norm_sq_bounds(v: V2, limit: int)
    requires
        v.within(limit),
    ensures
        0 <= v.x * v.x <= v.norm_sq(),
        0 <= v.y * v.y <= v.norm_sq(),
        v.norm_sq() <= 2 * limit * limit,
{
    assert(0 <= v.x * v.x <= limit * limit) by (nonlinear_arith)
        requires
            abs(v.x) <= limit,
    ;
    assert(0 <= v.y * v.y <= limit * limit) by (nonlinear_arith)
        requires
            abs(v.y) <= limit,
    ;
    assert(2 * limit * limit == limit * limit + limit * limit) by (nonlinear_arith);
}

/// Each component of a vector is at most its rounded-down length in magnitude.
pub proof fn lemma_length_covers(v: V2)
    requires
        is_sqrt(v.norm_sq(), v.length()),
    ensures
        abs(v.x) <= v.length(),
        abs(v.y) <= v.length(),
{
    let len = v.length();
    let ax = abs(v.x);
    let ay = abs(v.y);
    assert(ax * ax == v.x * v.x) by (nonlinear_arith)
        requires
            ax == abs(v.x),
    ;
    assert(ay * ay == v.y * v.y) by (nonlinear_arith)
        requires
            ay == abs(v.y),
    ;
    assert(0 <= ay * ay) by (nonlinear_arith);
    assert(0 <= ax * ax) by (nonlinear_arith);
    if ax > len {
        assert((len + 1) * (len + 1) <= ax * ax) by (nonlinear_arith)
            requires
                0 <= len,
                len + 1 <= ax,
        ;
    }
    if ay > len {
        assert((len + 1) * (len + 1) <= ay * ay) by (nonlinear_arith)
            requires
                0 <= len,
                len + 1 <= ay,
        ;
    }
}

/// Moving two points by the same offset does not change their distance.
pub proof fn lemma_dist_sq_translation(a: V2, b: V2, offset: V2)
    ensures
        a.plus(offset).dist_sq(b.plus(offset)) == a.dist_sq(b),
{
}

/// A point or vector of the plane in fixed-point components.
#[derive(Clone, Copy, Debug, PartialEq, Eq, Structural)]
pub struct Vec2 {
    pub x: i64,
    pub y: i64,
}

impl View for Vec2 {
    type V = V2;

    open spec fn view(&self) -> V2 {
        V2 { x: self.x as int, y: self.y as int }
    }
}

/// Product of two machine integers, which always fits the wide type.
pub fn mul_wide(a: i64, b: i64) -> (r: i128)
    ensures
        r == a * b,
{
    assert(-0x4000_0000_0000_0000_0000_0000_0000_0000 <= a * b
        <= 0x4000_0000_0000_0000_0000_0000_0000_0000) by (nonlinear_arith)
        requires
            -0x8000_0000_0000_0000 <= a <= 0x7fff_ffff_ffff_ffff,
            -0x8000_0000_0000_0000 <= b <= 0x7fff_ffff_ffff_ffff,
    ;
    (a as i128) * (b as i128)
}

/// `a * num / den`, rounded toward zero, where `num` is at most `den` in
/// magnitude.
pub fn mul_div(a: i64, num: i64, den: i64) -> (r: i64)
    requires
        den > 0,
        abs(num as int) <= den,
        a > i64::MIN,
    ensures
        r == tdiv(a * num, den as int),
        abs(r as int) <= abs(a as int),
        a * num >= 0 ==> r >= 0,
        a * num <= 0 ==> r <= 0,
{
    let p: i128 = mul_wide(a, num);
    proof {
        lemma_tdiv_mul_bounds(a as int, num as int, den as int);
        lemma_tdiv_bounds(a * num, den as int);
    }
    let q: i128 = p / (den as i128);
    q as i64
}

/// `a * b / den`, rounded toward zero.
pub fn mul_div_wide(a: i64, b: i64, den: i64) -> (r: i128)
    requires
        den > 0,
    ensures
        r == tdiv(a * b, den as int),
        abs(r as int) <= abs(a * b),
{
    let p: i128 = mul_wide(a, b);
    proof {
        lemma_tdiv_bounds(a * b, den as int);
    }
    p / (den as i128)
}

/// `v` limited to the interval from `-limit` to `limit`.
pub fn clamp_wide(v: i128, limit: i64) -> (r: i64)
    requires
        limit >= 0,
    ensures
        r == clamp(v as int, -limit, limit as int),
{
    if v < -(limit as i128) {
        -limit
    } else if v > limit as i128 {
        limit
    } else {
        v as i64
    }
}

impl Vec2 {
    /// The stored coordinates are within `COORD_LIMIT`.
    pub open spec fn in_bounds(&self) -> bool {
        self@.within(COORD_LIMIT as int)
    }

    pub fn new(x: i64, y: i64) -> (v: Vec2)
        ensures
            v.x == x,
            v.y == y,
    {
        Vec2 { x, y }
    }

    /// The zero vector.
    pub fn zero() -> (v: Vec2)
        ensures
            v@ == (V2 { x: 0, y: 0 }),
    {
        Vec2 { x: 0, y: 0 }
    }

    /// Component-wise sum.
    pub fn plus(&self, other: &Vec2) -> (r: Vec2)
        requires
            self@.within(WIDE_LIMIT as int),
            other@.within(WIDE_LIMIT as int),
        ensures
            r@ == self@.plus(other@),
    {
        Vec2 { x: self.x + other.x, y: self.y + other.y }
    }

    /// Component-wise difference.
    pub fn minus(&self, other: &Vec2) -> (r: Vec2)
        requires
            self@.within(WIDE_LIMIT as int),
            other@.within(WIDE_LIMIT as int),
        ensures
            r@ == self@.minus(other@),
    {
        Vec2 { x: self.x - other.x, y: self.y - other.y }
    }

    /// The vector turned a quarter turn counter-clockwise.
    pub fn perp(&self) -> (r: Vec2)
        requires
            self@.within(WIDE_LIMIT as int),
        ensures
            r@ == self@.perp(),
    {
        Vec2 { x: -self.y, y: self.x }
    }

    /// Every component limited to `limit` in magnitude.
    pub fn clamped(&self, limit: i64) -> (r: Vec2)
        requires
            limit >= 0,
        ensures
            r@ == self@.clamped(limit as int),
            r@.within(limit as int),
    {
        Vec2 { x: clamp_wide(self.x as i128, limit), y: clamp_wide(self.y as i128, limit) }
    }

    /// Every component multiplied by `num` and divided by `den`, for a factor
    /// of at most one.
    pub fn scaled(&self, num: i64, den: i64) -> (r: Vec2)
        requires
            den > 0,
            abs(num as int) <= den,
            self@.within(WIDE_LIMIT as int),
        ensures
            r@ == self@.scaled(num as int, den as int),
            abs(r.x as int) <= abs(self.x as int),
            abs(r.y as int) <= abs(self.y as int),
    {
        Vec2 { x: mul_div(self.x, num, den), y: mul_div(self.y, num, den) }
    }

    /// Scalar product.
    pub fn dot(&self, other: &Vec2) -> (r: i128)
        requires
            self@.within(WIDE_LIMIT as int),
            other@.within(WIDE_LIMIT as int),
        ensures
            r == self@.dot(other@),
    {
        let a: i128 = mul_wide(self.x, other.x);
        let b: i128 = mul_wide(self.y, other.y);
        assert(abs(self.x * other.x) <= WIDE_LIMIT * WIDE_LIMIT) by (nonlinear_arith)
            requires
                abs(self.x as int) <= WIDE_LIMIT,
                abs(other.x as int) <= WIDE_LIMIT,
        ;
        assert(abs(self.y * other.y) <= WIDE_LIMIT * WIDE_LIMIT) by (nonlinear_arith)
            requires
                abs(self.y as int) <= WIDE_LIMIT,
                abs(other.y as int) <= WIDE_LIMIT,
        ;
        a + b
    }

    /// Squared Euclidean length.
    pub fn norm_sq(&self) -> (r: u128)
        requires
            self@.within(2 * WIDE_LIMIT),
        ensures
            r == self@.norm_sq(),
    {
        let a: i128 = mul_wide(self.x, self.x);
        let b: i128 = mul_wide(self.y, self.y);
        proof {
            lemma_norm_sq_bounds(self@, 2 * WIDE_LIMIT);
        }
        (a as u128) + (b as u128)
    }

    /// Squared Euclidean distance to `other`.
    pub fn distance_squared(&self, other: &Vec2) -> (r: u128)
        requires
            self@.within(WIDE_LIMIT as int),
            other@.within(WIDE_LIMIT as int),
        ensures
            r == self@.dist_sq(other@),
    {
        self.minus(other).norm_sq()
    }

    /// Euclidean length, rounded down.
    pub fn length(&self) -> (r: i64)
        requires
            self@.within(WIDE_LIMIT as int),
        ensures
            r == self@.length(),
            is_sqrt(self@.norm_sq(), r as int),
            abs(self.x as int) <= r,
            abs(self.y as int) <= r,
    {
        let n: u128 = self.norm_sq();
        let r: u64 = isqrt(n);
        proof {
            lemma_norm_sq_bounds(self@, WIDE_LIMIT as int);
            lemma_sqrt_le(n as int, 2 * WIDE_LIMIT);
            assert(n <= (2 * WIDE_LIMIT) * (2 * WIDE_LIMIT)) by (nonlinear_arith)
                requires
                    n <= 2 * (WIDE_LIMIT as int) * (WIDE_LIMIT as int),
            ;
            lemma_length_covers(self@);
        }
        r as i64
    }

    /// The direction of the vector as a vector of length about `SCALE`; the
    /// zero vector where the length rounds to zero.
    pub fn direction(&self) -> (r: Vec2)
        requires
            self@.within(WIDE_LIMIT as int),
        ensures
            r@ == self@.direction(),
            r@.within(SCALE as int),
    {
        let len: i64 = self.length();
        if len == 0 {
            Vec2 { x: 0, y: 0 }
        } else {
            let x: i128 = mul_wide(self.x, SCALE) / (len as i128);
            let y: i128 = mul_wide(self.y, SCALE) / (len as i128);
            proof {
                lemma_tdiv_mul_bounds(SCALE as int, self.x as int, len as int);
                lemma_tdiv_mul_bounds(SCALE as int, self.y as int, len as int);
                assert(SCALE * self.x == self.x * SCALE) by (nonlinear_arith);
                assert(SCALE * self.y == self.y * SCALE) by (nonlinear_arith);
            }
            Vec2 { x: x as i64, y: y as i64 }
        }
    }
}

} // verus!
