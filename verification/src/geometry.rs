//! Points of the plane, the distance between two of them, and the jump of one
//! towards another.

use vstd::prelude::*;
use crate::fixed::{
    lemma_round_div_bounds, round_div, round_div_i128, saturate, saturate_i128, ONE,
};

verus! {

/// A point of the plane. Both coordinates are scalars: they count millionths.
#[derive(Copy, Clone, Debug, PartialEq, Eq, Structural)]
pub struct Point(pub i64, pub i64);

/// `r` is the least integer that is not negative and whose square reaches `s`.
pub open spec fn is_ceil_sqrt(r: int, s: int) -> bool {
    &&& r >= 0
    &&& s <= r * r
    &&& (r == 0 || (r - 1) * (r - 1) < s)
}

/// The square root of `s`, rounded up to an integer; zero where `s` is
/// negative.
pub open spec fn ceil_sqrt(s: int) -> int {
    choose|r: int| is_ceil_sqrt(r, s)
}

/// The coordinate that lies the part `r` of the way from `from` to `to`.
pub open spec fn blend(from: int, to: int, r: int) -> int {
    saturate(from + round_div((to - from) * r, ONE as int))
}

/// Squares keep the order of numbers that are not negative.
pub proof fn lemma_square_monotonic(a: int, b: int)
    requires
        0 <= a <= b,
    ensures
        a * a <= b * b,
{
    assert(a * a <= b * b) by (nonlinear_arith)
        requires
            0 <= a <= b,
    ;
}

/// No two integers are the rounded-up square root of one number.
pub proof fn lemma_ceil_sqrt_unique(r1: int, r2: int, s: int)
    requires
        is_ceil_sqrt(r1, s),
        is_ceil_sqrt(r2, s),
    ensures
        r1 == r2,
{
    if r1 < r2 {
        lemma_square_monotonic(r1, r2 - 1);
    } else if r2 < r1 {
        lemma_square_monotonic(r2, r1 - 1);
    }
}

/// Counts up from `r` to the rounded-up square root of `s`.
proof fn lemma_ceil_sqrt_from(s: int, r: int)
    requires
        r >= 0,
        r == 0 || (r - 1) * (r - 1) < s,
    ensures
        exists|q: int| is_ceil_sqrt(q, s),
    decreases s - r * r,
{
    if s <= r * r {
        assert(is_ceil_sqrt(r, s));
    } else {
        let next = r + 1;
        assert(next * next > r * r) by (nonlinear_arith)
            requires
                next == r + 1,
                r >= 0,
        ;
        if s <= next * next {
            assert(is_ceil_sqrt(next, s));
        } else {
            lemma_ceil_sqrt_from(s, next);
        }
    }
}

/// Every number has a rounded-up square root, and `ceil_sqrt` is it.
pub proof fn lemma_ceil_sqrt(s: int)
    ensures
        is_ceil_sqrt(ceil_sqrt(s), s),
{
    lemma_ceil_sqrt_from(s, 0);
}

/// An integer with the defining property is the rounded-up square root.
pub proof fn lemma_ceil_sqrt_is(r: int, s: int)
    requires
        is_ceil_sqrt(r, s),
    ensures
        ceil_sqrt(s) == r,
{
    lemma_ceil_sqrt(s);
    lemma_ceil_sqrt_unique(r, ceil_sqrt(s), s);
}

/// The rounded-up square root exceeds `d` exactly where the number exceeds
/// the square of `d`.
pub proof fn lemma_ceil_sqrt_exceeds(s: int, d: int)
    requires
        d >= 0,
    ensures
        ceil_sqrt(s) > d <==> s > d * d,
{
    lemma_ceil_sqrt(s);
    let r = ceil_sqrt(s);
    if r > d {
        lemma_square_monotonic(d, r - 1);
    } else {
        lemma_square_monotonic(r, d);
    }
}

/// The rounded-up square root keeps the order of its arguments.
pub proof fn lemma_ceil_sqrt_monotonic(s1: int, s2: int)
    requires
        s1 <= s2,
    ensures
        ceil_sqrt(s1) <= ceil_sqrt(s2),
{
    lemma_ceil_sqrt(s1);
    lemma_ceil_sqrt(s2);
    let r1 = ceil_sqrt(s1);
    let r2 = ceil_sqrt(s2);
    if r2 < r1 {
        lemma_square_monotonic(r2, r1 - 1);
    }
}

impl Point {
    /// The square of the distance between `self` and `p`.
    pub open spec fn dist_sq(self, p: Point) -> int {
        (p.0 - self.0) * (p.0 - self.0) + (p.1 - self.1) * (p.1 - self.1)
    }

    /// The distance between `self` and `p`, rounded up to a whole millionth:
    /// the least scalar `d` such that `p` lies within `d` of `self`.
    pub open spec fn dist_spec(self, p: Point) -> int {
        saturate(ceil_sqrt(self.dist_sq(p)))
    }

    /// The point that lies the part `r` of the way from `self` to `p`.
    pub open spec fn jump_spec(self, p: Point, r: int) -> Point {
        Point(blend(self.0 as int, p.0 as int, r) as i64, blend(self.1 as int, p.1 as int, r) as i64)
    }

    /// Makes a point of an array of its two coordinates.
    pub fn from_arr(arr: [i64; 2]) -> (p: Point)
        ensures
            p == Point(arr[0], arr[1]),
    {
        Point(arr[0], arr[1])
    }

    /// The distance between `self` and `p`, rounded up to a whole millionth.
    /// A distance beyond the range of `i64` is given as `i64::MAX`.
    pub fn dist(&self, p: Point) -> (d: i64)
        ensures
            d == self.dist_spec(p),
    {
        let dx: u128 = span(self.0, p.0);
        let dy: u128 = span(self.1, p.1);
        let limit: u128 = i64::MAX as u128;
        if dx > limit || dy > limit {
            proof {
                let s = self.dist_sq(p);
                let long = if dx > limit { dx as int } else { dy as int };
                assert(s >= long * long) by (nonlinear_arith)
                    requires
                        s == (p.0 - self.0) * (p.0 - self.0) + (p.1 - self.1) * (p.1 - self.1),
                        long == p.0 - self.0 || long == self.0 - p.0 || long == p.1 - self.1
                            || long == self.1 - p.1,
                ;
                lemma_square_monotonic(limit as int + 1, long);
                assert((limit + 1) * (limit + 1) > limit * limit) by (nonlinear_arith)
                    requires
                        limit >= 0,
                ;
                lemma_ceil_sqrt_exceeds(s, limit as int);
            }
            return i64::MAX;
        }
        assert(dx * dx + dy * dy <= 2 * (0x7fff_ffff_ffff_ffff * 0x7fff_ffff_ffff_ffff))
            by (nonlinear_arith)
            requires
                0 <= dx <= 0x7fff_ffff_ffff_ffff,
                0 <= dy <= 0x7fff_ffff_ffff_ffff,
        ;
        let s: u128 = dx * dx + dy * dy;
        assert(s == self.dist_sq(p)) by (nonlinear_arith)
            requires
                s == dx * dx + dy * dy,
                dx == p.0 - self.0 || dx == self.0 - p.0,
                dy == p.1 - self.1 || dy == self.1 - p.1,
                self.dist_sq(p) == (p.0 - self.0) * (p.0 - self.0) + (p.1 - self.1) * (p.1
                    - self.1),
        ;
        let r: u128 = ceil_sqrt_u128(s);
        proof {
            lemma_ceil_sqrt_is(r as int, s as int);
        }
        if r > limit {
            i64::MAX
        } else {
            r as i64
        }
    }

    /// Moves `self` the part `r` of the way towards `p`: not at all where `r`
    /// is zero, onto `p` where `r` is `ONE`. A coordinate that would leave the
    /// range of `i64` stops at its end.
    pub fn jump(&mut self, p: Point, r: i64)
        ensures
            *final(self) == old(self).jump_spec(p, r as int),
    {
        self.0 = blend_i64(self.0, p.0, r);
        self.1 = blend_i64(self.1, p.1, r);
    }
}

/// The distance between two coordinates.
fn span(a: i64, b: i64) -> (d: u128)
    ensures
        d == b - a || d == a - b,
        d >= 0,
        d <= 0xffff_ffff_ffff_ffff,
{
    if a <= b {
        (b as i128 - a as i128) as u128
    } else {
        (a as i128 - b as i128) as u128
    }
}

/// The square root of `s`, rounded up, found by halving the interval that
/// holds it.
fn ceil_sqrt_u128(s: u128) -> (r: u128)
    requires
        s <= 2 * (0x7fff_ffff_ffff_ffff * 0x7fff_ffff_ffff_ffff),
    ensures
        is_ceil_sqrt(r as int, s as int),
        r <= 0xffff_ffff_ffff_ffff,
{
    if s == 0 {
        return 0;
    }
    let mut low: u128 = 0;
    let mut high: u128 = 0xffff_ffff_ffff_ffff;
    assert(s <= high * high) by (nonlinear_arith)
        requires
            s <= 2 * (0x7fff_ffff_ffff_ffff * 0x7fff_ffff_ffff_ffff),
            high == 0xffff_ffff_ffff_ffff,
    ;
    while high - low > 1
        invariant
            low < high <= 0xffff_ffff_ffff_ffff,
            low * low < s <= high * high,
        decreases high - low,
    {
        let mid: u128 = low + (high - low) / 2;
        assert(mid * mid <= 0xffff_ffff_ffff_ffff * 0xffff_ffff_ffff_ffff) by (nonlinear_arith)
            requires
                0 <= mid <= 0xffff_ffff_ffff_ffff,
        ;
        if mid * mid >= s {
            high = mid;
        } else {
            low = mid;
        }
    }
    high
}

/// The coordinate that lies the part `r` of the way from `from` to `to`.
fn blend_i64(from: i64, to: i64, r: i64) -> (x: i64)
    ensures
        x == blend(from as int, to as int, r as int),
{
    let gap: i128 = to as i128 - from as i128;
    assert(-(0xffff_ffff_ffff_ffff * 0x8000_0000_0000_0000) <= gap * r <= 0xffff_ffff_ffff_ffff
        * 0x8000_0000_0000_0000) by (nonlinear_arith)
        requires
            -0xffff_ffff_ffff_ffff <= gap <= 0xffff_ffff_ffff_ffff,
            -0x8000_0000_0000_0000 <= r <= 0x8000_0000_0000_0000,
    ;
    let whole: i128 = gap * (r as i128);
    let moved: i128 = round_div_i128(whole, ONE as i128);
    proof {
        if whole >= 0 {
            lemma_round_div_bounds(whole as int, ONE as int);
        } else {
            lemma_round_div_bounds(-(whole as int), ONE as int);
        }
    }
    saturate_i128(from as i128 + moved)
}

} // verus!
