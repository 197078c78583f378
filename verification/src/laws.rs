//! Laws that relate the functions of this crate to one another.

use vstd::prelude::*;
use vstd::arithmetic::div_mod::{lemma_fundamental_div_mod, lemma_mod_bound};
use vstd::arithmetic::power::pow;
use crate::colour::{second_channel, wedge, HSV, RGB, SECTOR};
use crate::controls::{Controls, MARGIN};
use crate::fixed::{
    clamp_unit, granule, lemma_round_div_monotonic, lemma_round_div_multiple, product, round_div,
    ONE,
};
use crate::fractal::{follows, is_step, is_walk, settle, tracer_before, tracer_start};
use crate::geometry::{
    blend, is_ceil_sqrt, lemma_ceil_sqrt, lemma_ceil_sqrt_exceeds, lemma_ceil_sqrt_is,
    lemma_ceil_sqrt_monotonic, lemma_square_monotonic, Point,
};
use crate::slots::SLOT_COUNT;

verus! {

/// The part of a gap that a ratio from zero to one covers lies between zero
/// and the gap, and grows with the ratio.
proof fn lemma_covered(gap: int, r1: int, r2: int)
    requires
        0 <= r1 <= r2 <= ONE,
    ensures
        gap >= 0 ==> 0 <= round_div(gap * r1, ONE as int) <= round_div(gap * r2, ONE as int)
            <= gap,
        gap <= 0 ==> gap <= round_div(gap * r2, ONE as int) <= round_div(gap * r1, ONE as int)
            <= 0,
{
    let one = ONE as int;
    if gap >= 0 {
        assert(0 <= gap * r1 <= gap * r2 <= gap * one) by (nonlinear_arith)
            requires
                gap >= 0,
                0 <= r1 <= r2 <= one,
        ;
        lemma_round_div_monotonic(0, gap * r1, one);
        lemma_round_div_monotonic(gap * r1, gap * r2, one);
        lemma_round_div_monotonic(gap * r2, gap * one, one);
        lemma_round_div_multiple(gap, one);
    } else {
        assert(gap * one <= gap * r2 <= gap * r1 <= 0) by (nonlinear_arith)
            requires
                gap <= 0,
                0 <= r1 <= r2 <= one,
        ;
        lemma_round_div_monotonic(gap * one, gap * r2, one);
        lemma_round_div_monotonic(gap * r2, gap * r1, one);
        lemma_round_div_monotonic(gap * r1, 0, one);
        lemma_round_div_multiple(gap, one);
    }
}

/// The square of what is left of a gap shrinks as the ratio grows.
proof fn lemma_rest_shrinks(from: i64, to: i64, r1: int, r2: int)
    requires
        0 <= r1 <= r2 <= ONE,
    ensures
        (to - blend(from as int, to as int, r2)) * (to - blend(from as int, to as int, r2)) <= (to
            - blend(from as int, to as int, r1)) * (to - blend(from as int, to as int, r1)),
{
    let gap = to - from;
    lemma_covered(gap, r1, r2);
    let rest1 = to - blend(from as int, to as int, r1);
    let rest2 = to - blend(from as int, to as int, r2);
    if gap >= 0 {
        lemma_square_monotonic(rest2, rest1);
    } else {
        lemma_square_monotonic(-rest2, -rest1);
        assert((-rest2) * (-rest2) == rest2 * rest2) by (nonlinear_arith);
        assert((-rest1) * (-rest1) == rest1 * rest1) by (nonlinear_arith);
    }
}

/// A jump by a ratio below one falls short of a target that lies more than
/// half of one away.
proof fn lemma_short_of_target(from: i64, to: i64, r: int)
    requires
        0 <= r < ONE,
        2 * (to - from) > ONE || 2 * (from - to) > ONE,
    ensures
        blend(from as int, to as int, r) != to,
{
    let one = ONE as int;
    let gap = to - from;
    lemma_covered(gap, r, r);
    if gap > 0 {
        assert(gap * r <= gap * one - gap) by (nonlinear_arith)
            requires
                gap > 0,
                r <= one - 1,
        ;
        lemma_round_div_monotonic(gap * r, gap * one - gap, one);
    } else {
        assert(gap * r >= gap * one - gap) by (nonlinear_arith)
            requires
                gap < 0,
                r <= one - 1,
        ;
        lemma_round_div_monotonic(gap * one - gap, gap * r, one);
    }
}

/// The farther the tracer jumps towards its target, the nearer it ends: for
/// ratios from zero to one, the distance to the target after the jump does not
/// grow as the ratio grows.
pub proof fn law_jump_approaches_target(a: Point, b: Point, r1: int, r2: int)
    requires
        0 <= r1 <= r2 <= ONE,
    ensures
        a.jump_spec(b, r2).dist_spec(b) <= a.jump_spec(b, r1).dist_spec(b),
{
    lemma_rest_shrinks(a.0, b.0, r1, r2);
    lemma_rest_shrinks(a.1, b.1, r1, r2);
    lemma_ceil_sqrt_monotonic(a.jump_spec(b, r2).dist_sq(b), a.jump_spec(b, r1).dist_sq(b));
}

/// A jump by the ratio one lands on the target, at the distance zero; a jump
/// by the ratio zero leaves the tracer where it is.
pub proof fn law_jump_ends(a: Point, b: Point)
    ensures
        a.jump_spec(b, ONE as int) == b,
        a.jump_spec(b, ONE as int).dist_spec(b) == 0,
        a.jump_spec(b, 0) == a,
{
    lemma_round_div_multiple(b.0 - a.0, ONE as int);
    lemma_round_div_multiple(b.1 - a.1, ONE as int);
    assert((b.0 - a.0) * 0 == 0 && (b.1 - a.1) * 0 == 0);
    assert(is_ceil_sqrt(0, b.dist_sq(b)));
    lemma_ceil_sqrt_is(0, b.dist_sq(b));
}

/// The distance between two points is zero exactly where they are the same
/// point.
pub proof fn law_dist_zero(a: Point, b: Point)
    ensures
        a.dist_spec(b) == 0 <==> a == b,
{
    let s = a.dist_sq(b);
    lemma_ceil_sqrt(s);
    assert(s >= 0 && (s == 0 <==> (b.0 - a.0 == 0 && b.1 - a.1 == 0))) by (nonlinear_arith)
        requires
            s == (b.0 - a.0) * (b.0 - a.0) + (b.1 - a.1) * (b.1 - a.1),
    ;
    if s == 0 {
        lemma_ceil_sqrt_is(0, s);
    }
}

/// The distance from `a` to `b` is the distance from `b` to `a`.
pub proof fn law_dist_symmetric(a: Point, b: Point)
    ensures
        a.dist_spec(b) == b.dist_spec(a),
{
    assert(a.dist_sq(b) == b.dist_sq(a)) by (nonlinear_arith)
        requires
            a.dist_sq(b) == (b.0 - a.0) * (b.0 - a.0) + (b.1 - a.1) * (b.1 - a.1),
            b.dist_sq(a) == (a.0 - b.0) * (a.0 - b.0) + (a.1 - b.1) * (a.1 - b.1),
    ;
}

/// Where the target lies more than half of one away from the tracer along one
/// of the axes, a jump by a ratio from zero to one ends at the distance zero
/// exactly where the ratio is one. Nearer targets are left out: rounding takes
/// the tracer onto them before the ratio reaches one, and a tracer that
/// stands on its target stays there at every ratio.
pub proof fn law_only_full_jump_arrives(a: Point, b: Point, r: int)
    requires
        0 <= r <= ONE,
        2 * (b.0 - a.0) > ONE || 2 * (a.0 - b.0) > ONE || 2 * (b.1 - a.1) > ONE || 2 * (a.1
            - b.1) > ONE,
    ensures
        a.jump_spec(b, r).dist_spec(b) == 0 <==> r == ONE,
{
    law_jump_ends(a, b);
    law_dist_zero(a.jump_spec(b, r), b);
    if r < ONE {
        if 2 * (b.0 - a.0) > ONE || 2 * (a.0 - b.0) > ONE {
            lemma_short_of_target(a.0, b.0, r);
        } else {
            lemma_short_of_target(a.1, b.1, r);
        }
    }
}

/// A vertex lies farther than `d` from `p`, by `Point::dist`, exactly where
/// its true distance exceeds `d`: where the square of the distance exceeds
/// the square of `d`, or `d` is negative.
pub proof fn law_dist_exceeds(p: Point, v: Point, d: int)
    requires
        d < i64::MAX,
    ensures
        p.dist_spec(v) > d <==> (d < 0 || p.dist_sq(v) > d * d),
{
    let s = p.dist_sq(v);
    lemma_ceil_sqrt(s);
    if d >= 0 {
        lemma_ceil_sqrt_exceeds(s, d);
    }
}

/// Bringing a jump ratio into its range a second time changes nothing, and
/// neither does it after `add_jump` or `set_jump`, which leave the ratio in
/// its range.
pub proof fn law_constrain_jump_idempotent(jump_size: int, change: int)
    ensures
        clamp_unit(clamp_unit(jump_size)) == clamp_unit(jump_size),
        clamp_unit(settle(jump_size + change)) == settle(jump_size + change),
        0 <= clamp_unit(jump_size) <= ONE,
{
}

/// A ratio of whole hundredths from zero to one is kept as it is by
/// `add_jump` with the change zero: adding a hundredth a hundred times to
/// zero arrives at one exactly.
pub proof fn law_settle_keeps_hundredths(k: int)
    requires
        0 <= k <= 100,
    ensures
        settle(k * 10_000) == k * 10_000,
{
    assert(granule(2) == 10_000) by {
        reveal_with_fuel(pow, 5);
    }
    lemma_round_div_multiple(k, 10_000);
}

/// The choices determine the walk: two paths that follow the same choices
/// among the same vertices with the same ratio are the same path.
pub proof fn law_walk_determined(
    one: Seq<(Point, Point)>,
    other: Seq<(Point, Point)>,
    vertices: Seq<Point>,
    ratio: int,
    choices: Seq<usize>,
)
    requires
        follows(one, vertices, ratio, choices),
        follows(other, vertices, ratio, choices),
    ensures
        one == other,
{
    assert forall|i: int| 0 <= i < one.len() implies one[i] == other[i] by {
        lemma_walk_agrees(one, other, vertices, ratio, choices, i);
    }
    assert(one =~= other);
}

/// Two paths that follow the same choices agree up to step `i`.
proof fn lemma_walk_agrees(
    one: Seq<(Point, Point)>,
    other: Seq<(Point, Point)>,
    vertices: Seq<Point>,
    ratio: int,
    choices: Seq<usize>,
    i: int,
)
    requires
        follows(one, vertices, ratio, choices),
        follows(other, vertices, ratio, choices),
        0 <= i < one.len(),
    ensures
        one[i] == other[i],
    decreases i,
{
    if i > 0 {
        lemma_walk_agrees(one, other, vertices, ratio, choices, i - 1);
    }
    assert(is_step(one, ratio, i));
    assert(is_step(other, ratio, i));
    assert(one[i].1 == other[i].1);
}

/// `p` lies in the rectangle between the corners `low` and `high`.
pub open spec fn in_box(p: Point, low: Point, high: Point) -> bool {
    low.0 <= p.0 <= high.0 && low.1 <= p.1 <= high.1
}

/// A jump by a ratio from zero to one ends in every rectangle that holds
/// both the tracer and its target.
proof fn lemma_jump_stays_in_box(a: Point, b: Point, r: int, low: Point, high: Point)
    requires
        0 <= r <= ONE,
        in_box(a, low, high),
        in_box(b, low, high),
    ensures
        in_box(a.jump_spec(b, r), low, high),
{
    lemma_covered(b.0 - a.0, r, r);
    lemma_covered(b.1 - a.1, r, r);
}

/// Step `i` of a walk with a jump ratio from zero to one ends in every
/// rectangle that holds the starting point and all the vertices.
proof fn lemma_step_stays_in_box(
    path: Seq<(Point, Point)>,
    vertices: Seq<Point>,
    ratio: int,
    low: Point,
    high: Point,
    i: int,
)
    requires
        is_walk(path, vertices, ratio),
        0 <= ratio <= ONE,
        in_box(tracer_start(), low, high),
        forall|k: int| 0 <= k < vertices.len() ==> in_box(#[trigger] vertices[k], low, high),
        0 <= i < path.len(),
    ensures
        in_box(path[i].0, low, high),
    decreases i,
{
    if i > 0 {
        lemma_step_stays_in_box(path, vertices, ratio, low, high, i - 1);
    }
    assert(vertices.contains(path[i].1) && is_step(path, ratio, i));
    lemma_jump_stays_in_box(tracer_before(path, i), path[i].1, ratio, low, high);
}

/// A walk with a jump ratio from zero to one never leaves a rectangle that
/// holds the starting point and all the vertices.
pub proof fn law_walk_stays_in_box(
    path: Seq<(Point, Point)>,
    vertices: Seq<Point>,
    ratio: int,
    low: Point,
    high: Point,
)
    requires
        is_walk(path, vertices, ratio),
        0 <= ratio <= ONE,
        in_box(tracer_start(), low, high),
        forall|k: int| 0 <= k < vertices.len() ==> in_box(#[trigger] vertices[k], low, high),
    ensures
        forall|i: int| 0 <= i < path.len() ==> in_box((#[trigger] path[i]).0, low, high),
{
    assert forall|i: int| 0 <= i < path.len() implies in_box((#[trigger] path[i]).0, low, high) by {
        lemma_step_stays_in_box(path, vertices, ratio, low, high, i);
    }
}

/// A click selects the slot under whose drawn field the cursor stands: the
/// field of a slot holds a horizontal position exactly where the position
/// lies between the left edge of the drawn field and its right edge.
pub proof fn law_click_meets_drawn_field(controls: Controls, k: nat, x: int)
    requires
        k < SLOT_COUNT,
    ensures
        controls.slot_holds(k, x) <==> controls.slot_field_spec(k).0 <= x
            < controls.slot_field_spec(k).0 + controls.slot_field_spec(k).2,
        controls.slot_under_spec(x) == Some(k as usize) <==> controls.slot_holds(k, x),
{
    let width = controls.field_width();
    assert(0 <= width <= 0xffff_ffff * 60_000 && 0 <= width * k <= 9 * width && width * (k + 1)
        == width * k + width) by (nonlinear_arith)
        requires
            width == controls.width * 60_000,
            0 <= controls.width <= 0xffff_ffff,
            0 <= k <= 9,
    ;
    if 0 <= x - MARGIN < SLOT_COUNT * width {
        let q = (x - MARGIN) / width;
        lemma_fundamental_div_mod(x - MARGIN, width);
        lemma_mod_bound(x - MARGIN, width);
        assert(0 <= q < 10) by (nonlinear_arith)
            requires
                x - MARGIN == width * q + (x - MARGIN) % width,
                0 <= (x - MARGIN) % width < width,
                0 <= x - MARGIN < 10 * width,
        ;
        assert(width * (q + 1) == width * q + width) by (nonlinear_arith);
        if q < k {
            assert(width * (q + 1) <= width * k) by (nonlinear_arith)
                requires
                    q + 1 <= k,
                    width >= 0,
            ;
        } else if q > k {
            assert(width * (k + 1) <= width * q) by (nonlinear_arith)
                requires
                    k + 1 <= q,
                    width >= 0,
            ;
        }
    } else {
        assert(width * (k + 1) <= 10 * width) by (nonlinear_arith)
            requires
                k + 1 <= 10,
                width >= 0,
        ;
    }
}

/// A colour with a hue from zero up to 360 degrees and with saturation and
/// value from zero to one has its three channels from zero to one, and its
/// largest channel is the value.
pub proof fn law_from_hsv_in_range(hsv: HSV)
    requires
        0 <= hsv.0 < 6 * SECTOR,
        0 <= hsv.1 <= ONE,
        0 <= hsv.2 <= ONE,
    ensures
        0 <= RGB::from_hsv_spec(hsv).0 <= hsv.2,
        0 <= RGB::from_hsv_spec(hsv).1 <= hsv.2,
        0 <= RGB::from_hsv_spec(hsv).2 <= hsv.2,
        RGB::from_hsv_spec(hsv).0 == hsv.2 || RGB::from_hsv_spec(hsv).1 == hsv.2
            || RGB::from_hsv_spec(hsv).2 == hsv.2,
{
    let one = ONE as int;
    let s = hsv.1 as int;
    let v = hsv.2 as int;
    let sector = SECTOR as int;
    assert(0 <= s * v <= one * v) by (nonlinear_arith)
        requires
            0 <= s <= one,
            0 <= v,
    ;
    lemma_round_div_monotonic(0, s * v, one);
    lemma_round_div_monotonic(s * v, one * v, one);
    assert(one * v == v * one) by (nonlinear_arith);
    lemma_round_div_multiple(v, one);
    let c = product(s, v);
    assert(0 <= c <= v);
    let w = wedge(hsv.0 as int);
    assert(0 <= w <= sector);
    assert(0 <= c * w <= c * sector) by (nonlinear_arith)
        requires
            0 <= c,
            0 <= w <= sector,
    ;
    lemma_round_div_monotonic(0, c * w, sector);
    lemma_round_div_monotonic(c * w, c * sector, sector);
    lemma_round_div_multiple(c, sector);
    let x = second_channel(c, hsv.0 as int);
    assert(0 <= x <= c);
}

} // verus!
