//! Overlap of an oriented rectangle with a disc.

use crate::numeric::{clamp_to, div_trunc, lemma_div_trunc_bound, lemma_product_bound};
use crate::vector::{Vec2, Vector};
use crate::HEADING_UNIT;
use vstd::prelude::*;

verus! {

/// Largest coordinate, half extent or radius that the overlap test accepts.
pub const EXTENT_MAX: i64 = 2_000_000_000_000;

/// `p` seen from a frame with origin `center` whose x-axis points along
/// `heading`: the offset from `center`, turned back by the heading's angle.
pub open spec fn to_local(p: Vector, center: Vector, heading: Vector) -> Vector {
    let rel = p.minus(center);
    Vector {
        x: div_trunc(rel.dot(heading), HEADING_UNIT as int),
        y: div_trunc(rel.dot(heading.perp()), HEADING_UNIT as int),
    }
}

/// The point of the axis-aligned box `[-half_width, half_width] x
/// [-half_height, half_height]` that is nearest to `local`.
pub open spec fn nearest_in_box(local: Vector, half_width: int, half_height: int) -> Vector {
    Vector {
        x: clamp_to(local.x, -half_width, half_width),
        y: clamp_to(local.y, -half_height, half_height),
    }
}

/// Whether the disc around `circle` with the given radius overlaps the
/// rectangle with the given center, heading and half extents: the nearest
/// point of the rectangle is closer to the disc's center than the radius.
pub open spec fn box_hits_circle(
    center: Vector,
    heading: Vector,
    half_width: int,
    half_height: int,
    circle: Vector,
    radius: int,
) -> bool {
    let local = to_local(circle, center, heading);
    let nearest = nearest_in_box(local, half_width, half_height);
    radius > 0 && nearest.minus(local).norm_squared() < radius * radius
}

/// Moving the rectangle and the disc by the same vector does not change
/// whether they overlap.
pub proof fn lemma_overlap_shift_invariant(
    center: Vector,
    heading: Vector,
    half_width: int,
    half_height: int,
    circle: Vector,
    radius: int,
    shift: Vector,
)
    ensures
        box_hits_circle(
            center.plus(shift),
            heading,
            half_width,
            half_height,
            circle.plus(shift),
            radius,
        ) == box_hits_circle(center, heading, half_width, half_height, circle, radius),
{
    assert(circle.plus(shift).minus(center.plus(shift)) == circle.minus(center));
}

/// The inputs for which the overlap test stays within machine integers.
pub open spec fn overlap_query_in_range(
    center: Vector,
    heading: Vector,
    half_width: int,
    half_height: int,
    circle: Vector,
    radius: int,
) -> bool {
    &&& center.within(EXTENT_MAX as int)
    &&& circle.within(EXTENT_MAX as int)
    &&& heading.within(HEADING_UNIT as int)
    &&& 0 <= half_width <= EXTENT_MAX
    &&& 0 <= half_height <= EXTENT_MAX
    &&& -EXTENT_MAX <= radius <= EXTENT_MAX
}

/// One coordinate of `to_local`: the projection of `(rel_x, rel_y)` on the
/// axis `(axis_x, axis_y)`, in the axis' own unit.
fn project(rel_x: i128, rel_y: i128, axis_x: i64, axis_y: i64) -> (r: i128)
    requires
        -2 * EXTENT_MAX <= rel_x <= 2 * EXTENT_MAX,
        -2 * EXTENT_MAX <= rel_y <= 2 * EXTENT_MAX,
        -HEADING_UNIT <= axis_x <= HEADING_UNIT,
        -HEADING_UNIT <= axis_y <= HEADING_UNIT,
    ensures
        r == div_trunc(rel_x * axis_x + rel_y * axis_y, HEADING_UNIT as int),
        -4 * EXTENT_MAX <= r <= 4 * EXTENT_MAX,
{
    proof {
        lemma_product_bound(rel_x as int, axis_x as int, 2 * EXTENT_MAX, HEADING_UNIT as int);
        lemma_product_bound(rel_y as int, axis_y as int, 2 * EXTENT_MAX, HEADING_UNIT as int);
        lemma_div_trunc_bound(
            rel_x * axis_x + rel_y * axis_y,
            HEADING_UNIT as int,
            4 * EXTENT_MAX,
        );
    }
    let along: i128 = rel_x * (axis_x as i128) + rel_y * (axis_y as i128);
    along / (HEADING_UNIT as i128)
}

/// How far `v` lies outside `[-half, half]`, with its sign.
fn excess(v: i128, half: i64) -> (e: i128)
    requires
        -4 * EXTENT_MAX <= v <= 4 * EXTENT_MAX,
        0 <= half <= EXTENT_MAX,
    ensures
        e == clamp_to(v as int, -half, half as int) - v,
        -4 * EXTENT_MAX <= e <= 4 * EXTENT_MAX,
{
    let h: i128 = half as i128;
    if v < -h {
        -h - v
    } else if v > h {
        h - v
    } else {
        0
    }
}

/// Tests whether a disc overlaps an oriented rectangle.
pub fn rect_hits_circle(
    center: Vec2,
    heading: Vec2,
    half_width: i64,
    half_height: i64,
    circle: Vec2,
    radius: i64,
) -> (hit: bool)
    requires
        overlap_query_in_range(
            center@,
            heading@,
            half_width as int,
            half_height as int,
            circle@,
            radius as int,
        ),
    ensures
        hit == box_hits_circle(
            center@,
            heading@,
            half_width as int,
            half_height as int,
            circle@,
            radius as int,
        ),
{
    if radius <= 0 {
        return false;
    }
    let rel_x: i128 = circle.x as i128 - center.x as i128;
    let rel_y: i128 = circle.y as i128 - center.y as i128;
    let local_x: i128 = project(rel_x, rel_y, heading.x, heading.y);
    let neg_y: i64 = -heading.y;
    let local_y: i128 = project(rel_x, rel_y, neg_y, heading.x);
    let ex: i128 = excess(local_x, half_width);
    let ey: i128 = excess(local_y, half_height);
    proof {
        lemma_product_bound(ex as int, ex as int, 4 * EXTENT_MAX, 4 * EXTENT_MAX);
        lemma_product_bound(ey as int, ey as int, 4 * EXTENT_MAX, 4 * EXTENT_MAX);
        lemma_product_bound(radius as int, radius as int, EXTENT_MAX as int, EXTENT_MAX as int);
    }
    let r: i128 = radius as i128;
    ex * ex + ey * ey < r * r
}

} // verus!
