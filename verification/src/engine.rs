//! Measures between bodies.

use crate::body::Body;
use crate::entity::Entity;
use crate::numeric::{floor_sqrt, isqrt, lemma_product_bound};
use crate::POSITION_MAX;
use vstd::prelude::*;

verus! {

/// The distance of two bodies, rounded down.
pub open spec fn distance_between(a: Body, b: Body) -> int {
    floor_sqrt(b.pos.minus(a.pos).norm_squared())
}

/// Measures the distance of two bodies, rounded down to whole thousandths.
pub fn distance(e1: &Entity, e2: &Entity) -> (d: i64)
    ensures
        d == distance_between(e1@, e2@),
        0 <= d,
{
    let (p1, _) = e1.get_pose();
    let (p2, _) = e2.get_pose();
    let dx: i128 = p2.x as i128 - p1.x as i128;
    let dy: i128 = p2.y as i128 - p1.y as i128;
    proof {
        lemma_product_bound(dx as int, dx as int, 2 * POSITION_MAX, 2 * POSITION_MAX);
        lemma_product_bound(dy as int, dy as int, 2 * POSITION_MAX, 2 * POSITION_MAX);
        assert(0 <= dx * dx) by (nonlinear_arith);
        assert(0 <= dy * dy) by (nonlinear_arith);
    }
    let n: i128 = dx * dx + dy * dy;
    let r: u64 = isqrt(n as u128);
    proof {
        if r > 4 * POSITION_MAX {
            assert((4 * POSITION_MAX) * (4 * POSITION_MAX) <= r * r) by (nonlinear_arith)
                requires
                    4 * POSITION_MAX <= r,
            ;
        }
    }
    r as i64
}

} // verus!
