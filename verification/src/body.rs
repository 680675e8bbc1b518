//! The mathematical model of a body and of its physics, and what holds of it.

use crate::collision::box_hits_circle;
use crate::entity::EntityType;
use crate::numeric::{
    div_trunc, floor_sqrt, lemma_component_below_sqrt, lemma_div_trunc_bound,
    lemma_div_trunc_odd, lemma_div_trunc_sign, lemma_floor_sqrt_correct, lemma_product_bound,
    saturate,
};
use crate::vector::Vector;
use crate::{
    FORCE_MAX, G_DENOMINATOR, G_NUMERATOR, HEADING_UNIT, MASS_MAX, MICROS_PER_SECOND,
    MIN_DISTANCE_SQUARED, MISSILE_HALF_HEIGHT, MISSILE_HALF_WIDTH, POSITION_MAX, RADIUS_MAX,
    STATIONARY_SPEED_SQUARED, VELOCITY_MAX, WINDOW_HEIGHT, WINDOW_WIDTH,
};
use vstd::arithmetic::div_mod::{lemma_div_is_ordered, lemma_div_pos_is_pos};
use vstd::prelude::*;

verus! {

/// The mathematical model of a body.
pub struct Body {
    pub kind: EntityType,
    pub pos: Vector,
    pub vel: Vector,
    pub heading: Vector,
    pub mass: int,
    pub radius: int,
}

impl Body {
    /// What holds of every body: positive bounded mass, a radius that is zero
    /// exactly for the missile, and bounded position, velocity and heading.
    pub open spec fn valid(self) -> bool {
        &&& 1 <= self.mass <= MASS_MAX
        &&& 0 <= self.radius <= RADIUS_MAX
        &&& (self.kind == EntityType::Missile <==> self.radius == 0)
        &&& self.pos.within(POSITION_MAX as int)
        &&& self.vel.within(VELOCITY_MAX as int)
        &&& self.heading.within(HEADING_UNIT as int)
    }

    /// The heading scaled to the missile's half width, and its perpendicular
    /// scaled to the half height, added up: the way from the stored position,
    /// which is a corner of the missile's box, to the box's center.
    pub open spec fn corner_to_center(self) -> Vector {
        let along = Vector {
            x: div_trunc(self.heading.x * MISSILE_HALF_WIDTH, HEADING_UNIT as int),
            y: div_trunc(self.heading.y * MISSILE_HALF_WIDTH, HEADING_UNIT as int),
        };
        let across = Vector {
            x: div_trunc(self.heading.perp().x * MISSILE_HALF_HEIGHT, HEADING_UNIT as int),
            y: div_trunc(self.heading.perp().y * MISSILE_HALF_HEIGHT, HEADING_UNIT as int),
        };
        along.plus(across)
    }

    /// The center of the missile's box.
    pub open spec fn box_center(self) -> Vector {
        self.pos.plus(self.corner_to_center())
    }

    /// Whether the missile's box overlaps the disc of `other`.
    pub open spec fn hits(self, other: Body) -> bool {
        box_hits_circle(
            self.box_center(),
            self.heading,
            MISSILE_HALF_WIDTH as int,
            MISSILE_HALF_HEIGHT as int,
            other.pos,
            other.radius,
        )
    }

    /// The velocity after `force` has acted for `dt` microseconds: the
    /// velocity grows by force times time over mass, rounded toward zero,
    /// and each component stops at the velocity limit.
    pub open spec fn accelerated(self, force: Vector, dt: int) -> Body {
        Body {
            vel: Vector {
                x: saturate(
                    self.vel.x + div_trunc(force.x * dt, self.mass * MICROS_PER_SECOND),
                    VELOCITY_MAX as int,
                ),
                y: saturate(
                    self.vel.y + div_trunc(force.y * dt, self.mass * MICROS_PER_SECOND),
                    VELOCITY_MAX as int,
                ),
            },
            ..self
        }
    }

    /// Whether the body moves fast enough for its velocity to set its heading.
    pub open spec fn is_moving(self) -> bool {
        self.vel.norm_squared() > STATIONARY_SPEED_SQUARED
    }

    /// The body after coasting for `dt` microseconds: the position grows by
    /// velocity times time, rounded toward zero, and stops at the position
    /// limit; the heading turns to the velocity's direction unless the body
    /// is stationary.
    pub open spec fn moved(self, dt: int) -> Body {
        Body {
            pos: Vector {
                x: saturate(
                    self.pos.x + div_trunc(self.vel.x * dt, MICROS_PER_SECOND as int),
                    POSITION_MAX as int,
                ),
                y: saturate(
                    self.pos.y + div_trunc(self.vel.y * dt, MICROS_PER_SECOND as int),
                    POSITION_MAX as int,
                ),
            },
            heading: if self.is_moving() {
                direction_of(self.vel)
            } else {
                self.heading
            },
            ..self
        }
    }

    /// The gravitational force that `other` exerts on this body: of
    /// magnitude `pull_magnitude`, pointing from this body to `other`.
    pub open spec fn pull(self, other: Body) -> Vector {
        let d = other.pos.minus(self.pos);
        let r2 = guarded_distance_squared(d);
        let r = floor_sqrt(r2);
        let f = pull_magnitude(self.mass, other.mass, r2);
        Vector { x: div_trunc(f * d.x, r), y: div_trunc(f * d.y, r) }
    }

    /// The sum of the pulls of the first `n` of `others`, added up in order.
    pub open spec fn net_pull_of_first(self, others: Seq<Body>, n: int) -> Vector
        decreases n,
    {
        if n <= 0 {
            Vector { x: 0, y: 0 }
        } else {
            add_forces(self.net_pull_of_first(others, n - 1), self.pull(others[n - 1]))
        }
    }

    /// The net gravitational force of `others` on this body.
    pub open spec fn net_pull(self, others: Seq<Body>) -> Vector {
        self.net_pull_of_first(others, others.len() as int)
    }

    /// Whether the body has left the play area.
    pub open spec fn out_of_bounds(self) -> bool {
        ||| self.pos.x > WINDOW_WIDTH
        ||| self.pos.x < 0
        ||| self.pos.y > WINDOW_HEIGHT
        ||| self.pos.y < 0
    }

    /// The body moved by `shift`, all else kept.
    pub open spec fn shifted(self, shift: Vector) -> Body {
        Body { pos: self.pos.plus(shift), ..self }
    }
}

/// The vector of length `HEADING_UNIT` along a non-zero `v`, each component
/// rounded toward zero.
pub open spec fn direction_of(v: Vector) -> Vector {
    let len = floor_sqrt(v.norm_squared());
    Vector {
        x: div_trunc(v.x * HEADING_UNIT, len),
        y: div_trunc(v.y * HEADING_UNIT, len),
    }
}

/// The squared length of `d`, but at least `MIN_DISTANCE_SQUARED`: what
/// gravity takes for the squared distance of two bodies, so that the force
/// stays finite however close they come.
pub open spec fn guarded_distance_squared(d: Vector) -> int {
    if d.norm_squared() < MIN_DISTANCE_SQUARED {
        MIN_DISTANCE_SQUARED as int
    } else {
        d.norm_squared()
    }
}

/// Newton's law, `G * m1 * m2 / r2`, rounded down and stopped at `FORCE_MAX`.
pub open spec fn pull_magnitude(m1: int, m2: int, r2: int) -> int {
    let f = (G_NUMERATOR * (m1 * m2)) / (G_DENOMINATOR * r2);
    if f > FORCE_MAX {
        FORCE_MAX as int
    } else {
        f
    }
}

/// The sum of two forces, each component stopped at the force limit.
pub open spec fn add_forces(a: Vector, b: Vector) -> Vector {
    Vector { x: saturate(a.x + b.x, FORCE_MAX as int), y: saturate(a.y + b.y, FORCE_MAX as int) }
}

/// The direction of a non-zero vector has components within the heading
/// unit, and its length used as divisor is positive.
pub proof fn lemma_direction_bounded(v: Vector)
    requires
        v.norm_squared() >= 1,
    ensures
        floor_sqrt(v.norm_squared()) >= 1,
        direction_of(v).within(HEADING_UNIT as int),
{
    let n = v.norm_squared();
    let len = floor_sqrt(n);
    lemma_floor_sqrt_correct(n);
    assert(0 <= v.x * v.x) by (nonlinear_arith);
    assert(0 <= v.y * v.y) by (nonlinear_arith);
    if len == 0 {
        assert((len + 1) * (len + 1) == 1) by (nonlinear_arith)
            requires
                len == 0,
        ;
    }
    lemma_component_below_sqrt(v.x, n, len);
    lemma_component_below_sqrt(v.y, n, len);
    lemma_product_bound(v.x, HEADING_UNIT as int, len, HEADING_UNIT as int);
    lemma_product_bound(v.y, HEADING_UNIT as int, len, HEADING_UNIT as int);
    assert(len * HEADING_UNIT == HEADING_UNIT * len) by (nonlinear_arith);
    lemma_div_trunc_bound(v.x * HEADING_UNIT, len, HEADING_UNIT as int);
    lemma_div_trunc_bound(v.y * HEADING_UNIT, len, HEADING_UNIT as int);
}

/// A force changes the velocity only, and leaves the body valid.
pub proof fn lemma_accelerated_valid(b: Body, force: Vector, dt: int)
    requires
        b.valid(),
    ensures
        b.accelerated(force, dt).valid(),
        b.accelerated(force, dt).mass == b.mass,
        b.accelerated(force, dt).kind == b.kind,
{
}

/// Coasting changes position and heading only, and leaves the body valid.
pub proof fn lemma_moved_valid(b: Body, dt: int)
    requires
        b.valid(),
    ensures
        b.moved(dt).valid(),
        b.moved(dt).mass == b.mass,
        b.moved(dt).kind == b.kind,
{
    if b.is_moving() {
        lemma_direction_bounded(b.vel);
    }
}

/// Without a force a body keeps its velocity, and a step then adds
/// velocity times time to its position, as long as the new position stays
/// within the position limit.
pub proof fn lemma_coasting_step(b: Body, dt: int)
    requires
        b.valid(),
        (Vector {
            x: b.pos.x + div_trunc(b.vel.x * dt, MICROS_PER_SECOND as int),
            y: b.pos.y + div_trunc(b.vel.y * dt, MICROS_PER_SECOND as int),
        }).within(POSITION_MAX as int),
    ensures
        b.accelerated(Vector { x: 0, y: 0 }, dt) == b,
        b.accelerated(Vector { x: 0, y: 0 }, dt).moved(dt).pos == (Vector {
            x: b.pos.x + div_trunc(b.vel.x * dt, MICROS_PER_SECOND as int),
            y: b.pos.y + div_trunc(b.vel.y * dt, MICROS_PER_SECOND as int),
        }),
{
    assert(0 * dt == 0) by (nonlinear_arith);
    assert(0int / (b.mass * MICROS_PER_SECOND) == 0) by (nonlinear_arith)
        requires
            b.mass >= 1,
            MICROS_PER_SECOND == 1_000_000,
    ;
}

/// After a step the heading is the direction of the velocity if the body
/// moves, and the heading of before if it is stationary.
pub proof fn lemma_heading_follows_velocity(b: Body, dt: int)
    requires
        b.valid(),
    ensures
        b.is_moving() ==> b.moved(dt).heading == direction_of(b.vel),
        !b.is_moving() ==> b.moved(dt).heading == b.heading,
        b.moved(dt).heading.within(HEADING_UNIT as int),
{
    lemma_moved_valid(b, dt);
}

/// Moving the missile and the other body by the same vector does not change
/// whether they collide.
pub proof fn lemma_hits_shift_invariant(missile: Body, other: Body, shift: Vector)
    ensures
        missile.shifted(shift).hits(other.shifted(shift)) == missile.hits(other),
{
    let a = other.shifted(shift).pos.minus(missile.shifted(shift).box_center());
    let b = other.pos.minus(missile.box_center());
    assert(a == b);
}

/// The magnitude of a pull is never negative and never above the force limit.
pub proof fn lemma_pull_magnitude_bounded(m1: int, m2: int, r2: int)
    requires
        0 <= m1,
        0 <= m2,
        0 < r2,
    ensures
        0 <= pull_magnitude(m1, m2, r2) <= FORCE_MAX,
{
    assert(0 <= G_NUMERATOR * (m1 * m2)) by (nonlinear_arith)
        requires
            0 <= m1,
            0 <= m2,
            G_NUMERATOR == 66_743,
    ;
    assert(0 < G_DENOMINATOR * r2) by (nonlinear_arith)
        requires
            0 < r2,
            G_DENOMINATOR == 10_000,
    ;
    lemma_div_pos_is_pos(G_NUMERATOR * (m1 * m2), G_DENOMINATOR * r2);
}

/// A heavier body pulls at least as hard from the same distance.
pub proof fn lemma_heavier_pulls_harder(m1: int, lighter: int, heavier: int, r2: int)
    requires
        0 <= m1,
        0 <= lighter <= heavier,
        0 < r2,
    ensures
        pull_magnitude(m1, lighter, r2) <= pull_magnitude(m1, heavier, r2),
{
    assert(G_NUMERATOR * (m1 * lighter) <= G_NUMERATOR * (m1 * heavier)) by (nonlinear_arith)
        requires
            0 <= m1,
            0 <= lighter <= heavier,
            G_NUMERATOR == 66_743,
    ;
    assert(0 < G_DENOMINATOR * r2) by (nonlinear_arith)
        requires
            0 < r2,
            G_DENOMINATOR == 10_000,
    ;
    lemma_div_is_ordered(
        G_NUMERATOR * (m1 * lighter),
        G_NUMERATOR * (m1 * heavier),
        G_DENOMINATOR * r2,
    );
}

/// Gravity attracts: each component of the pull of `b` on `a` has the sign
/// of the way from `a` to `b`, or is zero, and stays within the force limit.
pub proof fn lemma_pull_points_toward(a: Body, b: Body)
    requires
        a.valid(),
        b.valid(),
    ensures
        b.pos.x >= a.pos.x ==> a.pull(b).x >= 0,
        b.pos.x <= a.pos.x ==> a.pull(b).x <= 0,
        b.pos.y >= a.pos.y ==> a.pull(b).y >= 0,
        b.pos.y <= a.pos.y ==> a.pull(b).y <= 0,
        a.pull(b).within(FORCE_MAX as int),
{
    let d = b.pos.minus(a.pos);
    let r2 = guarded_distance_squared(d);
    let r = floor_sqrt(r2);
    let f = pull_magnitude(a.mass, b.mass, r2);
    lemma_pull_magnitude_bounded(a.mass, b.mass, r2);
    lemma_floor_sqrt_correct(r2);
    assert(0 <= d.x * d.x) by (nonlinear_arith);
    assert(0 <= d.y * d.y) by (nonlinear_arith);
    if r == 0 {
        assert((r + 1) * (r + 1) == 1) by (nonlinear_arith)
            requires
                r == 0,
        ;
    }
    lemma_component_below_sqrt(d.x, r2, r);
    lemma_component_below_sqrt(d.y, r2, r);
    lemma_product_bound(f, d.x, f, r);
    lemma_product_bound(f, d.y, f, r);
    lemma_div_trunc_bound(f * d.x, r, f);
    lemma_div_trunc_bound(f * d.y, r, f);
    lemma_div_trunc_sign(f, d.x, r);
    lemma_div_trunc_sign(f, d.y, r);
}

/// Two bodies pull on each other with opposite forces of equal size.
pub proof fn lemma_pull_is_mutual(a: Body, b: Body)
    ensures
        b.pull(a).x == -a.pull(b).x,
        b.pull(a).y == -a.pull(b).y,
{
    let d = b.pos.minus(a.pos);
    let e = a.pos.minus(b.pos);
    assert(e.x == -d.x && e.y == -d.y);
    assert(e.norm_squared() == d.norm_squared()) by (nonlinear_arith)
        requires
            e.x == -d.x,
            e.y == -d.y,
            e.norm_squared() == e.x * e.x + e.y * e.y,
            d.norm_squared() == d.x * d.x + d.y * d.y,
    ;
    let r2 = guarded_distance_squared(d);
    let r = floor_sqrt(r2);
    lemma_floor_sqrt_correct(r2);
    if r == 0 {
        assert((r + 1) * (r + 1) == 1) by (nonlinear_arith)
            requires
                r == 0,
        ;
    }
    assert(a.mass * b.mass == b.mass * a.mass) by (nonlinear_arith);
    let f = pull_magnitude(a.mass, b.mass, r2);
    assert(f * e.x == -(f * d.x)) by (nonlinear_arith)
        requires
            e.x == -d.x,
    ;
    assert(f * e.y == -(f * d.y)) by (nonlinear_arith)
        requires
            e.y == -d.y,
    ;
    lemma_div_trunc_odd(f * d.x, r);
    lemma_div_trunc_odd(f * d.y, r);
}

} // verus!
