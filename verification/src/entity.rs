//! The bodies of a level: their making, their physics, the play-area test
//! and the missile's collision test.

use crate::body::{direction_of, lemma_direction_bounded, pull_magnitude, Body};
use crate::collision::rect_hits_circle;
use crate::numeric::{
    div_trunc, isqrt, lemma_component_below_sqrt, lemma_div_trunc_bound, lemma_product_bound,
    lemma_scaled_quotient, saturate, saturate_i64,
};
use crate::vector::{Vec2, Vector};
use crate::{
    ASTEROID_DENSITY, FORCE_MAX, G_DENOMINATOR, G_NUMERATOR, HEADING_UNIT, MASS_MAX,
    MICROS_PER_SECOND, MIN_DISTANCE_SQUARED, MISSILE_HALF_HEIGHT, MISSILE_HALF_WIDTH,
    MISSILE_MASS, PI_DENOMINATOR, PI_NUMERATOR, PLANET_DENSITY, POSITION_MAX, RADIUS_MAX,
    STATIONARY_SPEED_SQUARED, SUBUNITS, UFO_MASS, UFO_RADIUS, VELOCITY_MAX, WINDOW_HEIGHT,
    WINDOW_WIDTH,
};
use vstd::arithmetic::div_mod::{
    lemma_div_is_ordered_by_denominator, lemma_div_pos_is_pos, lemma_fundamental_div_mod,
    lemma_mod_bound,
};
use vstd::prelude::*;

verus! {

#[derive(Debug, Clone, Copy, PartialEq, Eq, Structural)]
pub enum EntityType {
    Missile,
    Planet,
    Asteroid,
    Ufo,
}

/// The models of a list of entities, in order.
pub open spec fn bodies(entities: Seq<Entity>) -> Seq<Body> {
    Seq::new(entities.len(), |i: int| entities[i]@)
}

/// Why a body or a level was refused.
#[derive(Debug, Clone, Copy, PartialEq, Eq, Structural)]
pub enum ConfigError {
    /// A position component beyond `POSITION_MAX`.
    PositionOutOfRange,
    /// A velocity component, or a launch speed, beyond `VELOCITY_MAX`.
    VelocityOutOfRange,
    /// A launch heading that is zero or has a component beyond `HEADING_UNIT`.
    InvalidHeading,
    /// A radius that is not positive or exceeds `RADIUS_MAX`.
    InvalidRadius,
    /// A radius whose disc has a mass below one or above `MASS_MAX`.
    InvalidMass,
    /// A body at the missile's position, where gravity is singular.
    CoincidentBodies,
}

/// The heading along the x-axis.
pub open spec fn heading_east() -> Vector {
    Vector { x: HEADING_UNIT as int, y: 0 }
}

/// The mass of a disc: density times radius squared times pi, rounded down.
pub open spec fn disc_mass(density: int, radius: int) -> int {
    (density * (radius * radius) * PI_NUMERATOR) / (PI_DENOMINATOR * (SUBUNITS * SUBUNITS))
}

/// Why a position is refused, if it is.
pub open spec fn position_error(x: int, y: int) -> Option<ConfigError> {
    if (Vector { x, y }).within(POSITION_MAX as int) {
        None
    } else {
        Some(ConfigError::PositionOutOfRange)
    }
}

/// Why a velocity is refused, if it is.
pub open spec fn velocity_error(vx: int, vy: int) -> Option<ConfigError> {
    if (Vector { x: vx, y: vy }).within(VELOCITY_MAX as int) {
        None
    } else {
        Some(ConfigError::VelocityOutOfRange)
    }
}

/// Why a disc of the given density and radius is refused, if it is.
pub open spec fn disc_error(density: int, radius: int) -> Option<ConfigError> {
    if radius <= 0 || radius > RADIUS_MAX {
        Some(ConfigError::InvalidRadius)
    } else if disc_mass(density, radius) < 1 || disc_mass(density, radius) > MASS_MAX {
        Some(ConfigError::InvalidMass)
    } else {
        None
    }
}

/// The first of two refusals.
pub open spec fn first_error(a: Option<ConfigError>, b: Option<ConfigError>) -> Option<
    ConfigError,
> {
    if a is Some {
        a
    } else {
        b
    }
}

/// Why a missile is refused, if it is: for its position, else its speed,
/// else its heading.
pub open spec fn missile_error(x: int, y: int, v: int, heading: Vector) -> Option<ConfigError> {
    if position_error(x, y) is Some {
        position_error(x, y)
    } else if v < -VELOCITY_MAX || v > VELOCITY_MAX {
        Some(ConfigError::VelocityOutOfRange)
    } else if !heading.within(HEADING_UNIT as int) || (heading.x == 0 && heading.y == 0) {
        Some(ConfigError::InvalidHeading)
    } else {
        None
    }
}

/// A missile at `(x, y)` that points along `heading` and flies at speed `v`.
pub open spec fn missile_body(x: int, y: int, v: int, heading: Vector) -> Body {
    Body {
        kind: EntityType::Missile,
        pos: Vector { x, y },
        vel: Vector {
            x: div_trunc(heading.x * v, HEADING_UNIT as int),
            y: div_trunc(heading.y * v, HEADING_UNIT as int),
        },
        heading,
        mass: MISSILE_MASS as int,
        radius: 0,
    }
}

/// Why a planet is refused, if it is: for its position, else its disc.
pub open spec fn planet_error(x: int, y: int, radius: int) -> Option<ConfigError> {
    first_error(position_error(x, y), disc_error(PLANET_DENSITY as int, radius))
}

/// A planet at rest at `(x, y)`.
pub open spec fn planet_body(x: int, y: int, radius: int) -> Body {
    Body {
        kind: EntityType::Planet,
        pos: Vector { x, y },
        vel: Vector { x: 0, y: 0 },
        heading: heading_east(),
        mass: disc_mass(PLANET_DENSITY as int, radius),
        radius,
    }
}

/// Why an asteroid is refused, if it is: for its position, else its
/// velocity, else its disc.
pub open spec fn asteroid_error(x: int, y: int, vx: int, vy: int, radius: int) -> Option<
    ConfigError,
> {
    first_error(
        position_error(x, y),
        first_error(velocity_error(vx, vy), disc_error(ASTEROID_DENSITY as int, radius)),
    )
}

/// An asteroid at `(x, y)` with velocity `(vx, vy)`.
pub open spec fn asteroid_body(x: int, y: int, vx: int, vy: int, radius: int) -> Body {
    Body {
        kind: EntityType::Asteroid,
        pos: Vector { x, y },
        vel: Vector { x: vx, y: vy },
        heading: heading_east(),
        mass: disc_mass(ASTEROID_DENSITY as int, radius),
        radius,
    }
}

/// Why a target is refused, if it is: for its position, else its velocity.
pub open spec fn ufo_error(x: int, y: int, vx: int, vy: int) -> Option<ConfigError> {
    first_error(position_error(x, y), velocity_error(vx, vy))
}

/// A target at `(x, y)` with velocity `(vx, vy)`, heading along its
/// velocity, or along the x-axis if it is stationary.
pub open spec fn ufo_body(x: int, y: int, vx: int, vy: int) -> Body {
    let vel = Vector { x: vx, y: vy };
    Body {
        kind: EntityType::Ufo,
        pos: Vector { x, y },
        vel,
        heading: if vel.norm_squared() > STATIONARY_SPEED_SQUARED {
            direction_of(vel)
        } else {
            heading_east()
        },
        mass: UFO_MASS as int,
        radius: UFO_RADIUS as int,
    }
}

/// What a constructor owes: the body, exactly when nothing is refused, and
/// else the refusal.
pub open spec fn built(
    result: Result<Entity, ConfigError>,
    error: Option<ConfigError>,
    body: Body,
) -> bool {
    match result {
        Ok(e) => error is None && e@ == body && body.valid(),
        Err(err) => error == Some(err),
    }
}

#[derive(Debug, Clone, Copy)]
pub struct Entity {
    e_type: EntityType,
    pos: Vec2,
    radius: i64,
    vel: Vec2,
    heading: Vec2,
    mass: i64,
}

impl View for Entity {
    type V = Body;

    closed spec fn view(&self) -> Body {
        Body {
            kind: self.e_type,
            pos: self.pos@,
            vel: self.vel@,
            heading: self.heading@,
            mass: self.mass as int,
            radius: self.radius as int,
        }
    }
}

/// `v * scale / HEADING_UNIT` for a heading component `v`.
fn scale_heading(v: i64, scale: i64) -> (r: i64)
    requires
        -HEADING_UNIT <= v <= HEADING_UNIT,
        0 <= scale <= RADIUS_MAX,
    ensures
        r == div_trunc(v * scale, HEADING_UNIT as int),
        -scale <= r <= scale,
{
    proof {
        lemma_product_bound(v as int, scale as int, HEADING_UNIT as int, scale as int);
        assert(HEADING_UNIT * scale == scale * HEADING_UNIT) by (nonlinear_arith);
        lemma_div_trunc_bound(v * scale, HEADING_UNIT as int, scale as int);
        lemma_product_bound(
            v as int,
            scale as int,
            HEADING_UNIT as int,
            RADIUS_MAX as int,
        );
    }
    let p: i128 = (v as i128) * (scale as i128);
    (p / (HEADING_UNIT as i128)) as i64
}

/// A missile that is not refused is valid.
pub proof fn lemma_missile_body_valid(x: int, y: int, v: int, heading: Vector)
    requires
        missile_error(x, y, v, heading) is None,
    ensures
        missile_body(x, y, v, heading).valid(),
{
    lemma_product_bound(heading.x, v, HEADING_UNIT as int, VELOCITY_MAX as int);
    lemma_product_bound(heading.y, v, HEADING_UNIT as int, VELOCITY_MAX as int);
    assert(HEADING_UNIT * VELOCITY_MAX == VELOCITY_MAX * HEADING_UNIT) by (nonlinear_arith);
    lemma_div_trunc_bound(heading.x * v, HEADING_UNIT as int, VELOCITY_MAX as int);
    lemma_div_trunc_bound(heading.y * v, HEADING_UNIT as int, VELOCITY_MAX as int);
}

/// A planet that is not refused is valid.
pub proof fn lemma_planet_body_valid(x: int, y: int, radius: int)
    requires
        planet_error(x, y, radius) is None,
    ensures
        planet_body(x, y, radius).valid(),
{
}

/// An asteroid that is not refused is valid.
pub proof fn lemma_asteroid_body_valid(x: int, y: int, vx: int, vy: int, radius: int)
    requires
        asteroid_error(x, y, vx, vy, radius) is None,
    ensures
        asteroid_body(x, y, vx, vy, radius).valid(),
{
}

/// A target that is not refused is valid.
pub proof fn lemma_ufo_body_valid(x: int, y: int, vx: int, vy: int)
    requires
        ufo_error(x, y, vx, vy) is None,
    ensures
        ufo_body(x, y, vx, vy).valid(),
{
    let vel = Vector { x: vx, y: vy };
    if vel.norm_squared() > STATIONARY_SPEED_SQUARED {
        lemma_direction_bounded(vel);
    }
}

/// One velocity component after a force component has acted on it.
fn velocity_after(v: i64, force: i64, dt: i64, mass: i64) -> (r: i64)
    requires
        1 <= mass <= MASS_MAX,
    ensures
        r == saturate(
            v + div_trunc(force * dt, mass * MICROS_PER_SECOND),
            VELOCITY_MAX as int,
        ),
        -VELOCITY_MAX <= r <= VELOCITY_MAX,
{
    let divisor: i128 = (mass as i128) * (MICROS_PER_SECOND as i128);
    proof {
        assert(1 <= mass * MICROS_PER_SECOND) by (nonlinear_arith)
            requires
                1 <= mass,
                MICROS_PER_SECOND == 1_000_000,
        ;
        lemma_product_bound(
            force as int,
            dt as int,
            0x8000_0000_0000_0000,
            0x8000_0000_0000_0000,
        );
        assert(0x8000_0000_0000_0000int * 0x8000_0000_0000_0000int
            == 0x4000_0000_0000_0000_0000_0000_0000_0000int) by (nonlinear_arith);
        assert(0x4000_0000_0000_0000_0000_0000_0000_0000int
            <= 0x4000_0000_0000_0000_0000_0000_0000_0000int * divisor) by (nonlinear_arith)
            requires
                1 <= divisor,
        ;
        lemma_div_trunc_bound(
            force * dt,
            divisor as int,
            0x4000_0000_0000_0000_0000_0000_0000_0000,
        );
    }
    let impulse: i128 = (force as i128) * (dt as i128);
    let dv: i128 = impulse / divisor;
    saturate_i64(v as i128 + dv, VELOCITY_MAX)
}

/// One position component after coasting at a velocity component.
fn position_after(p: i64, v: i64, dt: i64) -> (r: i64)
    ensures
        r == saturate(p + div_trunc(v * dt, MICROS_PER_SECOND as int), POSITION_MAX as int),
        -POSITION_MAX <= r <= POSITION_MAX,
{
    proof {
        lemma_product_bound(
            v as int,
            dt as int,
            0x8000_0000_0000_0000,
            0x8000_0000_0000_0000,
        );
        assert(0x8000_0000_0000_0000int * 0x8000_0000_0000_0000int
            == 0x4000_0000_0000_0000_0000_0000_0000_0000int) by (nonlinear_arith);
        lemma_div_trunc_bound(
            v * dt,
            MICROS_PER_SECOND as int,
            0x4000_0000_0000_0000_0000_0000_0000_0000,
        );
    }
    let travel: i128 = (v as i128) * (dt as i128);
    let step: i128 = travel / (MICROS_PER_SECOND as i128);
    saturate_i64(p as i128 + step, POSITION_MAX)
}

/// The heading along a velocity that is not zero.
fn direction(v: Vec2) -> (h: Vec2)
    requires
        v@.within(VELOCITY_MAX as int),
        v@.norm_squared() >= 1,
    ensures
        h@ == direction_of(v@),
        h@.within(HEADING_UNIT as int),
{
    let vx: i128 = v.x as i128;
    let vy: i128 = v.y as i128;
    proof {
        lemma_product_bound(vx as int, vx as int, VELOCITY_MAX as int, VELOCITY_MAX as int);
        lemma_product_bound(vy as int, vy as int, VELOCITY_MAX as int, VELOCITY_MAX as int);
        assert(0 <= vx * vx) by (nonlinear_arith);
        assert(0 <= vy * vy) by (nonlinear_arith);
    }
    let n: i128 = vx * vx + vy * vy;
    let len: u64 = isqrt(n as u128);
    proof {
        lemma_direction_bounded(v@);
        lemma_product_bound(
            vx as int,
            HEADING_UNIT as int,
            VELOCITY_MAX as int,
            HEADING_UNIT as int,
        );
        lemma_product_bound(
            vy as int,
            HEADING_UNIT as int,
            VELOCITY_MAX as int,
            HEADING_UNIT as int,
        );
    }
    let hx: i128 = (vx * (HEADING_UNIT as i128)) / (len as i128);
    let hy: i128 = (vy * (HEADING_UNIT as i128)) / (len as i128);
    Vec2 { x: hx as i64, y: hy as i64 }
}

/// Newton's law on two masses and a guarded squared distance.
fn magnitude(m1: i64, m2: i64, r2: i128) -> (f: i64)
    requires
        1 <= m1 <= MASS_MAX,
        1 <= m2 <= MASS_MAX,
        MIN_DISTANCE_SQUARED <= r2 <= 8 * (POSITION_MAX * POSITION_MAX),
    ensures
        f == pull_magnitude(m1 as int, m2 as int, r2 as int),
        0 <= f <= FORCE_MAX,
{
    proof {
        lemma_product_bound(m1 as int, m2 as int, MASS_MAX as int, MASS_MAX as int);
        assert(0 < m1 * m2) by (nonlinear_arith)
            requires
                1 <= m1,
                1 <= m2,
        ;
    }
    let p: i128 = (m1 as i128) * (m2 as i128);
    let d: i128 = (G_DENOMINATOR as i128) * r2;
    let q: i128 = p / d;
    let rem: i128 = p % d;
    proof {
        lemma_div_is_ordered_by_denominator(p as int, 10_000_000_000, d as int);
        lemma_fundamental_div_mod(p as int, d as int);
        lemma_mod_bound(p as int, d as int);
        lemma_div_pos_is_pos(p as int, d as int);
        lemma_product_bound(
            G_NUMERATOR as int,
            q as int,
            G_NUMERATOR as int,
            100_000_000_000_000_000_000_000_000,
        );
        lemma_product_bound(G_NUMERATOR as int, rem as int, G_NUMERATOR as int, d as int);
        assert(0 <= G_NUMERATOR * rem) by (nonlinear_arith)
            requires
                0 <= rem,
        ;
        assert(0 <= G_NUMERATOR * q) by (nonlinear_arith)
            requires
                0 <= q,
        ;
        lemma_div_pos_is_pos(G_NUMERATOR * rem, d as int);
        lemma_scaled_quotient(G_NUMERATOR as int, p as int, d as int);
    }
    let whole: i128 = (G_NUMERATOR as i128) * q;
    let part: i128 = ((G_NUMERATOR as i128) * rem) / d;
    let f: i128 = whole + part;
    if f > FORCE_MAX as i128 {
        FORCE_MAX
    } else {
        f as i64
    }
}

/// One component of a pull: the magnitude times the offset's share of the
/// distance.
fn along(f: i64, offset: i128, r: u64) -> (c: i64)
    requires
        0 <= f <= FORCE_MAX,
        1 <= r,
        -r <= offset <= r,
        r <= 4 * POSITION_MAX,
    ensures
        c == div_trunc(f * offset, r as int),
        -FORCE_MAX <= c <= FORCE_MAX,
{
    proof {
        lemma_product_bound(f as int, offset as int, f as int, r as int);
        lemma_div_trunc_bound(f * offset, r as int, f as int);
        lemma_product_bound(f as int, offset as int, FORCE_MAX as int, 4 * POSITION_MAX);
    }
    (((f as i128) * offset) / (r as i128)) as i64
}

impl Entity {
    #[verifier::type_invariant]
    pub open spec fn well_formed(self) -> bool {
        self@.valid()
    }

    pub fn get_entity_type(&self) -> (kind: EntityType)
        ensures
            kind == self@.kind,
            self@.valid(),
    {
        proof {
            use_type_invariant(self);
        }
        self.e_type
    }

    /// The position and the heading.
    pub fn get_pose(&self) -> (pose: (Vec2, Vec2))
        ensures
            pose.0@ == self@.pos,
            pose.1@ == self@.heading,
            self@.valid(),
    {
        proof {
            use_type_invariant(self);
        }
        (self.pos, self.heading)
    }

    pub fn get_velocity(&self) -> (vel: Vec2)
        ensures
            vel@ == self@.vel,
            self@.valid(),
    {
        proof {
            use_type_invariant(self);
        }
        self.vel
    }

    pub fn get_radius(&self) -> (radius: i64)
        ensures
            radius == self@.radius,
            self@.valid(),
    {
        proof {
            use_type_invariant(self);
        }
        self.radius
    }

    pub fn get_mass(&self) -> (mass: i64)
        ensures
            mass == self@.mass,
            self@.valid(),
    {
        proof {
            use_type_invariant(self);
        }
        self.mass
    }

    /// Moves the body along its velocity for `dt` microseconds and turns its
    /// heading to the velocity's direction, unless it is stationary.
    pub fn update_pos(&mut self, dt: i64)
        ensures
            final(self)@ == old(self)@.moved(dt as int),
    {
        proof {
            use_type_invariant(&*self);
        }
        let vx: i128 = self.vel.x as i128;
        let vy: i128 = self.vel.y as i128;
        proof {
            lemma_product_bound(vx as int, vx as int, VELOCITY_MAX as int, VELOCITY_MAX as int);
            lemma_product_bound(vy as int, vy as int, VELOCITY_MAX as int, VELOCITY_MAX as int);
        }
        if vx * vx + vy * vy > STATIONARY_SPEED_SQUARED as i128 {
            self.heading = direction(self.vel);
        }
        self.pos = Vec2 {
            x: position_after(self.pos.x, self.vel.x, dt),
            y: position_after(self.pos.y, self.vel.y, dt),
        };
    }

    /// Lets `force` act on the body for `dt` microseconds.
    pub fn apply_force(&mut self, force: Vec2, dt: i64)
        ensures
            final(self)@ == old(self)@.accelerated(force@, dt as int),
    {
        proof {
            use_type_invariant(&*self);
        }
        self.vel = Vec2 {
            x: velocity_after(self.vel.x, force.x, dt, self.mass),
            y: velocity_after(self.vel.y, force.y, dt, self.mass),
        };
    }

    /// The gravitational force that `other` exerts on this body.
    pub fn pull_from(&self, other: &Entity) -> (force: Vec2)
        ensures
            force@ == self@.pull(other@),
            force@.within(FORCE_MAX as int),
    {
        proof {
            use_type_invariant(self);
            use_type_invariant(other);
        }
        let dx: i128 = other.pos.x as i128 - self.pos.x as i128;
        let dy: i128 = other.pos.y as i128 - self.pos.y as i128;
        proof {
            lemma_product_bound(dx as int, dx as int, 2 * POSITION_MAX, 2 * POSITION_MAX);
            lemma_product_bound(dy as int, dy as int, 2 * POSITION_MAX, 2 * POSITION_MAX);
            assert(0 <= dx * dx) by (nonlinear_arith);
            assert(0 <= dy * dy) by (nonlinear_arith);
        }
        let n: i128 = dx * dx + dy * dy;
        let r2: i128 = if n < MIN_DISTANCE_SQUARED as i128 {
            MIN_DISTANCE_SQUARED as i128
        } else {
            n
        };
        let r: u64 = isqrt(r2 as u128);
        proof {
            lemma_component_below_sqrt(dx as int, r2 as int, r as int);
            lemma_component_below_sqrt(dy as int, r2 as int, r as int);
            if r == 0 {
                assert((r + 1) * (r + 1) == 1) by (nonlinear_arith)
                    requires
                        r == 0,
                ;
            }
            if r > 4 * POSITION_MAX {
                assert((4 * POSITION_MAX) * (4 * POSITION_MAX) <= r * r) by (nonlinear_arith)
                    requires
                        4 * POSITION_MAX <= r,
                ;
            }
        }
        let f: i64 = magnitude(self.mass, other.mass, r2);
        Vec2 { x: along(f, dx, r), y: along(f, dy, r) }
    }

    /// The net gravitational force of `entities` on this body, their pulls
    /// added up in the order of the list.
    pub fn net_gravity(&self, entities: &Vec<Entity>) -> (force: Vec2)
        ensures
            force@ == self@.net_pull(bodies(entities@)),
            force@.within(FORCE_MAX as int),
    {
        let mut fx: i64 = 0;
        let mut fy: i64 = 0;
        let mut i: usize = 0;
        while i < entities.len()
            invariant
                i <= entities.len(),
                -FORCE_MAX <= fx <= FORCE_MAX,
                -FORCE_MAX <= fy <= FORCE_MAX,
                (Vector { x: fx as int, y: fy as int }) == self@.net_pull_of_first(
                    bodies(entities@),
                    i as int,
                ),
            decreases entities.len() - i,
        {
            let f = self.pull_from(&entities[i]);
            fx = saturate_i64(fx as i128 + f.x as i128, FORCE_MAX);
            fy = saturate_i64(fy as i128 + f.y as i128, FORCE_MAX);
            i = i + 1;
        }
        Vec2 { x: fx, y: fy }
    }

    /// Lets the gravity of `entities` act on the body for `dt` microseconds.
    pub fn apply_gravity(&mut self, entities: &Vec<Entity>, dt: i64)
        ensures
            final(self)@ == old(self)@.accelerated(
                old(self)@.net_pull(bodies(entities@)),
                dt as int,
            ),
    {
        let force = self.net_gravity(entities);
        self.apply_force(force, dt);
    }

    /// Tells whether the body has left the play area.
    pub fn is_out_of_bounds(&self) -> (out: bool)
        ensures
            out == self@.out_of_bounds(),
    {
        self.pos.x > WINDOW_WIDTH || self.pos.x < 0 || self.pos.y > WINDOW_HEIGHT || self.pos.y
            < 0
    }

    /// Tests whether this missile's box overlaps the disc of `entity`.
    pub fn is_coliding(&self, entity: &Entity) -> (hit: bool)
        requires
            self@.kind == EntityType::Missile,
        ensures
            hit == self@.hits(entity@),
    {
        proof {
            use_type_invariant(self);
            use_type_invariant(entity);
        }
        let nhy: i64 = -self.heading.y;
        let ax: i64 = scale_heading(self.heading.x, MISSILE_HALF_WIDTH);
        let ay: i64 = scale_heading(self.heading.y, MISSILE_HALF_WIDTH);
        let cx: i64 = scale_heading(nhy, MISSILE_HALF_HEIGHT);
        let cy: i64 = scale_heading(self.heading.x, MISSILE_HALF_HEIGHT);
        let center = Vec2 { x: self.pos.x + (ax + cx), y: self.pos.y + (ay + cy) };
        rect_hits_circle(
            center,
            self.heading,
            MISSILE_HALF_WIDTH,
            MISSILE_HALF_HEIGHT,
            entity.pos,
            entity.radius,
        )
    }
}

fn position_in_range(x: i64, y: i64) -> (ok: bool)
    ensures
        ok == (position_error(x as int, y as int) is None),
{
    -POSITION_MAX <= x && x <= POSITION_MAX && -POSITION_MAX <= y && y <= POSITION_MAX
}

fn velocity_in_range(vx: i64, vy: i64) -> (ok: bool)
    ensures
        ok == (velocity_error(vx as int, vy as int) is None),
{
    -VELOCITY_MAX <= vx && vx <= VELOCITY_MAX && -VELOCITY_MAX <= vy && vy <= VELOCITY_MAX
}

/// The mass of a disc, or why the disc is refused.
fn mass_of_disc(density: i64, radius: i64) -> (r: Result<i64, ConfigError>)
    requires
        1 <= density <= PLANET_DENSITY,
    ensures
        match r {
            Ok(m) => disc_error(density as int, radius as int) is None && m == disc_mass(
                density as int,
                radius as int,
            ),
            Err(err) => disc_error(density as int, radius as int) == Some(err),
        },
{
    if radius <= 0 || radius > RADIUS_MAX {
        return Err(ConfigError::InvalidRadius);
    }
    proof {
        lemma_product_bound(radius as int, radius as int, RADIUS_MAX as int, RADIUS_MAX as int);
        assert(0 <= radius * radius) by (nonlinear_arith);
        lemma_product_bound(
            density as int,
            radius * radius,
            PLANET_DENSITY as int,
            RADIUS_MAX * RADIUS_MAX,
        );
        assert(0 <= density * (radius * radius)) by (nonlinear_arith)
            requires
                0 <= density,
                0 <= radius * radius,
        ;
        lemma_product_bound(
            density * (radius * radius),
            PI_NUMERATOR as int,
            PLANET_DENSITY * (RADIUS_MAX * RADIUS_MAX),
            PI_NUMERATOR as int,
        );
    }
    let area: i128 = (radius as i128) * (radius as i128);
    let numerator: i128 = (density as i128) * area * (PI_NUMERATOR as i128);
    let denominator: i128 = (PI_DENOMINATOR as i128) * ((SUBUNITS as i128) * (SUBUNITS as i128));
    let mass: i128 = numerator / denominator;
    if mass < 1 || mass > MASS_MAX as i128 {
        Err(ConfigError::InvalidMass)
    } else {
        Ok(mass as i64)
    }
}

/// Makes the missile: at `(x, y)`, pointing along `heading`, at speed `v`.
pub fn create_missile(x: i64, y: i64, v: i64, heading: Vec2) -> (r: Result<Entity, ConfigError>)
    ensures
        built(
            r,
            missile_error(x as int, y as int, v as int, heading@),
            missile_body(x as int, y as int, v as int, heading@),
        ),
{
    if !position_in_range(x, y) {
        return Err(ConfigError::PositionOutOfRange);
    }
    if v < -VELOCITY_MAX || v > VELOCITY_MAX {
        return Err(ConfigError::VelocityOutOfRange);
    }
    if heading.x < -HEADING_UNIT || heading.x > HEADING_UNIT || heading.y < -HEADING_UNIT
        || heading.y > HEADING_UNIT || (heading.x == 0 && heading.y == 0) {
        return Err(ConfigError::InvalidHeading);
    }
    proof {
        lemma_product_bound(heading.x as int, v as int, HEADING_UNIT as int, VELOCITY_MAX as int);
        lemma_product_bound(heading.y as int, v as int, HEADING_UNIT as int, VELOCITY_MAX as int);
        assert(HEADING_UNIT * VELOCITY_MAX == VELOCITY_MAX * HEADING_UNIT) by (nonlinear_arith);
        lemma_div_trunc_bound(heading.x * v, HEADING_UNIT as int, VELOCITY_MAX as int);
        lemma_div_trunc_bound(heading.y * v, HEADING_UNIT as int, VELOCITY_MAX as int);
    }
    let vx: i128 = ((heading.x as i128) * (v as i128)) / (HEADING_UNIT as i128);
    let vy: i128 = ((heading.y as i128) * (v as i128)) / (HEADING_UNIT as i128);
    Ok(
        Entity {
            e_type: EntityType::Missile,
            pos: Vec2 { x, y },
            vel: Vec2 { x: vx as i64, y: vy as i64 },
            heading,
            mass: MISSILE_MASS,
            radius: 0,
        },
    )
}

/// Makes a planet at rest at `(x, y)`.
pub fn create_planet(x: i64, y: i64, radius: i64) -> (r: Result<Entity, ConfigError>)
    ensures
        built(
            r,
            planet_error(x as int, y as int, radius as int),
            planet_body(x as int, y as int, radius as int),
        ),
{
    if !position_in_range(x, y) {
        return Err(ConfigError::PositionOutOfRange);
    }
    match mass_of_disc(PLANET_DENSITY, radius) {
        Err(err) => Err(err),
        Ok(mass) => Ok(
            Entity {
                e_type: EntityType::Planet,
                pos: Vec2 { x, y },
                vel: Vec2 { x: 0, y: 0 },
                heading: Vec2 { x: HEADING_UNIT, y: 0 },
                mass,
                radius,
            },
        ),
    }
}

/// Makes an asteroid at `(x, y)` with velocity `(vx, vy)`.
pub fn create_asteroid(x: i64, y: i64, vx: i64, vy: i64, radius: i64) -> (r: Result<
    Entity,
    ConfigError,
>)
    ensures
        built(
            r,
            asteroid_error(x as int, y as int, vx as int, vy as int, radius as int),
            asteroid_body(x as int, y as int, vx as int, vy as int, radius as int),
        ),
{
    if !position_in_range(x, y) {
        return Err(ConfigError::PositionOutOfRange);
    }
    if !velocity_in_range(vx, vy) {
        return Err(ConfigError::VelocityOutOfRange);
    }
    match mass_of_disc(ASTEROID_DENSITY, radius) {
        Err(err) => Err(err),
        Ok(mass) => Ok(
            Entity {
                e_type: EntityType::Asteroid,
                pos: Vec2 { x, y },
                vel: Vec2 { x: vx, y: vy },
                heading: Vec2 { x: HEADING_UNIT, y: 0 },
                mass,
                radius,
            },
        ),
    }
}

/// Makes the target at `(x, y)` with velocity `(vx, vy)`.
pub fn create_ufo(x: i64, y: i64, vx: i64, vy: i64) -> (r: Result<Entity, ConfigError>)
    ensures
        built(
            r,
            ufo_error(x as int, y as int, vx as int, vy as int),
            ufo_body(x as int, y as int, vx as int, vy as int),
        ),
{
    if !position_in_range(x, y) {
        return Err(ConfigError::PositionOutOfRange);
    }
    if !velocity_in_range(vx, vy) {
        return Err(ConfigError::VelocityOutOfRange);
    }
    let vel = Vec2 { x: vx, y: vy };
    proof {
        lemma_product_bound(vx as int, vx as int, VELOCITY_MAX as int, VELOCITY_MAX as int);
        lemma_product_bound(vy as int, vy as int, VELOCITY_MAX as int, VELOCITY_MAX as int);
    }
    let speed_squared: i128 = (vx as i128) * (vx as i128) + (vy as i128) * (vy as i128);
    let heading = if speed_squared > STATIONARY_SPEED_SQUARED as i128 {
        direction(vel)
    } else {
        Vec2 { x: HEADING_UNIT, y: 0 }
    };
    Ok(
        Entity {
            e_type: EntityType::Ufo,
            pos: Vec2 { x, y },
            vel,
            heading,
            mass: UFO_MASS,
            radius: UFO_RADIUS,
        },
    )
}

} // verus!
