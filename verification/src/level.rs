//! The state machine of a level: launch, tick, reload and advance.

use crate::body::{lemma_accelerated_valid, lemma_moved_valid, Body};
use crate::entity::{bodies, ConfigError, Entity, EntityType};
use crate::load_level::{
    lemma_accepted_level_valid, load_level_entities, missile_of, Level, SpaceData,
};
use crate::numeric::{div_trunc, lemma_div_trunc_bound, lemma_product_bound};
use crate::vector::{Vec2, Vector};
use crate::{HEADING_UNIT, MISSILE_THRUST};
use vstd::pervasive::unreached;
use vstd::prelude::*;

verus! {

#[derive(Debug, Clone, Copy, PartialEq, Eq, Structural)]
pub enum Phase {
    /// The missile is loaded and waits for its launch.
    Idle,
    /// The physics advance with every tick.
    Running,
    /// The level is about to start again. A state never rests here.
    Reloading,
    /// The target was hit: the state waits for the next level.
    Advancing,
}

/// What a tick led to.
#[derive(Debug, Clone, Copy, PartialEq, Eq, Structural)]
pub enum TransitionEvent {
    Nothing,
    OutOfBounds,
    HitTarget,
    HitObstacle,
}

/// Whether `others[i]` is the first body, in the order of the list, that the
/// missile hits.
pub open spec fn is_first_hit(missile: Body, others: Seq<Body>, i: int) -> bool {
    &&& 0 <= i < others.len()
    &&& missile.hits(others[i])
    &&& forall|k: int| 0 <= k < i ==> !missile.hits(#[trigger] others[k])
}

/// What the missile's situation leads to: leaving the play area counts
/// first; else the first body that the missile hits decides, the target for
/// a win and any other body for a failure.
pub open spec fn outcome(missile: Body, others: Seq<Body>) -> TransitionEvent {
    if missile.out_of_bounds() {
        TransitionEvent::OutOfBounds
    } else if exists|i: int| #[trigger]
        is_first_hit(missile, others, i) && others[i].kind == EntityType::Ufo {
        TransitionEvent::HitTarget
    } else if exists|i: int| #[trigger] is_first_hit(missile, others, i) {
        TransitionEvent::HitObstacle
    } else {
        TransitionEvent::Nothing
    }
}

/// The thrust of the missile's engine along `heading`.
pub open spec fn thrust_along(heading: Vector) -> Vector {
    Vector {
        x: div_trunc(MISSILE_THRUST * heading.x, HEADING_UNIT as int),
        y: div_trunc(MISSILE_THRUST * heading.y, HEADING_UNIT as int),
    }
}

/// The mathematical model of a level in play.
pub struct LevelModel {
    pub level_number: int,
    pub phase: Phase,
    pub missile: Body,
    pub others: Seq<Body>,
    pub descriptor: Level,
}

impl LevelModel {
    /// The state in which a level starts.
    pub open spec fn initial(descriptor: Level, level_number: int) -> LevelModel {
        LevelModel {
            level_number,
            phase: Phase::Idle,
            missile: missile_of(descriptor.missile),
            others: descriptor.others(),
            descriptor,
        }
    }

    /// What holds of every state: an accepted description, valid bodies of
    /// which only the missile is a missile, never the transient phase, and
    /// before the launch the bodies of the description.
    pub open spec fn valid(self) -> bool {
        &&& 0 <= self.level_number <= u32::MAX
        &&& self.descriptor.error() is None
        &&& self.phase != Phase::Reloading
        &&& self.missile.valid()
        &&& self.missile.kind == EntityType::Missile
        &&& forall|i: int|
            0 <= i < self.others.len() ==> (#[trigger] self.others[i]).valid() && self.others[i].kind
                != EntityType::Missile
        &&& self.phase == Phase::Idle ==> self.missile == missile_of(self.descriptor.missile)
            && self.others == self.descriptor.others()
    }

    /// The missile after gravity has acted on it for `dt` microseconds and
    /// it has moved for as long.
    pub open spec fn flown(self, dt: int) -> Body {
        self.missile.accelerated(self.missile.net_pull(self.others), dt).moved(dt)
    }

    /// The other bodies after each has coasted for `dt` microseconds.
    pub open spec fn drifted(self, dt: int) -> Seq<Body> {
        Seq::new(self.others.len(), |i: int| self.others[i].moved(dt))
    }

    /// What a tick of `dt` microseconds leads to. Outside `Running` nothing
    /// happens.
    pub open spec fn event(self, dt: int) -> TransitionEvent {
        if self.phase == Phase::Running {
            outcome(self.flown(dt), self.drifted(dt))
        } else {
            TransitionEvent::Nothing
        }
    }

    /// The physics step of a tick: all bodies advanced and the phase set by
    /// the event.
    pub open spec fn stepped(self, dt: int) -> LevelModel {
        if self.phase == Phase::Running {
            LevelModel {
                missile: self.flown(dt),
                others: self.drifted(dt),
                phase: match self.event(dt) {
                    TransitionEvent::Nothing => Phase::Running,
                    TransitionEvent::HitTarget => Phase::Advancing,
                    TransitionEvent::OutOfBounds => Phase::Reloading,
                    TransitionEvent::HitObstacle => Phase::Reloading,
                },
                ..self
            }
        } else {
            self
        }
    }

    /// A state that is reloading starts its level afresh.
    pub open spec fn settled(self) -> LevelModel {
        if self.phase == Phase::Reloading {
            LevelModel::initial(self.descriptor, self.level_number)
        } else {
            self
        }
    }

    /// One whole tick.
    pub open spec fn ticked(self, dt: int) -> LevelModel {
        self.stepped(dt).settled()
    }

    /// The state after a reload was asked for.
    pub open spec fn reloaded(self) -> LevelModel {
        LevelModel { phase: Phase::Reloading, ..self }.settled()
    }

    /// The state after `force` has launched the waiting missile. A missile
    /// that does not wait is not launched.
    pub open spec fn launched(self, force: Vector, dt: int) -> LevelModel {
        if self.phase == Phase::Idle {
            LevelModel {
                phase: Phase::Running,
                missile: self.missile.accelerated(force, dt),
                ..self
            }
        } else {
            self
        }
    }
}

/// The state after one tick for each of the time steps in `dts`, in order.
pub open spec fn after_ticks(start: LevelModel, dts: Seq<int>) -> LevelModel
    decreases dts.len(),
{
    if dts.len() == 0 {
        start
    } else {
        after_ticks(start, dts.drop_last()).ticked(dts.last())
    }
}

/// A level starts in a valid state.
pub proof fn lemma_initial_valid(descriptor: Level, level_number: int)
    requires
        descriptor.error() is None,
        0 <= level_number <= u32::MAX,
    ensures
        LevelModel::initial(descriptor, level_number).valid(),
{
    lemma_accepted_level_valid(descriptor);
}

/// The physics step of a tick keeps the mass and the kind of every body.
pub proof fn lemma_step_keeps_masses(state: LevelModel, dt: int)
    requires
        state.valid(),
    ensures
        state.stepped(dt).missile.mass == state.missile.mass,
        state.stepped(dt).others.len() == state.others.len(),
        forall|i: int|
            0 <= i < state.others.len() ==> (#[trigger] state.stepped(dt).others[i]).mass
                == state.others[i].mass && state.stepped(dt).others[i].kind
                == state.others[i].kind,
{
}

/// A tick leads from a valid state to a valid state: every body keeps a
/// mass of at least one and at most `MASS_MAX`, and a position, a velocity
/// and a heading within their limits.
pub proof fn lemma_ticked_valid(state: LevelModel, dt: int)
    requires
        state.valid(),
    ensures
        state.ticked(dt).valid(),
{
    if state.phase == Phase::Running {
        let force = state.missile.net_pull(state.others);
        lemma_accelerated_valid(state.missile, force, dt);
        lemma_moved_valid(state.missile.accelerated(force, dt), dt);
        assert forall|i: int| 0 <= i < state.others.len() implies (#[trigger] state.drifted(
            dt,
        )[i]).valid() && state.drifted(dt)[i].kind != EntityType::Missile by {
            lemma_moved_valid(state.others[i], dt);
        }
        lemma_initial_valid(state.descriptor, state.level_number);
    }
}

/// What a tick leaves behind, by its event: leaving the play area or
/// hitting an obstacle starts the same level afresh; hitting the target
/// keeps the level number and waits for the next level; otherwise the phase
/// stays as it was.
pub proof fn lemma_tick_outcomes(state: LevelModel, dt: int)
    requires
        state.valid(),
    ensures
        state.event(dt) == TransitionEvent::OutOfBounds || state.event(dt)
            == TransitionEvent::HitObstacle ==> state.ticked(dt) == LevelModel::initial(
            state.descriptor,
            state.level_number,
        ),
        state.event(dt) == TransitionEvent::HitTarget ==> state.ticked(dt).phase
            == Phase::Advancing,
        state.event(dt) == TransitionEvent::Nothing ==> state.ticked(dt).phase == state.phase,
        state.ticked(dt).level_number == state.level_number,
        state.ticked(dt).descriptor == state.descriptor,
{
}

/// Any sequence of ticks leads from a valid state to a valid state.
pub proof fn lemma_valid_after_ticks(start: LevelModel, dts: Seq<int>)
    requires
        start.valid(),
    ensures
        after_ticks(start, dts).valid(),
    decreases dts.len(),
{
    if dts.len() > 0 {
        lemma_valid_after_ticks(start, dts.drop_last());
        lemma_ticked_valid(after_ticks(start, dts.drop_last()), dts.last());
    }
}

/// A level in play.
#[derive(Debug)]
pub struct LevelState {
    level_number: u32,
    phase: Phase,
    missile: Entity,
    others: Vec<Entity>,
    descriptor: SpaceData,
}

impl View for LevelState {
    type V = LevelModel;

    closed spec fn view(&self) -> LevelModel {
        LevelModel {
            level_number: self.level_number as int,
            phase: self.phase,
            missile: self.missile@,
            others: bodies(self.others@),
            descriptor: self.descriptor@,
        }
    }
}

impl LevelState {
    #[verifier::type_invariant]
    pub open spec fn well_formed(self) -> bool {
        self@.valid()
    }

    pub fn level_number(&self) -> (n: u32)
        ensures
            n == self@.level_number,
            self@.valid(),
    {
        proof {
            use_type_invariant(self);
        }
        self.level_number
    }

    pub fn phase(&self) -> (phase: Phase)
        ensures
            phase == self@.phase,
            self@.valid(),
    {
        proof {
            use_type_invariant(self);
        }
        self.phase
    }

    pub fn missile(&self) -> (missile: &Entity)
        ensures
            missile@ == self@.missile,
            self@.valid(),
    {
        proof {
            use_type_invariant(self);
        }
        &self.missile
    }

    /// The bodies other than the missile, in the order in which collisions
    /// are tested.
    pub fn entities(&self) -> (others: &Vec<Entity>)
        ensures
            bodies(others@) == self@.others,
            self@.valid(),
    {
        proof {
            use_type_invariant(self);
        }
        &self.others
    }

    pub fn descriptor(&self) -> (descriptor: &SpaceData)
        ensures
            descriptor@ == self@.descriptor,
            self@.valid(),
    {
        proof {
            use_type_invariant(self);
        }
        &self.descriptor
    }
}

/// Starts a level from its description, or fails with the description's
/// first refusal.
pub fn initialize_level(descriptor: SpaceData, level_number: u32) -> (r: Result<
    LevelState,
    ConfigError,
>)
    ensures
        match r {
            Ok(state) => descriptor@.error() is None && state@ == LevelModel::initial(
                descriptor@,
                level_number as int,
            ) && state@.valid(),
            Err(err) => descriptor@.error() == Some(err),
        },
{
    match load_level_entities(&descriptor) {
        Err(err) => Err(err),
        Ok(entities) => {
            let mut others = entities;
            let ghost all = bodies(others@);
            assert(all.len() == others@.len());
            match others.pop() {
                None => unreached(),
                Some(missile) => {
                    proof {
                        assert(missile@ == all.last());
                        assert(bodies(others@) =~= all.drop_last());
                        assert(all.drop_last() =~= descriptor@.others());
                        lemma_accepted_level_valid(descriptor@);
                    }
                    Ok(LevelState { level_number, phase: Phase::Idle, missile, others, descriptor })
                },
            }
        },
    }
}

/// Starts an accepted level afresh.
fn restart(descriptor: SpaceData, level_number: u32) -> (state: LevelState)
    requires
        descriptor@.error() is None,
    ensures
        state@ == LevelModel::initial(descriptor@, level_number as int),
{
    match initialize_level(descriptor, level_number) {
        Ok(state) => state,
        Err(_) => unreached(),
    }
}

/// Lets every body of the list coast for `dt` microseconds.
fn drift(others: &mut Vec<Entity>, dt: i64)
    ensures
        bodies(final(others)@) == Seq::new(
            old(others)@.len(),
            |i: int| bodies(old(others)@)[i].moved(dt as int),
        ),
{
    let mut i: usize = 0;
    while i < others.len()
        invariant
            i <= others.len(),
            others.len() == old(others).len(),
            forall|k: int| 0 <= k < i ==> (#[trigger] others@[k])@ == old(others)@[k]@.moved(dt as int),
            forall|k: int| i <= k < others.len() ==> (#[trigger] others@[k]) == old(others)@[k],
        decreases others.len() - i,
    {
        let mut e: Entity = others[i];
        e.update_pos(dt);
        others.set(i, e);
        i = i + 1;
    }
    assert(bodies(others@) =~= Seq::new(
        old(others)@.len(),
        |i: int| bodies(old(others)@)[i].moved(dt as int),
    ));
}

/// Finds the first body of the list that the missile hits.
fn first_collision(missile: &Entity, others: &Vec<Entity>) -> (r: Option<usize>)
    requires
        missile@.kind == EntityType::Missile,
    ensures
        match r {
            Some(i) => is_first_hit(missile@, bodies(others@), i as int),
            None => forall|k: int|
                0 <= k < others.len() ==> !missile@.hits(#[trigger] bodies(others@)[k]),
        },
{
    let mut i: usize = 0;
    while i < others.len()
        invariant
            i <= others.len(),
            missile@.kind == EntityType::Missile,
            forall|k: int| 0 <= k < i ==> !missile@.hits(#[trigger] bodies(others@)[k]),
        decreases others.len() - i,
    {
        if missile.is_coliding(&others[i]) {
            assert(bodies(others@)[i as int] == others@[i as int]@);
            return Some(i);
        }
        i = i + 1;
    }
    None
}

/// Judges the missile's situation after a step.
fn judge(missile: &Entity, others: &Vec<Entity>) -> (event: TransitionEvent)
    requires
        missile@.kind == EntityType::Missile,
    ensures
        event == outcome(missile@, bodies(others@)),
{
    if missile.is_out_of_bounds() {
        return TransitionEvent::OutOfBounds;
    }
    match first_collision(missile, others) {
        None => TransitionEvent::Nothing,
        Some(i) => {
            let target: bool = match others[i].get_entity_type() {
                EntityType::Ufo => true,
                _ => false,
            };
            proof {
                let list = bodies(others@);
                assert(list[i as int] == others@[i as int]@);
                assert forall|j: int| #[trigger] is_first_hit(missile@, list, j) implies j
                    == i by {
                    if j < i {
                        assert(!missile@.hits(list[j]));
                    } else if i < j {
                        assert(!missile@.hits(list[i as int]));
                    }
                }
                assert(is_first_hit(missile@, list, i as int));
            }
            if target {
                TransitionEvent::HitTarget
            } else {
                TransitionEvent::HitObstacle
            }
        },
    }
}

/// Advances a running level by one tick of `dt` microseconds: gravity acts
/// on the missile, all bodies move, and the outcome is judged. Leaving the
/// play area or hitting an obstacle starts the level afresh; hitting the
/// target leaves the state waiting for the next level.
pub fn advance_tick(state: LevelState, dt: i64) -> (r: (LevelState, TransitionEvent))
    ensures
        r.0@ == state@.ticked(dt as int),
        r.1 == state@.event(dt as int),
        r.0@.valid(),
{
    proof {
        use_type_invariant(&state);
    }
    match state.phase {
        Phase::Running => {},
        _ => {
            return (state, TransitionEvent::Nothing);
        },
    }
    let ghost before = state@;
    let LevelState { level_number, phase, missile, others, descriptor } = state;
    let mut missile = missile;
    let mut others = others;
    missile.apply_gravity(&others, dt);
    missile.update_pos(dt);
    drift(&mut others, dt);
    proof {
        let pushed = before.missile.accelerated(before.missile.net_pull(before.others), dt as int);
        lemma_accelerated_valid(before.missile, before.missile.net_pull(before.others), dt as int);
        lemma_moved_valid(pushed, dt as int);
        assert(bodies(others@) =~= before.drifted(dt as int));
        assert forall|i: int| 0 <= i < before.others.len() implies (#[trigger] before.drifted(
            dt as int,
        )[i]).valid() && before.drifted(dt as int)[i].kind != EntityType::Missile by {
            lemma_moved_valid(before.others[i], dt as int);
        }
    }
    let event = judge(&missile, &others);
    let next = match event {
        TransitionEvent::Nothing => LevelState {
            level_number,
            phase: Phase::Running,
            missile,
            others,
            descriptor,
        },
        TransitionEvent::HitTarget => LevelState {
            level_number,
            phase: Phase::Advancing,
            missile,
            others,
            descriptor,
        },
        _ => restart(descriptor, level_number),
    };
    proof {
        use_type_invariant(&next);
    }
    (next, event)
}

/// Launches the waiting missile: `force` acts on it for `dt` microseconds
/// and the level starts running. A level that is not idle stays as it is.
pub fn apply_launch_force(state: LevelState, force: Vec2, dt: i64) -> (r: LevelState)
    ensures
        r@ == state@.launched(force@, dt as int),
        r@.valid(),
{
    proof {
        use_type_invariant(&state);
    }
    match state.phase {
        Phase::Idle => {},
        _ => {
            return state;
        },
    }
    let ghost before = state@;
    let LevelState { level_number, phase, missile, others, descriptor } = state;
    let mut missile = missile;
    missile.apply_force(force, dt);
    proof {
        lemma_accelerated_valid(before.missile, force@, dt as int);
    }
    LevelState { level_number, phase: Phase::Running, missile, others, descriptor }
}

/// The thrust of the missile's engine along `heading`.
pub fn launch_thrust(heading: Vec2) -> (force: Vec2)
    requires
        heading@.within(HEADING_UNIT as int),
    ensures
        force@ == thrust_along(heading@),
{
    proof {
        lemma_product_bound(
            MISSILE_THRUST as int,
            heading.x as int,
            MISSILE_THRUST as int,
            HEADING_UNIT as int,
        );
        lemma_product_bound(
            MISSILE_THRUST as int,
            heading.y as int,
            MISSILE_THRUST as int,
            HEADING_UNIT as int,
        );
        lemma_div_trunc_bound(
            MISSILE_THRUST * heading.x,
            HEADING_UNIT as int,
            MISSILE_THRUST as int,
        );
        lemma_div_trunc_bound(
            MISSILE_THRUST * heading.y,
            HEADING_UNIT as int,
            MISSILE_THRUST as int,
        );
    }
    let fx: i128 = ((MISSILE_THRUST as i128) * (heading.x as i128)) / (HEADING_UNIT as i128);
    let fy: i128 = ((MISSILE_THRUST as i128) * (heading.y as i128)) / (HEADING_UNIT as i128);
    Vec2 { x: fx as i64, y: fy as i64 }
}

/// Launches the waiting missile with its engine's thrust along its heading,
/// acting for `dt` microseconds.
pub fn launch(state: LevelState, dt: i64) -> (r: LevelState)
    ensures
        r@ == state@.launched(thrust_along(state@.missile.heading), dt as int),
        r@.valid(),
{
    let pose = state.missile().get_pose();
    let force = launch_thrust(pose.1);
    apply_launch_force(state, force, dt)
}

/// Starts the level afresh, whatever its phase.
pub fn reload_level(state: LevelState) -> (r: LevelState)
    ensures
        r@ == state@.reloaded(),
        r@.valid(),
{
    proof {
        use_type_invariant(&state);
    }
    let LevelState { level_number, phase, missile, others, descriptor } = state;
    let r = restart(descriptor, level_number);
    proof {
        use_type_invariant(&r);
    }
    r
}

/// Starts the level that follows, from its description: the level number
/// grows by one. Fails with the description's first refusal.
pub fn next_level(state: LevelState, descriptor: SpaceData) -> (r: Result<LevelState, ConfigError>)
    requires
        state@.level_number < u32::MAX,
    ensures
        match r {
            Ok(next) => descriptor@.error() is None && next@ == LevelModel::initial(
                descriptor@,
                state@.level_number + 1,
            ) && next@.valid(),
            Err(err) => descriptor@.error() == Some(err),
        },
{
    let n: u32 = state.level_number();
    initialize_level(descriptor, n + 1)
}

} // verus!
