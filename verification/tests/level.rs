use orbital_assault::entity::{ConfigError, EntityType};
use orbital_assault::level::{
    advance_tick, apply_launch_force, initialize_level, launch, launch_thrust, next_level,
    reload_level, LevelState, Phase, TransitionEvent,
};
use orbital_assault::load_level::{
    load_level_entities, occupies, AsteroidData, MissileData, PlanetData, SpaceData, UfoData,
};
use orbital_assault::vector::Vec2;
use orbital_assault::{DT, HEADING_UNIT, INITIAL_SPEED, MISSILE_THRUST, POSITION_MAX};

fn east() -> Vec2 {
    Vec2::new(HEADING_UNIT, 0)
}

fn level(missile: (i64, i64), ufo: (i64, i64)) -> SpaceData {
    SpaceData {
        missile: MissileData { position: Vec2::new(missile.0, missile.1), heading: east() },
        ufo: UfoData { position: Vec2::new(ufo.0, ufo.1), speed: Vec2::new(0, 0) },
        planets: Vec::new(),
        asteroids: Vec::new(),
    }
}

fn planet(x: i64, y: i64, radius: i64) -> PlanetData {
    PlanetData { position: Vec2::new(x, y), radius }
}

fn asteroid(x: i64, y: i64, vx: i64, vy: i64, radius: i64) -> AsteroidData {
    AsteroidData { position: Vec2::new(x, y), velocity: Vec2::new(vx, vy), radius }
}

fn start(data: &SpaceData) -> LevelState {
    initialize_level(data.clone(), 1).unwrap()
}

#[test]
fn bodies_come_in_the_order_target_asteroids_planets_missile() {
    let mut data = level((100_000, 600_000), (2_000_000, 600_000));
    data.planets.push(planet(1_000_000, 300_000, 50_000));
    data.planets.push(planet(1_200_000, 900_000, 60_000));
    data.asteroids.push(asteroid(500_000, 500_000, 1_000, 0, 10_000));
    data.asteroids.push(asteroid(600_000, 500_000, 0, 2_000, 20_000));
    let entities = load_level_entities(&data).unwrap();
    let kinds: Vec<EntityType> = entities.iter().map(|e| e.get_entity_type()).collect();
    assert_eq!(
        kinds,
        vec![
            EntityType::Ufo,
            EntityType::Asteroid,
            EntityType::Asteroid,
            EntityType::Planet,
            EntityType::Planet,
            EntityType::Missile
        ]
    );
    assert_eq!(entities[1].get_radius(), 10_000);
    assert_eq!(entities[2].get_radius(), 20_000);
    assert_eq!(entities[3].get_radius(), 50_000);
    assert_eq!(entities[4].get_radius(), 60_000);
    assert_eq!(entities[5].get_pose().0, Vec2::new(100_000, 600_000));
    assert_eq!(entities[5].get_velocity(), Vec2::new(INITIAL_SPEED, 0));
}

#[test]
fn a_level_starts_idle_with_its_number() {
    let mut data = level((100_000, 600_000), (2_000_000, 600_000));
    data.planets.push(planet(1_000_000, 300_000, 50_000));
    let state = initialize_level(data, 7).unwrap();
    assert_eq!(state.level_number(), 7);
    assert_eq!(state.phase(), Phase::Idle);
    assert_eq!(state.missile().get_entity_type(), EntityType::Missile);
    assert_eq!(state.missile().get_pose().0, Vec2::new(100_000, 600_000));
    assert_eq!(state.entities().len(), 2);
    assert_eq!(state.entities()[0].get_entity_type(), EntityType::Ufo);
    assert_eq!(state.entities()[1].get_entity_type(), EntityType::Planet);
    assert_eq!(state.descriptor().planets.len(), 1);
}

#[test]
fn the_first_refused_body_refuses_the_level() {
    let mut data = level((100_000, 600_000), (2_000_000, 600_000));
    data.planets.push(planet(1_000_000, 300_000, 0));
    data.asteroids.push(asteroid(500_000, 500_000, 0, 0, 10_000));
    data.asteroids.push(asteroid(POSITION_MAX + 1, 500_000, 0, 0, 10_000));
    data.asteroids.push(asteroid(500_000, 500_000, 0, 0, 56));
    // Asteroids come before planets, and the second asteroid before the third.
    assert_eq!(load_level_entities(&data).unwrap_err(), ConfigError::PositionOutOfRange);
    assert_eq!(initialize_level(data.clone(), 1).unwrap_err(), ConfigError::PositionOutOfRange);
    data.asteroids.remove(1);
    assert_eq!(load_level_entities(&data).unwrap_err(), ConfigError::InvalidMass);
    data.asteroids.remove(1);
    assert_eq!(load_level_entities(&data).unwrap_err(), ConfigError::InvalidRadius);
    data.planets.clear();
    data.missile.heading = Vec2::new(0, 0);
    assert_eq!(load_level_entities(&data).unwrap_err(), ConfigError::InvalidHeading);
    data.ufo.speed = Vec2::new(i64::MAX, 0);
    assert_eq!(load_level_entities(&data).unwrap_err(), ConfigError::VelocityOutOfRange);
}

#[test]
fn a_body_at_the_missile_position_refuses_the_level() {
    let mut data = level((100_000, 600_000), (2_000_000, 600_000));
    data.planets.push(planet(1_000_000, 300_000, 50_000));
    data.planets.push(planet(100_000, 600_000, 50_000));
    assert_eq!(load_level_entities(&data).unwrap_err(), ConfigError::CoincidentBodies);
    assert_eq!(initialize_level(data.clone(), 1).unwrap_err(), ConfigError::CoincidentBodies);
    data.planets[1].position = Vec2::new(100_001, 600_000);
    assert!(load_level_entities(&data).is_ok());
    let same_as_ufo = level((100_000, 600_000), (100_000, 600_000));
    assert_eq!(load_level_entities(&same_as_ufo).unwrap_err(), ConfigError::CoincidentBodies);
}

#[test]
fn occupied_positions_are_found() {
    let mut data = level((100_000, 600_000), (2_000_000, 600_000));
    data.asteroids.push(asteroid(500_000, 500_000, 0, 0, 10_000));
    let entities = load_level_entities(&data).unwrap();
    assert!(occupies(&entities, Vec2::new(2_000_000, 600_000)));
    assert!(occupies(&entities, Vec2::new(500_000, 500_000)));
    assert!(occupies(&entities, Vec2::new(100_000, 600_000)));
    assert!(!occupies(&entities, Vec2::new(500_000, 500_001)));
    assert!(!occupies(&Vec::new(), Vec2::new(0, 0)));
}

#[test]
fn ticks_do_nothing_before_the_launch() {
    let data = level((100_000, 600_000), (2_000_000, 600_000));
    let (state, event) = advance_tick(start(&data), DT);
    assert_eq!(event, TransitionEvent::Nothing);
    assert_eq!(state.phase(), Phase::Idle);
    assert_eq!(state.missile().get_pose().0, Vec2::new(100_000, 600_000));
    assert_eq!(state.missile().get_velocity(), Vec2::new(INITIAL_SPEED, 0));
}

#[test]
fn launch_thrust_points_along_the_heading() {
    assert_eq!(launch_thrust(east()), Vec2::new(MISSILE_THRUST, 0));
    assert_eq!(
        launch_thrust(Vec2::new(-600_000, 800_000)),
        Vec2::new(-720_000_000_000, 960_000_000_000)
    );
    assert_eq!(launch_thrust(Vec2::new(0, 0)), Vec2::new(0, 0));
}

#[test]
fn launch_sets_the_level_running() {
    let data = level((100_000, 600_000), (2_000_000, 600_000));
    let state = launch(start(&data), DT);
    assert_eq!(state.phase(), Phase::Running);
    // 1.2e12 * 16667 / (1e5 * 1e6) = 200004
    assert_eq!(state.missile().get_velocity(), Vec2::new(INITIAL_SPEED + 200_004, 0));
    assert_eq!(state.missile().get_pose().0, Vec2::new(100_000, 600_000));
    // A second launch changes nothing.
    let again = launch(state, DT);
    assert_eq!(again.phase(), Phase::Running);
    assert_eq!(again.missile().get_velocity(), Vec2::new(INITIAL_SPEED + 200_004, 0));
}

#[test]
fn launch_force_is_applied_as_given() {
    let data = level((100_000, 600_000), (2_000_000, 600_000));
    let state = apply_launch_force(start(&data), Vec2::new(0, 600_000_000_000), 1_000_000);
    assert_eq!(state.phase(), Phase::Running);
    assert_eq!(state.missile().get_velocity(), Vec2::new(INITIAL_SPEED, 6_000_000));
}

#[test]
fn a_running_tick_moves_the_missile() {
    let mut data = level((100_000, 600_000), (2_000_000, 100_000));
    data.asteroids.push(asteroid(500_000, 100_000, 3_000, 4_000, 10_000));
    let (state, event) = advance_tick(launch(start(&data), DT), DT);
    assert_eq!(event, TransitionEvent::Nothing);
    assert_eq!(state.phase(), Phase::Running);
    assert_eq!(state.level_number(), 1);
    // 210004 * 16667 / 1000000 = 3500.1
    assert_eq!(state.missile().get_pose().0, Vec2::new(103_500, 600_000));
    // The asteroid coasts too, and turns along its velocity.
    assert_eq!(
        state.entities()[1].get_pose(),
        (Vec2::new(500_050, 100_066), Vec2::new(600_000, 800_000))
    );
    assert_eq!(state.entities()[0].get_pose().0, Vec2::new(2_000_000, 100_000));
}

#[test]
fn leaving_the_play_area_reloads_the_level() {
    let data = level((2_299_000, 600_000), (100_000, 100_000));
    let running = launch(initialize_level(data, 3).unwrap(), DT);
    assert_eq!(running.phase(), Phase::Running);
    let (state, event) = advance_tick(running, DT);
    assert_eq!(event, TransitionEvent::OutOfBounds);
    assert_eq!(state.phase(), Phase::Idle);
    assert_eq!(state.level_number(), 3);
    assert_eq!(state.missile().get_pose(), (Vec2::new(2_299_000, 600_000), east()));
    assert_eq!(state.missile().get_velocity(), Vec2::new(INITIAL_SPEED, 0));
    assert_eq!(state.entities().len(), 1);
    assert_eq!(state.entities()[0].get_pose().0, Vec2::new(100_000, 100_000));
}

#[test]
fn hitting_the_target_waits_for_the_next_level() {
    let data = level((900_000, 596_000), (1_000_000, 600_000));
    let running = launch(initialize_level(data, 1).unwrap(), DT);
    let (state, event) = advance_tick(running, DT);
    assert_eq!(event, TransitionEvent::HitTarget);
    assert_eq!(state.phase(), Phase::Advancing);
    assert_eq!(state.level_number(), 1);
    // Nothing moves while the state waits.
    let (waiting, event) = advance_tick(state, DT);
    assert_eq!(event, TransitionEvent::Nothing);
    assert_eq!(waiting.phase(), Phase::Advancing);
    let following = level((100_000, 100_000), (2_000_000, 1_000_000));
    let next = next_level(waiting, following).unwrap();
    assert_eq!(next.level_number(), 2);
    assert_eq!(next.phase(), Phase::Idle);
    assert_eq!(next.missile().get_pose().0, Vec2::new(100_000, 100_000));
    assert_eq!(next.entities()[0].get_pose().0, Vec2::new(2_000_000, 1_000_000));
}

#[test]
fn a_refused_next_level_is_reported() {
    let data = level((900_000, 596_000), (1_000_000, 600_000));
    let (state, _) = advance_tick(launch(start(&data), DT), DT);
    let mut broken = level((100_000, 100_000), (2_000_000, 1_000_000));
    broken.planets.push(planet(0, 0, -1));
    assert_eq!(next_level(state, broken).unwrap_err(), ConfigError::InvalidRadius);
}

#[test]
fn hitting_an_obstacle_reloads_the_level() {
    let mut data = level((900_000, 596_000), (100_000, 100_000));
    data.planets.push(planet(1_000_000, 600_000, 40_000));
    let running = launch(initialize_level(data, 4).unwrap(), DT);
    let (state, event) = advance_tick(running, DT);
    assert_eq!(event, TransitionEvent::HitObstacle);
    assert_eq!(state.phase(), Phase::Idle);
    assert_eq!(state.level_number(), 4);
    assert_eq!(state.missile().get_pose().0, Vec2::new(900_000, 596_000));
    assert_eq!(state.missile().get_velocity(), Vec2::new(INITIAL_SPEED, 0));
}

#[test]
fn an_asteroid_is_an_obstacle_too() {
    let mut data = level((900_000, 596_000), (100_000, 100_000));
    data.asteroids.push(asteroid(1_000_000, 600_000, 0, 0, 40_000));
    let (state, event) = advance_tick(launch(start(&data), DT), DT);
    assert_eq!(event, TransitionEvent::HitObstacle);
    assert_eq!(state.phase(), Phase::Idle);
}

#[test]
fn the_first_body_in_list_order_decides() {
    // The target comes first in the list: it wins over a planet hit in the same tick.
    let mut both = level((900_000, 596_000), (1_000_000, 600_000));
    both.planets.push(planet(1_000_000, 620_000, 60_000));
    both.asteroids.push(asteroid(1_000_000, 580_000, 0, 0, 60_000));
    let (state, event) = advance_tick(launch(start(&both), DT), DT);
    assert_eq!(event, TransitionEvent::HitTarget);
    assert_eq!(state.phase(), Phase::Advancing);
}

#[test]
fn leaving_the_play_area_counts_before_a_collision() {
    let data = level((2_299_000, 596_000), (2_320_000, 600_000));
    let (state, event) = advance_tick(launch(start(&data), DT), DT);
    assert_eq!(event, TransitionEvent::OutOfBounds);
    assert_eq!(state.phase(), Phase::Idle);
}

#[test]
fn reload_resets_any_phase() {
    let mut data = level((100_000, 600_000), (2_000_000, 100_000));
    data.planets.push(planet(1_000_000, 300_000, 50_000));
    let idle = reload_level(initialize_level(data.clone(), 5).unwrap());
    assert_eq!(idle.phase(), Phase::Idle);
    assert_eq!(idle.level_number(), 5);
    let (running, _) = advance_tick(launch(idle, DT), DT);
    assert_eq!(running.phase(), Phase::Running);
    assert!(running.missile().get_pose().0 != Vec2::new(100_000, 600_000));
    let reset = reload_level(running);
    assert_eq!(reset.phase(), Phase::Idle);
    assert_eq!(reset.level_number(), 5);
    assert_eq!(reset.missile().get_pose().0, Vec2::new(100_000, 600_000));
    assert_eq!(reset.missile().get_velocity(), Vec2::new(INITIAL_SPEED, 0));
    let hit = level((900_000, 596_000), (1_000_000, 600_000));
    let (advancing, _) = advance_tick(launch(start(&hit), DT), DT);
    assert_eq!(advancing.phase(), Phase::Advancing);
    let reset = reload_level(advancing);
    assert_eq!(reset.phase(), Phase::Idle);
    assert_eq!(reset.level_number(), 1);
}

#[test]
fn a_planet_bends_the_flight() {
    let mut data = level((100_000, 600_000), (2_000_000, 100_000));
    data.planets.push(planet(400_000, 1_000_000, 50_000));
    let (state, event) = advance_tick(launch(start(&data), DT), DT);
    assert_eq!(event, TransitionEvent::Nothing);
    // The planet at offset (300, 400) pulls with (1509691092, 2012921456).
    assert_eq!(state.missile().get_velocity(), Vec2::new(210_004 + 251, 335));
    assert_eq!(state.missile().get_pose().0, Vec2::new(100_000 + 3_504, 600_000 + 5));
}

#[test]
fn masses_stay_positive_over_many_ticks() {
    let mut data = level((100_000, 600_000), (2_000_000, 300_000));
    data.planets.push(planet(1_000_000, 900_000, 50_000));
    data.asteroids.push(asteroid(500_000, 100_000, 3_000, 4_000, 10_000));
    let mut state = launch(start(&data), DT);
    for _ in 0..2_000 {
        let (next, _) = advance_tick(state, DT);
        state = next;
        assert_eq!(state.missile().get_mass(), 100_000);
        assert_eq!(state.entities()[0].get_mass(), 100);
        assert_eq!(state.entities()[1].get_mass(), 31_415);
        assert_eq!(state.entities()[2].get_mass(), 942_477_795_900_000);
        if state.phase() == Phase::Idle {
            state = launch(state, DT);
        }
        if state.phase() == Phase::Advancing {
            state = reload_level(state);
        }
    }
}
