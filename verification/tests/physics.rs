use orbital_assault::engine::distance;
use orbital_assault::entity::{
    create_asteroid, create_missile, create_planet, create_ufo, ConfigError, Entity, EntityType,
};
use orbital_assault::numeric::{isqrt, saturate_i64};
use orbital_assault::vector::Vec2;
use orbital_assault::{
    DT, HEADING_UNIT, INITIAL_SPEED, MASS_MAX, MISSILE_MASS, POSITION_MAX, RADIUS_MAX, UFO_MASS,
    UFO_RADIUS, VELOCITY_MAX, WINDOW_HEIGHT, WINDOW_WIDTH,
};

fn east() -> Vec2 {
    Vec2::new(HEADING_UNIT, 0)
}

fn missile_at(x: i64, y: i64, speed: i64) -> Entity {
    create_missile(x, y, speed, east()).unwrap()
}

#[test]
fn isqrt_rounds_down() {
    assert_eq!(isqrt(0), 0);
    assert_eq!(isqrt(1), 1);
    assert_eq!(isqrt(2), 1);
    assert_eq!(isqrt(3), 1);
    assert_eq!(isqrt(4), 2);
    assert_eq!(isqrt(15), 3);
    assert_eq!(isqrt(16), 4);
    assert_eq!(isqrt(17), 4);
    assert_eq!(isqrt(1_000_000_000_000_000_000_000_000), 1_000_000_000_000);
    assert_eq!(isqrt(999_999_999_999_999_999_999_999), 999_999_999_999);
    assert_eq!(isqrt(u128::MAX), u64::MAX);
}

#[test]
fn saturation_stops_at_the_bound() {
    assert_eq!(saturate_i64(5, 10), 5);
    assert_eq!(saturate_i64(11, 10), 10);
    assert_eq!(saturate_i64(-11, 10), -10);
    assert_eq!(saturate_i64(i128::MAX, 10), 10);
    assert_eq!(saturate_i64(i128::MIN, 0), 0);
}

#[test]
fn missile_starts_along_its_heading() {
    let m = create_missile(100_000, 200_000, INITIAL_SPEED, Vec2::new(600_000, -800_000)).unwrap();
    assert_eq!(m.get_entity_type(), EntityType::Missile);
    assert_eq!(m.get_pose(), (Vec2::new(100_000, 200_000), Vec2::new(600_000, -800_000)));
    assert_eq!(m.get_velocity(), Vec2::new(6_000, -8_000));
    assert_eq!(m.get_mass(), MISSILE_MASS);
    assert_eq!(m.get_mass(), 100_000);
    assert_eq!(m.get_radius(), 0);
}

#[test]
fn planet_mass_is_density_times_area() {
    let p = create_planet(500_000, 600_000, 50_000).unwrap();
    assert_eq!(p.get_entity_type(), EntityType::Planet);
    assert_eq!(p.get_mass(), 942_477_795_900_000);
    assert_eq!(p.get_radius(), 50_000);
    assert_eq!(p.get_velocity(), Vec2::new(0, 0));
    assert_eq!(p.get_pose(), (Vec2::new(500_000, 600_000), east()));
    assert_eq!(create_planet(0, 0, 60_000).unwrap().get_mass(), 1_357_168_026_096_000);
}

#[test]
fn asteroid_mass_is_density_times_area() {
    let a = create_asteroid(1_000, 2_000, -30, 40, 10_000).unwrap();
    assert_eq!(a.get_entity_type(), EntityType::Asteroid);
    assert_eq!(a.get_mass(), 31_415);
    assert_eq!(a.get_radius(), 10_000);
    assert_eq!(a.get_velocity(), Vec2::new(-30, 40));
    assert_eq!(a.get_pose(), (Vec2::new(1_000, 2_000), east()));
    assert_eq!(create_asteroid(0, 0, 0, 0, 57).unwrap().get_mass(), 1);
}

#[test]
fn ufo_heads_along_its_velocity() {
    let u = create_ufo(10_000, 20_000, -5_000, 12_000).unwrap();
    assert_eq!(u.get_entity_type(), EntityType::Ufo);
    assert_eq!(u.get_mass(), UFO_MASS);
    assert_eq!(u.get_mass(), 100);
    assert_eq!(u.get_radius(), UFO_RADIUS);
    assert_eq!(u.get_velocity(), Vec2::new(-5_000, 12_000));
    assert_eq!(u.get_pose(), (Vec2::new(10_000, 20_000), Vec2::new(-384_615, 923_076)));
    let resting = create_ufo(10_000, 20_000, 0, 0).unwrap();
    assert_eq!(resting.get_pose().1, east());
}

#[test]
fn positions_beyond_the_limit_are_refused() {
    assert_eq!(
        create_missile(POSITION_MAX + 1, 0, 0, east()).unwrap_err(),
        ConfigError::PositionOutOfRange
    );
    assert_eq!(create_planet(0, -POSITION_MAX - 1, 50_000).unwrap_err(), ConfigError::PositionOutOfRange);
    assert_eq!(
        create_asteroid(i64::MIN, 0, 0, 0, 50_000).unwrap_err(),
        ConfigError::PositionOutOfRange
    );
    assert_eq!(create_ufo(0, i64::MAX, 0, 0).unwrap_err(), ConfigError::PositionOutOfRange);
    assert!(create_planet(POSITION_MAX, -POSITION_MAX, 50_000).is_ok());
}

#[test]
fn velocities_beyond_the_limit_are_refused() {
    assert_eq!(
        create_missile(0, 0, VELOCITY_MAX + 1, east()).unwrap_err(),
        ConfigError::VelocityOutOfRange
    );
    assert_eq!(
        create_asteroid(0, 0, 0, -VELOCITY_MAX - 1, 50_000).unwrap_err(),
        ConfigError::VelocityOutOfRange
    );
    assert_eq!(create_ufo(0, 0, VELOCITY_MAX + 1, 0).unwrap_err(), ConfigError::VelocityOutOfRange);
    assert!(create_ufo(0, 0, VELOCITY_MAX, -VELOCITY_MAX).is_ok());
}

#[test]
fn headings_must_point_somewhere() {
    assert_eq!(
        create_missile(0, 0, 10_000, Vec2::new(0, 0)).unwrap_err(),
        ConfigError::InvalidHeading
    );
    assert_eq!(
        create_missile(0, 0, 10_000, Vec2::new(HEADING_UNIT + 1, 0)).unwrap_err(),
        ConfigError::InvalidHeading
    );
    assert!(create_missile(0, 0, 10_000, Vec2::new(0, -HEADING_UNIT)).is_ok());
}

#[test]
fn radii_must_be_positive_and_bounded() {
    assert_eq!(create_planet(0, 0, 0).unwrap_err(), ConfigError::InvalidRadius);
    assert_eq!(create_planet(0, 0, -50_000).unwrap_err(), ConfigError::InvalidRadius);
    assert_eq!(create_asteroid(0, 0, 0, 0, 0).unwrap_err(), ConfigError::InvalidRadius);
    assert_eq!(create_asteroid(0, 0, 0, 0, RADIUS_MAX + 1).unwrap_err(), ConfigError::InvalidRadius);
}

#[test]
fn masses_must_be_positive_and_bounded() {
    // A disc too small to weigh one mass unit.
    assert_eq!(create_asteroid(0, 0, 0, 0, 56).unwrap_err(), ConfigError::InvalidMass);
    // A planet heavier than the mass limit.
    assert_eq!(create_planet(0, 0, 1_700_000).unwrap_err(), ConfigError::InvalidMass);
    assert!(create_planet(0, 0, 1_600_000).unwrap().get_mass() <= MASS_MAX);
}

#[test]
fn position_is_refused_before_anything_else() {
    assert_eq!(
        create_missile(POSITION_MAX + 1, 0, VELOCITY_MAX + 1, Vec2::new(0, 0)).unwrap_err(),
        ConfigError::PositionOutOfRange
    );
    assert_eq!(
        create_missile(0, 0, VELOCITY_MAX + 1, Vec2::new(0, 0)).unwrap_err(),
        ConfigError::VelocityOutOfRange
    );
    assert_eq!(
        create_asteroid(0, 0, VELOCITY_MAX + 1, 0, 0).unwrap_err(),
        ConfigError::VelocityOutOfRange
    );
}

#[test]
fn force_changes_velocity_by_force_times_time_over_mass() {
    let mut m = missile_at(1_000_000, 600_000, INITIAL_SPEED);
    m.apply_force(Vec2::new(1_509_691_092, 2_012_921_456), DT);
    assert_eq!(m.get_velocity(), Vec2::new(10_000 + 251, 335));
    assert_eq!(m.get_pose().0, Vec2::new(1_000_000, 600_000));
    m.apply_force(Vec2::new(-1_509_691_092, -2_012_921_456), DT);
    assert_eq!(m.get_velocity(), Vec2::new(10_000, 0));
}

#[test]
fn velocity_stops_at_its_limit() {
    let mut m = missile_at(0, 0, 0);
    m.apply_force(Vec2::new(i64::MAX, i64::MIN), i64::MAX);
    assert_eq!(m.get_velocity(), Vec2::new(VELOCITY_MAX, -VELOCITY_MAX));
}

#[test]
fn zero_force_leaves_velocity_and_step_adds_velocity_times_time() {
    let mut a = create_asteroid(100_000, 200_000, 3_000, -4_000, 10_000).unwrap();
    a.apply_force(Vec2::new(0, 0), DT);
    assert_eq!(a.get_velocity(), Vec2::new(3_000, -4_000));
    a.update_pos(DT);
    // 3000 * 16667 / 1000000 = 50.001, 4000 * 16667 / 1000000 = 66.668
    assert_eq!(a.get_pose().0, Vec2::new(100_050, 199_934));
    a.update_pos(1_000_000);
    assert_eq!(a.get_pose().0, Vec2::new(103_050, 195_934));
    assert_eq!(a.get_velocity(), Vec2::new(3_000, -4_000));
}

#[test]
fn heading_follows_velocity_when_moving() {
    let mut a = create_asteroid(0, 0, 3_000, 4_000, 10_000).unwrap();
    assert_eq!(a.get_pose().1, east());
    a.update_pos(DT);
    assert_eq!(a.get_pose().1, Vec2::new(600_000, 800_000));
    let mut b = create_asteroid(0, 0, 0, -7_000, 10_000).unwrap();
    b.update_pos(DT);
    assert_eq!(b.get_pose().1, Vec2::new(0, -1_000_000));
}

#[test]
fn stationary_body_keeps_its_heading() {
    let north = Vec2::new(0, HEADING_UNIT);
    let mut m = create_missile(5_000, 5_000, 0, north).unwrap();
    m.update_pos(DT);
    assert_eq!(m.get_pose(), (Vec2::new(5_000, 5_000), north));
    // A squared speed of exactly the threshold still counts as stationary.
    let mut slow = create_asteroid(0, 0, 60, 80, 10_000).unwrap();
    slow.update_pos(1_000_000);
    assert_eq!(slow.get_pose(), (Vec2::new(60, 80), east()));
    let mut faster = create_asteroid(0, 0, 60, 81, 10_000).unwrap();
    faster.update_pos(1_000_000);
    assert_eq!(faster.get_pose().1, Vec2::new(600_000, 810_000));
}

#[test]
fn position_stops_at_its_limit() {
    let mut a = create_asteroid(POSITION_MAX, -POSITION_MAX, VELOCITY_MAX, -VELOCITY_MAX, 10_000)
        .unwrap();
    a.update_pos(1_000_000);
    assert_eq!(a.get_pose().0, Vec2::new(POSITION_MAX, -POSITION_MAX));
}

#[test]
fn pull_follows_newton() {
    let m = missile_at(1_000_000, 600_000, 0);
    let left = create_planet(500_000, 600_000, 50_000).unwrap();
    let right = create_planet(1_500_000, 600_000, 50_000).unwrap();
    let diagonal = create_planet(1_300_000, 1_000_000, 50_000).unwrap();
    assert_eq!(m.pull_from(&left), Vec2::new(-2_516_151_821, 0));
    assert_eq!(m.pull_from(&right), Vec2::new(2_516_151_821, 0));
    assert_eq!(m.pull_from(&diagonal), Vec2::new(1_509_691_092, 2_012_921_456));
}

#[test]
fn equal_planets_on_both_sides_cancel() {
    let m = missile_at(1_000_000, 600_000, 0);
    let left = create_planet(500_000, 600_000, 50_000).unwrap();
    let right = create_planet(1_500_000, 600_000, 50_000).unwrap();
    assert_eq!(distance(&left, &right), 1_000_000);
    assert_eq!(m.net_gravity(&vec![left, right]), Vec2::new(0, 0));
    assert_eq!(m.net_gravity(&vec![right, left]), Vec2::new(0, 0));
}

#[test]
fn net_force_points_to_the_heavier_planet() {
    let m = missile_at(1_000_000, 600_000, 0);
    let left = create_planet(500_000, 600_000, 50_000).unwrap();
    let heavy = create_planet(1_500_000, 600_000, 60_000).unwrap();
    assert_eq!(m.pull_from(&heavy), Vec2::new(3_623_258_622, 0));
    let net = m.net_gravity(&vec![left, heavy]);
    assert_eq!(net, Vec2::new(1_107_106_801, 0));
    assert_eq!(m.net_gravity(&vec![heavy, left]), net);
    let mirrored = m.net_gravity(&vec![
        create_planet(500_000, 600_000, 60_000).unwrap(),
        create_planet(1_500_000, 600_000, 50_000).unwrap(),
    ]);
    assert_eq!(mirrored, Vec2::new(-1_107_106_801, 0));
}

#[test]
fn no_bodies_no_force() {
    let mut m = missile_at(1_000_000, 600_000, INITIAL_SPEED);
    assert_eq!(m.net_gravity(&Vec::new()), Vec2::new(0, 0));
    m.apply_gravity(&Vec::new(), DT);
    assert_eq!(m.get_velocity(), Vec2::new(INITIAL_SPEED, 0));
}

#[test]
fn gravity_applies_the_net_force_once() {
    let bodies = vec![
        create_planet(1_300_000, 1_000_000, 50_000).unwrap(),
        create_asteroid(900_000, 500_000, 0, 0, 10_000).unwrap(),
        create_ufo(1_000_000, 100_000, 0, 0).unwrap(),
    ];
    let mut by_gravity = missile_at(1_000_000, 600_000, INITIAL_SPEED);
    let mut by_force = missile_at(1_000_000, 600_000, INITIAL_SPEED);
    let net = by_force.net_gravity(&bodies);
    by_gravity.apply_gravity(&bodies, DT);
    by_force.apply_force(net, DT);
    assert_eq!(by_gravity.get_velocity(), by_force.get_velocity());
    assert_eq!(by_gravity.get_pose(), by_force.get_pose());
    assert_eq!(by_gravity.get_velocity(), Vec2::new(10_251, 335));
}

#[test]
fn coinciding_bodies_pull_with_a_finite_force() {
    let m = missile_at(0, 0, 0);
    let same_place = create_planet(0, 0, 50_000).unwrap();
    assert_eq!(m.pull_from(&same_place), Vec2::new(0, 0));
    // Closer than one world unit the distance counts as one world unit.
    let one_off = create_planet(1, 0, 50_000).unwrap();
    assert_eq!(m.pull_from(&one_off), Vec2::new(629_037_955_317, 0));
    let near = create_planet(300, -400, 50_000).unwrap();
    assert_eq!(m.pull_from(&near), Vec2::new(188_711_386_595_261, -251_615_182_127_014));
    let pebble = create_asteroid(3_000, -4_000, 0, 0, 10_000).unwrap();
    assert_eq!(m.pull_from(&pebble), Vec2::new(502, -670));
}

#[test]
fn mass_and_shape_survive_many_steps() {
    let planet = create_planet(1_050_000, 650_000, 50_000).unwrap();
    let bodies = vec![planet];
    let mut m = missile_at(1_000_000, 600_000, INITIAL_SPEED);
    for _ in 0..500 {
        m.apply_gravity(&bodies, DT);
        m.update_pos(DT);
        assert_eq!(m.get_mass(), MISSILE_MASS);
        assert_eq!(m.get_radius(), 0);
        assert_eq!(m.get_entity_type(), EntityType::Missile);
        let (pos, heading) = m.get_pose();
        let vel = m.get_velocity();
        assert!(pos.x.abs() <= POSITION_MAX && pos.y.abs() <= POSITION_MAX);
        assert!(vel.x.abs() <= VELOCITY_MAX && vel.y.abs() <= VELOCITY_MAX);
        assert!(heading.x.abs() <= HEADING_UNIT && heading.y.abs() <= HEADING_UNIT);
    }
}

#[test]
fn play_area_includes_its_border() {
    assert!(!missile_at(0, 0, 0).is_out_of_bounds());
    assert!(!missile_at(WINDOW_WIDTH, WINDOW_HEIGHT, 0).is_out_of_bounds());
    assert!(missile_at(WINDOW_WIDTH + 1, 0, 0).is_out_of_bounds());
    assert!(missile_at(-1, 0, 0).is_out_of_bounds());
    assert!(missile_at(0, WINDOW_HEIGHT + 1, 0).is_out_of_bounds());
    assert!(missile_at(0, -1, 0).is_out_of_bounds());
}

#[test]
fn distance_is_euclidean_and_rounded_down() {
    let a = create_asteroid(0, 0, 0, 0, 10_000).unwrap();
    let b = create_asteroid(3_000, 4_000, 0, 0, 10_000).unwrap();
    let c = create_asteroid(1, 1, 0, 0, 10_000).unwrap();
    assert_eq!(distance(&a, &b), 5_000);
    assert_eq!(distance(&b, &a), 5_000);
    assert_eq!(distance(&a, &a), 0);
    assert_eq!(distance(&a, &c), 1);
    let far = create_asteroid(POSITION_MAX, POSITION_MAX, 0, 0, 10_000).unwrap();
    let opposite = create_asteroid(-POSITION_MAX, -POSITION_MAX, 0, 0, 10_000).unwrap();
    assert_eq!(distance(&far, &opposite), 2_828_427_124_746);
}
