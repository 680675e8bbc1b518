//! The description of a level and the bodies that it stands for.

use crate::body::Body;
use crate::entity::{
    asteroid_body, asteroid_error, bodies, create_asteroid, create_missile, create_planet,
    create_ufo, first_error, missile_body, missile_error, planet_body, planet_error, ufo_body,
    lemma_asteroid_body_valid, lemma_missile_body_valid, lemma_planet_body_valid,
    lemma_ufo_body_valid, ufo_error, ConfigError, Entity, EntityType,
};
use crate::vector::Vec2;
use crate::INITIAL_SPEED;
use vstd::prelude::*;

verus! {

/// Where the missile starts and where it points.
#[derive(Debug, Clone, Copy, PartialEq, Eq, Structural)]
pub struct MissileData {
    pub position: Vec2,
    pub heading: Vec2,
}

/// Where the target starts and how it moves.
#[derive(Debug, Clone, Copy, PartialEq, Eq, Structural)]
pub struct UfoData {
    pub position: Vec2,
    pub speed: Vec2,
}

#[derive(Debug, Clone, Copy, PartialEq, Eq, Structural)]
pub struct PlanetData {
    pub position: Vec2,
    pub radius: i64,
}

#[derive(Debug, Clone, Copy, PartialEq, Eq, Structural)]
pub struct AsteroidData {
    pub position: Vec2,
    pub velocity: Vec2,
    pub radius: i64,
}

/// The description of one level.
#[derive(Debug, Clone)]
pub struct SpaceData {
    pub missile: MissileData,
    pub ufo: UfoData,
    pub planets: Vec<PlanetData>,
    pub asteroids: Vec<AsteroidData>,
}

/// The mathematical model of a level's description.
pub struct Level {
    pub missile: MissileData,
    pub ufo: UfoData,
    pub planets: Seq<PlanetData>,
    pub asteroids: Seq<AsteroidData>,
}

impl View for SpaceData {
    type V = Level;

    open spec fn view(&self) -> Level {
        Level {
            missile: self.missile,
            ufo: self.ufo,
            planets: self.planets@,
            asteroids: self.asteroids@,
        }
    }
}

pub open spec fn missile_of(m: MissileData) -> Body {
    missile_body(m.position.x as int, m.position.y as int, INITIAL_SPEED as int, m.heading@)
}

pub open spec fn missile_data_error(m: MissileData) -> Option<ConfigError> {
    missile_error(m.position.x as int, m.position.y as int, INITIAL_SPEED as int, m.heading@)
}

pub open spec fn ufo_of(u: UfoData) -> Body {
    ufo_body(u.position.x as int, u.position.y as int, u.speed.x as int, u.speed.y as int)
}

pub open spec fn ufo_data_error(u: UfoData) -> Option<ConfigError> {
    ufo_error(u.position.x as int, u.position.y as int, u.speed.x as int, u.speed.y as int)
}

pub open spec fn planet_of(p: PlanetData) -> Body {
    planet_body(p.position.x as int, p.position.y as int, p.radius as int)
}

pub open spec fn planet_data_error(p: PlanetData) -> Option<ConfigError> {
    planet_error(p.position.x as int, p.position.y as int, p.radius as int)
}

pub open spec fn asteroid_of(a: AsteroidData) -> Body {
    asteroid_body(
        a.position.x as int,
        a.position.y as int,
        a.velocity.x as int,
        a.velocity.y as int,
        a.radius as int,
    )
}

pub open spec fn asteroid_data_error(a: AsteroidData) -> Option<ConfigError> {
    asteroid_error(
        a.position.x as int,
        a.position.y as int,
        a.velocity.x as int,
        a.velocity.y as int,
        a.radius as int,
    )
}

/// The first refusal among the first `n` asteroids.
pub open spec fn asteroids_error(list: Seq<AsteroidData>, n: int) -> Option<ConfigError>
    decreases n,
{
    if n <= 0 {
        None
    } else {
        first_error(asteroids_error(list, n - 1), asteroid_data_error(list[n - 1]))
    }
}

/// The first refusal among the first `n` planets.
pub open spec fn planets_error(list: Seq<PlanetData>, n: int) -> Option<ConfigError>
    decreases n,
{
    if n <= 0 {
        None
    } else {
        first_error(planets_error(list, n - 1), planet_data_error(list[n - 1]))
    }
}

impl Level {
    /// The bodies other than the missile: the target, then the asteroids,
    /// then the planets, each group in the order of the description.
    pub open spec fn others(self) -> Seq<Body> {
        seq![ufo_of(self.ufo)] + Seq::new(
            self.asteroids.len(),
            |i: int| asteroid_of(self.asteroids[i]),
        ) + Seq::new(self.planets.len(), |i: int| planet_of(self.planets[i]))
    }

    /// All bodies of the level, the missile last.
    pub open spec fn all_bodies(self) -> Seq<Body> {
        self.others().push(missile_of(self.missile))
    }

    /// Whether some other body starts at the missile's position.
    pub open spec fn has_body_at_missile(self) -> bool {
        exists|i: int|
            0 <= i < self.others().len() && (#[trigger] self.others()[i]).pos == missile_of(
                self.missile,
            ).pos
    }

    /// Why the level is refused, if it is: for the first body that is
    /// refused, in the order target, asteroids, planets, missile; else for a
    /// body at the missile's position.
    pub open spec fn error(self) -> Option<ConfigError> {
        first_error(
            ufo_data_error(self.ufo),
            first_error(
                asteroids_error(self.asteroids, self.asteroids.len() as int),
                first_error(
                    planets_error(self.planets, self.planets.len() as int),
                    first_error(
                        missile_data_error(self.missile),
                        if self.has_body_at_missile() {
                            Some(ConfigError::CoincidentBodies)
                        } else {
                            None
                        },
                    ),
                ),
            ),
        )
    }
}

/// Builds the bodies of a level: the target, the asteroids, the planets and
/// last the missile. Fails with the level's first refusal.
pub fn load_level_entities(data: &SpaceData) -> (r: Result<Vec<Entity>, ConfigError>)
    ensures
        match r {
            Ok(entities) => data@.error() is None && bodies(entities@) == data@.all_bodies(),
            Err(err) => data@.error() == Some(err),
        },
{
    let mut entities: Vec<Entity> = Vec::new();
    match create_ufo(data.ufo.position.x, data.ufo.position.y, data.ufo.speed.x, data.ufo.speed.y) {
        Err(err) => {
            return Err(err);
        },
        Ok(ufo) => {
            entities.push(ufo);
        },
    }
    let mut i: usize = 0;
    while i < data.asteroids.len()
        invariant
            i <= data.asteroids.len(),
            ufo_data_error(data.ufo) is None,
            asteroids_error(data.asteroids@, i as int) is None,
            entities.len() == 1 + i,
            bodies(entities@) == seq![ufo_of(data.ufo)] + Seq::new(
                i as nat,
                |k: int| asteroid_of(data.asteroids@[k]),
            ),
        decreases data.asteroids.len() - i,
    {
        let a = &data.asteroids[i];
        match create_asteroid(a.position.x, a.position.y, a.velocity.x, a.velocity.y, a.radius) {
            Err(err) => {
                proof {
                    lemma_asteroids_error_stays(data.asteroids@, i as int + 1, data.asteroids.len() as int);
                }
                return Err(err);
            },
            Ok(asteroid) => {
                let ghost before = bodies(entities@);
                entities.push(asteroid);
                assert(bodies(entities@) =~= before.push(asteroid@));
                assert(before.push(asteroid@) =~= seq![ufo_of(data.ufo)] + Seq::new(
                    (i + 1) as nat,
                    |k: int| asteroid_of(data.asteroids@[k]),
                ));
            },
        }
        i = i + 1;
    }
    let mut j: usize = 0;
    let ghost head = seq![ufo_of(data.ufo)] + Seq::new(
        data.asteroids.len() as nat,
        |k: int| asteroid_of(data.asteroids@[k]),
    );
    while j < data.planets.len()
        invariant
            j <= data.planets.len(),
            ufo_data_error(data.ufo) is None,
            asteroids_error(data.asteroids@, data.asteroids.len() as int) is None,
            planets_error(data.planets@, j as int) is None,
            entities.len() == 1 + data.asteroids.len() + j,
            head == seq![ufo_of(data.ufo)] + Seq::new(
                data.asteroids.len() as nat,
                |k: int| asteroid_of(data.asteroids@[k]),
            ),
            bodies(entities@) == head + Seq::new(j as nat, |k: int| planet_of(data.planets@[k])),
        decreases data.planets.len() - j,
    {
        let p = &data.planets[j];
        match create_planet(p.position.x, p.position.y, p.radius) {
            Err(err) => {
                proof {
                    lemma_planets_error_stays(data.planets@, j as int + 1, data.planets.len() as int);
                }
                return Err(err);
            },
            Ok(planet) => {
                let ghost before = bodies(entities@);
                entities.push(planet);
                assert(bodies(entities@) =~= before.push(planet@));
                assert(before.push(planet@) =~= head + Seq::new(
                    (j + 1) as nat,
                    |k: int| planet_of(data.planets@[k]),
                ));
            },
        }
        j = j + 1;
    }
    assert(bodies(entities@) =~= data@.others());
    let missile = match create_missile(
        data.missile.position.x,
        data.missile.position.y,
        INITIAL_SPEED,
        data.missile.heading,
    ) {
        Err(err) => {
            return Err(err);
        },
        Ok(missile) => missile,
    };
    if occupies(&entities, missile.get_pose().0) {
        return Err(ConfigError::CoincidentBodies);
    }
    let ghost before = bodies(entities@);
    entities.push(missile);
    assert(bodies(entities@) =~= before.push(missile@));
    Ok(entities)
}

/// Tells whether one of `entities` is at `position`.
pub fn occupies(entities: &Vec<Entity>, position: Vec2) -> (found: bool)
    ensures
        found == exists|i: int|
            0 <= i < entities.len() && (#[trigger] bodies(entities@)[i]).pos == position@,
{
    let mut i: usize = 0;
    while i < entities.len()
        invariant
            i <= entities.len(),
            forall|k: int| 0 <= k < i ==> (#[trigger] bodies(entities@)[k]).pos != position@,
        decreases entities.len() - i,
    {
        let pose = entities[i].get_pose();
        if pose.0.x == position.x && pose.0.y == position.y {
            assert(bodies(entities@)[i as int].pos == position@);
            return true;
        }
        i = i + 1;
    }
    false
}

/// Once an asteroid is refused, the refusal stays the list's first.
pub proof fn lemma_asteroids_error_stays(list: Seq<AsteroidData>, n: int, m: int)
    requires
        0 <= n <= m,
        asteroids_error(list, n) is Some,
    ensures
        asteroids_error(list, m) == asteroids_error(list, n),
    decreases m - n,
{
    if n < m {
        lemma_asteroids_error_stays(list, n, m - 1);
    }
}

/// Once a planet is refused, the refusal stays the list's first.
pub proof fn lemma_planets_error_stays(list: Seq<PlanetData>, n: int, m: int)
    requires
        0 <= n <= m,
        planets_error(list, n) is Some,
    ensures
        planets_error(list, m) == planets_error(list, n),
    decreases m - n,
{
    if n < m {
        lemma_planets_error_stays(list, n, m - 1);
    }
}

/// A list of asteroids without a refusal holds no refused asteroid.
pub proof fn lemma_asteroids_accepted(list: Seq<AsteroidData>, n: int, i: int)
    requires
        0 <= i < n,
        asteroids_error(list, n) is None,
    ensures
        asteroid_data_error(list[i]) is None,
    decreases n,
{
    if i < n - 1 {
        lemma_asteroids_accepted(list, n - 1, i);
    }
}

/// A list of planets without a refusal holds no refused planet.
pub proof fn lemma_planets_accepted(list: Seq<PlanetData>, n: int, i: int)
    requires
        0 <= i < n,
        planets_error(list, n) is None,
    ensures
        planet_data_error(list[i]) is None,
    decreases n,
{
    if i < n - 1 {
        lemma_planets_accepted(list, n - 1, i);
    }
}

/// The bodies of an accepted level are valid, the missile is the only
/// missile among them, and no other body starts where the missile starts.
pub proof fn lemma_accepted_level_valid(level: Level)
    requires
        level.error() is None,
    ensures
        missile_of(level.missile).valid(),
        missile_of(level.missile).kind == EntityType::Missile,
        forall|i: int|
            0 <= i < level.others().len() ==> {
                &&& (#[trigger] level.others()[i]).valid()
                &&& level.others()[i].kind != EntityType::Missile
                &&& level.others()[i].pos != missile_of(level.missile).pos
            },
{
    let m = level.missile;
    lemma_missile_body_valid(
        m.position.x as int,
        m.position.y as int,
        INITIAL_SPEED as int,
        m.heading@,
    );
    let u = level.ufo;
    lemma_ufo_body_valid(
        u.position.x as int,
        u.position.y as int,
        u.speed.x as int,
        u.speed.y as int,
    );
    let count = level.asteroids.len() as int;
    assert forall|i: int| 0 <= i < level.others().len() implies {
        &&& (#[trigger] level.others()[i]).valid()
        &&& level.others()[i].kind != EntityType::Missile
        &&& level.others()[i].pos != missile_of(level.missile).pos
    } by {
        if i == 0 {
        } else if i < 1 + count {
            let a = level.asteroids[i - 1];
            lemma_asteroids_accepted(level.asteroids, count, i - 1);
            lemma_asteroid_body_valid(
                a.position.x as int,
                a.position.y as int,
                a.velocity.x as int,
                a.velocity.y as int,
                a.radius as int,
            );
            assert(level.others()[i] == asteroid_of(a));
        } else {
            let p = level.planets[i - 1 - count];
            lemma_planets_accepted(level.planets, level.planets.len() as int, i - 1 - count);
            lemma_planet_body_valid(p.position.x as int, p.position.y as int, p.radius as int);
            assert(level.others()[i] == planet_of(p));
        }
    }
}

} // verus!
