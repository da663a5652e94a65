//! The splitting rules, the edge behaviours, the exact fixed-point
//! kinematics, and whole simulation steps.

use asteroids::Asteroid;
use asteroids::GameOutcome;
use asteroids::Missile;
use asteroids::Spaceship;
use asteroids::StellarObject;
use asteroids::Vec2;
use asteroids::asteroid::{ASTEROID_INIT_SIZE, ASTEROID_MEDIUM_SIZE, ASTEROID_SMALL_SIZE};
use asteroids::game::{elapsed_minutes_seconds, game_outcome, init_game, update_model};
use asteroids::spaceship::INITIAL_SHIELD;

const BOUNDS: (i64, i64) = (800_000, 600_000);

const DIR_UP: Vec2 = Vec2 { x: 0, y: -1000 };

fn asteroid_at(pos: Vec2, speed: Vec2, size: i64) -> Asteroid {
    Asteroid { position: pos, speed, size, screen_size: BOUNDS }
}

/// Within 25 to 50 units of one of the four screen edges.
fn in_spawn_band(p: Vec2) -> bool {
    (25_000 <= p.y && p.y <= 50_000)
        || (BOUNDS.0 - 50_000 <= p.x && p.x <= BOUNDS.0 - 25_000)
        || (BOUNDS.1 - 50_000 <= p.y && p.y <= BOUNDS.1 - 25_000)
        || (25_000 <= p.x && p.x <= 50_000)
}

/// Unit length up to rounding: the squared length within 0.4% of one
/// squared unit.
fn near_unit(v: Vec2) -> bool {
    let len2 = v.x * v.x + v.y * v.y;
    996_000 <= len2 && len2 <= 1_002_000
}

#[test]
fn test_split_large_yields_two_mediums() {
    let parent = asteroid_at(Vec2 { x: 400_000, y: 300_000 }, Vec2 { x: 0, y: 0 },
        ASTEROID_INIT_SIZE);
    let (c1, c2) = parent.split_asteroid().expect("a large asteroid splits");

    assert_eq!(c1.size, ASTEROID_MEDIUM_SIZE);
    assert_eq!(c2.size, ASTEROID_MEDIUM_SIZE);
    assert_eq!(c1.position, Vec2 { x: 450_000, y: 350_000 });
    assert_eq!(c2.position, Vec2 { x: 450_000, y: 250_000 });
    assert!(near_unit(c1.speed));
    assert!(near_unit(c2.speed));
}

#[test]
fn test_split_medium_yields_two_smalls() {
    let parent = asteroid_at(Vec2 { x: 200_000, y: 200_000 }, Vec2 { x: 0, y: 0 },
        ASTEROID_MEDIUM_SIZE);
    let (c1, c2) = parent.split_asteroid().expect("a medium asteroid splits");

    assert_eq!(c1.size, ASTEROID_SMALL_SIZE);
    assert_eq!(c2.size, ASTEROID_SMALL_SIZE);
    assert_eq!(c1.position, Vec2 { x: 250_000, y: 250_000 });
    assert_eq!(c2.position, Vec2 { x: 250_000, y: 150_000 });
}

#[test]
fn test_split_small_returns_none() {
    let parent = asteroid_at(Vec2 { x: 200_000, y: 200_000 }, Vec2 { x: 0, y: 0 },
        ASTEROID_SMALL_SIZE);
    assert!(parent.split_asteroid().is_none());
}

#[test]
fn test_split_off_ladder_returns_none() {
    let parent = asteroid_at(Vec2 { x: 200_000, y: 200_000 }, Vec2 { x: 0, y: 0 }, 10_000);
    assert!(parent.split_asteroid().is_none());
}

#[test]
fn test_asteroid_reflects_at_edges() {
    // Below zero: the coordinate reflects to `max - c`, which lands past the
    // edge by the overshoot (a quirk of the rule, kept as is).
    let mut a = asteroid_at(Vec2 { x: 500, y: 300_000 }, Vec2 { x: -1000, y: 0 },
        ASTEROID_INIT_SIZE);
    a.update();
    assert_eq!(a.position, Vec2 { x: 800_500, y: 300_000 });

    // Beyond the far edge: the coordinate comes back by `max`.
    let mut b = asteroid_at(Vec2 { x: 799_800, y: 300_000 }, Vec2 { x: 1000, y: 0 },
        ASTEROID_INIT_SIZE);
    b.update();
    assert_eq!(b.position, Vec2 { x: 800, y: 300_000 });
}

#[test]
fn test_missile_step_is_exact() {
    // Velocity (0, -80) units/s; one 0.04 s step moves 3.2 units = 3200 ticks.
    let mut m = Missile::new(Vec2 { x: 100_000, y: 100_000 }, DIR_UP, BOUNDS);
    m.update();
    assert_eq!(m.get_position(), Vec2 { x: 100_000, y: 96_800 });
    assert!(m.is_active());
}

#[test]
fn test_inactive_missile_update_is_noop() {
    let mut m = Missile {
        position: Vec2 { x: 50_000, y: 50_000 },
        speed: Vec2 { x: 0, y: -80_000 },
        is_active: false,
        screen_size: BOUNDS,
    };
    let before = m;
    m.update();
    assert_eq!(m, before);

    let asteroid = asteroid_at(Vec2 { x: 50_000, y: 50_000 }, Vec2 { x: 0, y: 0 },
        ASTEROID_INIT_SIZE);
    assert!(!m.check_collision(&asteroid));
    assert_eq!(m, before);
}

#[test]
fn test_missile_never_reactivates() {
    let mut m = Missile::new(Vec2 { x: 100_000, y: 2_000 }, DIR_UP, BOUNDS);
    m.update();
    assert!(!m.is_active());
    for _ in 0..5 {
        m.update();
        assert!(!m.is_active());
    }
}

#[test]
fn test_friction_is_exact() {
    let mut ship = Spaceship::new(BOUNDS);
    ship.speed = Vec2 { x: 10_000, y: 0 };
    ship.update();
    assert_eq!(ship.speed, Vec2 { x: 9_900, y: 0 });
    assert_eq!(ship.position, Vec2 { x: 409_900, y: 300_000 });
}

#[test]
fn test_min_speed_clamp() {
    // Friction takes (30, 40) to (29, 39), whose length is below the minimum
    // speed of 50 ticks, so it is rescaled back up.
    let mut ship = Spaceship::new(BOUNDS);
    ship.speed = Vec2 { x: 30, y: 40 };
    ship.update();
    assert_eq!(ship.speed, Vec2 { x: 30, y: 40 });
}

#[test]
fn test_zero_speed_stays_zero() {
    let mut ship = Spaceship::new(BOUNDS);
    ship.update();
    assert_eq!(ship.speed, Vec2 { x: 0, y: 0 });
    assert_eq!(ship.position, Vec2 { x: 400_000, y: 300_000 });
}

#[test]
fn test_thrust_impulse_and_cap() {
    let mut ship = Spaceship::new(BOUNDS);
    ship.activate_thrust(DIR_UP);
    // One impulse: 10 units/s^2 * 0.0168 = 0.168 units = 168 ticks.
    assert_eq!(ship.speed, Vec2 { x: 0, y: -168 });

    // A ship already at top speed is capped back to it.
    ship.speed = Vec2 { x: 50_000, y: 0 };
    ship.activate_thrust(Vec2 { x: 1000, y: 0 });
    assert_eq!(ship.speed, Vec2 { x: 50_000, y: 0 });
}

#[test]
fn test_ship_wraps_to_opposite_edges() {
    let mut ship = Spaceship::new(BOUNDS);
    ship.position = Vec2 { x: 400_000, y: 601_000 };
    ship.update();
    assert_eq!(ship.position, Vec2 { x: 400_000, y: 0 });

    ship.position = Vec2 { x: 400_000, y: -300 };
    ship.update();
    assert_eq!(ship.position, Vec2 { x: 400_000, y: 600_000 });
}

#[test]
fn test_spawn_within_bounds() {
    for _ in 0..50 {
        let a = Asteroid::new(ASTEROID_INIT_SIZE, BOUNDS);
        assert!(0 <= a.position.x && a.position.x <= BOUNDS.0);
        assert!(0 <= a.position.y && a.position.y <= BOUNDS.1);
        assert!(in_spawn_band(a.position));
        assert!(-1000 <= a.speed.x && a.speed.x <= 1000);
        assert!(-1000 <= a.speed.y && a.speed.y <= 1000);
        assert!(near_unit(a.speed));
        assert_eq!(a.size, ASTEROID_INIT_SIZE);
        assert_eq!(a.screen_size, BOUNDS);
    }
}

#[test]
fn test_step_without_collisions() {
    let mut asteroids = vec![
        asteroid_at(Vec2 { x: 100_000, y: 100_000 }, Vec2 { x: 1000, y: 0 },
            ASTEROID_INIT_SIZE),
    ];
    let mut ship = Spaceship::new(BOUNDS);
    let mut missiles: Vec<Missile> = Vec::new();

    let ev = update_model(&mut asteroids, &mut ship, &mut missiles);

    assert_eq!(ev.ship_hits, 0);
    assert_eq!(ev.missile_hits, 0);
    assert!(!ev.ship_destroyed);
    assert_eq!(asteroids.len(), 1);
    assert_eq!(asteroids[0].position, Vec2 { x: 101_000, y: 100_000 });
    assert_eq!(ship.shield, INITIAL_SHIELD);
    assert!(missiles.is_empty());
}

#[test]
fn test_step_missile_destroys_asteroid() {
    let mut asteroids = vec![
        asteroid_at(Vec2 { x: 100_000, y: 100_000 }, Vec2 { x: 1000, y: 0 },
            ASTEROID_INIT_SIZE),
    ];
    let mut ship = Spaceship::new(BOUNDS);
    // After its in-scan step the missile stands exactly on the asteroid's
    // post-step position (101_000, 100_000).
    let mut missiles = vec![Missile::new(Vec2 { x: 101_000, y: 103_200 }, DIR_UP, BOUNDS)];

    let ev = update_model(&mut asteroids, &mut ship, &mut missiles);

    assert_eq!(ev.ship_hits, 0);
    assert_eq!(ev.missile_hits, 1);
    assert_eq!(asteroids.len(), 2);
    assert_eq!(asteroids[0].size, ASTEROID_MEDIUM_SIZE);
    assert_eq!(asteroids[1].size, ASTEROID_MEDIUM_SIZE);
    assert_eq!(asteroids[0].position, Vec2 { x: 151_000, y: 150_000 });
    assert_eq!(asteroids[1].position, Vec2 { x: 151_000, y: 50_000 });
    // The hit spent the missile, so the end-of-frame pass dropped it.
    assert!(missiles.is_empty());
    assert_eq!(ship.shield, INITIAL_SHIELD);
}

#[test]
fn test_step_ship_collision_costs_shield() {
    let mut asteroids = vec![
        asteroid_at(Vec2 { x: 400_000, y: 300_000 }, Vec2 { x: 1000, y: 0 },
            ASTEROID_INIT_SIZE),
    ];
    let mut ship = Spaceship::new(BOUNDS);
    let mut missiles: Vec<Missile> = Vec::new();

    let ev = update_model(&mut asteroids, &mut ship, &mut missiles);

    assert_eq!(ev.ship_hits, 1);
    assert!(!ev.ship_destroyed);
    assert_eq!(ship.shield, INITIAL_SHIELD - 1);
    assert_eq!(ship.position, Vec2 { x: 400_000, y: 300_000 });
    assert_eq!(ship.speed, Vec2 { x: 0, y: 0 });
    assert_eq!(ship.orientation, 0);
    assert_eq!(asteroids.len(), 2);
    assert_eq!(asteroids[0].size, ASTEROID_MEDIUM_SIZE);
    assert_eq!(asteroids[1].size, ASTEROID_MEDIUM_SIZE);
}

#[test]
fn test_step_destruction_halts_processing() {
    // Two asteroids on the ship; the first hit destroys the ship's last
    // charge, so the second asteroid is not processed and is dropped.
    let mut asteroids = vec![
        asteroid_at(Vec2 { x: 400_000, y: 300_000 }, Vec2 { x: 0, y: 0 }, ASTEROID_SMALL_SIZE),
        asteroid_at(Vec2 { x: 400_000, y: 300_000 }, Vec2 { x: 0, y: 0 }, ASTEROID_SMALL_SIZE),
    ];
    let mut ship = Spaceship::new(BOUNDS);
    ship.shield = 1;
    let mut missiles: Vec<Missile> = Vec::new();

    let ev = update_model(&mut asteroids, &mut ship, &mut missiles);

    assert_eq!(ev.ship_hits, 1);
    assert!(ev.ship_destroyed);
    assert_eq!(ship.shield, 0);
    assert!(asteroids.is_empty());
}

#[test]
fn test_step_with_no_asteroids() {
    let mut asteroids: Vec<Asteroid> = Vec::new();
    let mut ship = Spaceship::new(BOUNDS);
    ship.speed = Vec2 { x: 10_000, y: 0 };
    let mut missiles = vec![Missile::new(Vec2 { x: 100_000, y: 100_000 }, DIR_UP, BOUNDS)];

    let ev = update_model(&mut asteroids, &mut ship, &mut missiles);

    assert_eq!(ev.ship_hits, 0);
    assert_eq!(ev.missile_hits, 0);
    assert!(asteroids.is_empty());
    // The end-of-frame missile pass still runs: the missile advanced once.
    assert_eq!(missiles.len(), 1);
    assert_eq!(missiles[0].position, Vec2 { x: 100_000, y: 96_800 });
    // The ship still advances: friction, then the move.
    assert_eq!(ship.speed, Vec2 { x: 9_900, y: 0 });
    assert_eq!(ship.position, Vec2 { x: 409_900, y: 300_000 });
}

#[test]
fn test_game_outcomes() {
    let ship = Spaceship::new(BOUNDS);
    let one = vec![
        asteroid_at(Vec2 { x: 100_000, y: 100_000 }, Vec2 { x: 0, y: 0 }, ASTEROID_INIT_SIZE),
    ];
    let none: Vec<Asteroid> = Vec::new();
    assert_eq!(game_outcome(&one, &ship), GameOutcome::Playing);
    assert_eq!(game_outcome(&none, &ship), GameOutcome::Won);

    let mut dead = ship;
    dead.shield = 0;
    assert_eq!(game_outcome(&one, &dead), GameOutcome::Lost);
    assert_eq!(game_outcome(&none, &dead), GameOutcome::Lost);
}

#[test]
fn test_init_game() {
    let mut ship = Spaceship::new(BOUNDS);
    ship.shield = 1;
    let mut asteroids: Vec<Asteroid> = Vec::new();
    let mut missiles = vec![Missile::new(Vec2 { x: 100_000, y: 100_000 }, DIR_UP, BOUNDS)];

    init_game(BOUNDS, &mut ship, &mut asteroids, &mut missiles);

    assert_eq!(ship, Spaceship::new(BOUNDS));
    assert!(missiles.is_empty());
    assert!(4 <= asteroids.len() && asteroids.len() <= 8);
    for a in &asteroids {
        assert_eq!(a.size, ASTEROID_INIT_SIZE);
        assert_eq!(a.screen_size, BOUNDS);
        assert!(0 <= a.position.x && a.position.x <= BOUNDS.0);
        assert!(0 <= a.position.y && a.position.y <= BOUNDS.1);
        assert!(in_spawn_band(a.position));
        assert!(near_unit(a.speed));
    }
}

#[test]
fn test_elapsed_minutes_seconds() {
    assert_eq!(elapsed_minutes_seconds(0), (0, 0));
    assert_eq!(elapsed_minutes_seconds(59), (0, 59));
    assert_eq!(elapsed_minutes_seconds(125), (2, 5));
}
