//! The per-entity behaviour: missile flight and collisions, spaceship
//! kinematics, shield and destruction.  Coordinates are in ticks: one screen
//! unit is 1000 ticks.

use asteroids::Asteroid;
use asteroids::Missile;
use asteroids::Spaceship;
use asteroids::StellarObject;
use asteroids::Vec2;
use asteroids::spaceship::INITIAL_SHIELD;

const BOUNDS: (i64, i64) = (800_000, 600_000);

/// The unit direction for orientation 0: `(sin 0, -cos 0) = (0, -1)`.
const DIR_UP: Vec2 = Vec2 { x: 0, y: -1000 };

#[test]
fn test_missile_update() {
    let position = Vec2 { x: 100_000, y: 100_000 };
    let mut missile = Missile::new(position, DIR_UP, BOUNDS);

    missile.update();

    assert_ne!(missile.get_position(), position);
}

#[test]
fn test_missile_out_of_bounds() {
    let position = Vec2 { x: 100_000, y: 100_000 };
    let mut missile = Missile::new(position, DIR_UP, BOUNDS);

    for _ in 0..100 {
        missile.update();
    }

    assert_eq!(missile.is_active(), false);
}

#[test]
fn test_missile_collision() {
    let position = Vec2 { x: 100_000, y: 100_000 };
    let mut missile = Missile::new(position, DIR_UP, BOUNDS);

    let mut asteroid = Asteroid::new(10_000, BOUNDS);
    asteroid.set_position(Vec2 { x: 105_000, y: 105_000 });

    assert_eq!(missile.check_collision(&asteroid), true);
    assert_eq!(missile.is_active(), false);
}

#[test]
fn test_no_collision() {
    let position = Vec2 { x: 100_000, y: 100_000 };
    let mut missile = Missile::new(position, DIR_UP, BOUNDS);

    let mut asteroid = Asteroid::new(10_000, BOUNDS);
    asteroid.set_position(Vec2 { x: 120_000, y: 120_000 });

    assert_eq!(missile.check_collision(&asteroid), false);
    assert_eq!(missile.is_active(), true);
}

#[test]
fn test_spaceship_new() {
    let spaceship = Spaceship::new(BOUNDS);

    assert_eq!(spaceship.position, Vec2 { x: 400_000, y: 300_000 });
    assert_eq!(spaceship.speed, Vec2 { x: 0, y: 0 });
    assert_eq!(spaceship.orientation, 0);
    assert_eq!(spaceship.shield, INITIAL_SHIELD);
    assert_eq!(spaceship.screen_size, BOUNDS);
}

#[test]
fn test_update() {
    let mut spaceship = Spaceship::new(BOUNDS);

    spaceship.update();
    spaceship.position = Vec2 { x: -10_000, y: 300_000 };
    spaceship.update();
    assert_eq!(spaceship.position.x, 800_000);
}

#[test]
fn test_spaceship_thrust() {
    let mut spaceship = Spaceship::new(BOUNDS);

    spaceship.activate_thrust(DIR_UP);
    let len2 = spaceship.speed.x * spaceship.speed.x + spaceship.speed.y * spaceship.speed.y;
    assert!(len2 > 0);

    spaceship.activate_thrust(DIR_UP);
    let len2_after =
        spaceship.speed.x * spaceship.speed.x + spaceship.speed.y * spaceship.speed.y;
    assert!(len2_after > len2);
}

#[test]
fn test_spaceship_rotation() {
    let mut spaceship = Spaceship::new(BOUNDS);

    spaceship.right_rotation();
    assert!(spaceship.orientation > 0);

    let orientation_after_right = spaceship.orientation;
    spaceship.left_rotation();
    assert!(spaceship.orientation < orientation_after_right);
}

#[test]
fn test_spaceship_collision() {
    let mut spaceship = Spaceship::new(BOUNDS);

    let mut asteroid = Asteroid::new(20_000, BOUNDS);
    asteroid.set_position(Vec2 { x: 400_000, y: 300_000 });

    let initial_shield = spaceship.shield;
    let collision = spaceship.check_collision(&asteroid);

    assert!(collision);
    assert_eq!(spaceship.shield, initial_shield - 1);
    assert_eq!(spaceship.position, Vec2 { x: 400_000, y: 300_000 });
    assert_eq!(spaceship.speed, Vec2 { x: 0, y: 0 });
}

#[test]
fn test_spaceship_destruction() {
    let mut spaceship = Spaceship::new(BOUNDS);

    spaceship.shield = 1;
    spaceship.decrease_shield();
    assert!(spaceship.is_destroyed());

    spaceship.shield = 0;
    assert!(spaceship.is_destroyed());
}
