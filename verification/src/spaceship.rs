//! The player's spaceship: thrust and friction kinematics, teleport
//! wraparound at the screen edges, and a shield that absorbs asteroid
//! collisions until it runs out.

use crate::geom::{
    bounds_ok,
    dist2,
    dist2_i64,
    isqrt,
    lemma_scaled_bounded,
    lemma_scaled_mag_le,
    lemma_scaled_shrinks,
    lemma_sqrt_floor_ge,
    scale_i64,
    scaled,
    sqrt_floor,
    Vec2,
    POS_LIMIT,
    SCALE,
};
use crate::stellarobject::StellarObject;
use vstd::prelude::*;

verus! {

/// Top speed, in ticks per frame (50 units).
pub const MAX_SPEED: i64 = 50_000;

/// Smallest nonzero speed, in ticks per frame (0.05 units): a slower ship is
/// pushed back up to it, so it either truly rests or visibly moves.
pub const MIN_SPEED: i64 = 50;

/// One thrust impulse adds `direction * THRUST_NUM / THRUST_DEN` to the
/// velocity: acceleration 10 units scaled by the 0.0168 frame factor.
pub const THRUST_NUM: i64 = 168;

pub const THRUST_DEN: i64 = 1000;

/// Velocity decays by the factor `FRICTION_NUM / FRICTION_DEN` every frame
/// (and once more on a braking input).
pub const FRICTION_NUM: i64 = 99;

pub const FRICTION_DEN: i64 = 100;

/// One rotation input turns the ship by 0.05 radians: 50 milliradians.
pub const ROTATION_SPEED: i64 = 50;

/// Orientations stay within this many milliradians, so that rotations cannot
/// overflow.
pub const ORIENT_LIMIT: i64 = 1_000_000_000_000_000;

/// The shield starts at this many charges.
pub const INITIAL_SHIELD: i32 = 3;

/// The ship's own collision radius, in ticks (15 units).
pub const SHIP_RADIUS: i64 = 15_000;

/// The player's ship.
#[derive(Clone, Copy, Debug, PartialEq, Eq)]
pub struct Spaceship {
    /// Screen bounds `(width, height)`, in ticks.
    pub screen_size: (i64, i64),
    /// Current position, in ticks.
    pub position: Vec2,
    /// Velocity in ticks per frame.
    pub speed: Vec2,
    /// Heading in milliradians; 0 points straight up.
    pub orientation: i64,
    /// Remaining shield charges; the ship is destroyed at 0.
    pub shield: i32,
}

/// Well-formedness, preserved by every operation.
pub open spec fn ship_wf(s: Spaceship) -> bool {
    &&& bounds_ok(s.screen_size)
    &&& -POS_LIMIT <= s.position.x <= POS_LIMIT
    &&& -POS_LIMIT <= s.position.y <= POS_LIMIT
    &&& -MAX_SPEED <= s.speed.x <= MAX_SPEED
    &&& -MAX_SPEED <= s.speed.y <= MAX_SPEED
    &&& -ORIENT_LIMIT <= s.orientation <= ORIENT_LIMIT
}

/// The ship's wraparound: a coordinate that leaves `[0, max]` teleports to
/// the opposite edge (not a reflection).
pub open spec fn wrap_coord(c: int, max: int) -> int {
    if c < 0 {
        max
    } else if c > max {
        0
    } else {
        c
    }
}

/// The screen center, where the ship starts and respawns.
pub open spec fn screen_center(screen: (i64, i64)) -> Vec2 {
    Vec2 { x: (screen.0 as int / 2) as i64, y: (screen.1 as int / 2) as i64 }
}

/// Velocity after one frame's friction and the minimum-speed clamp: decay by
/// `99/100`; then a nonzero velocity shorter than `MIN_SPEED` is rescaled up
/// to `MIN_SPEED`.
pub open spec fn ship_frame_speed(v: Vec2) -> Vec2 {
    let fx = scaled(v.x as int, FRICTION_NUM as int, FRICTION_DEN as int);
    let fy = scaled(v.y as int, FRICTION_NUM as int, FRICTION_DEN as int);
    let l2 = fx * fx + fy * fy;
    if 0 < l2 < MIN_SPEED * MIN_SPEED {
        let m = sqrt_floor(l2);
        Vec2 {
            x: scaled(fx, MIN_SPEED as int, m) as i64,
            y: scaled(fy, MIN_SPEED as int, m) as i64,
        }
    } else {
        Vec2 { x: fx as i64, y: fy as i64 }
    }
}

/// The exact state one frame later: friction and the minimum-speed clamp,
/// then a move by the new velocity, then wraparound on each axis.
pub open spec fn ship_stepped(s: Spaceship) -> Spaceship {
    let v = ship_frame_speed(s.speed);
    let nx = wrap_coord(s.position.x + v.x, s.screen_size.0 as int);
    let ny = wrap_coord(s.position.y + v.y, s.screen_size.1 as int);
    Spaceship { position: Vec2 { x: nx as i64, y: ny as i64 }, speed: v, ..s }
}

/// Velocity after one thrust impulse along `dir`: the impulse is added, and
/// a velocity now past `MAX_SPEED` is rescaled back down to it.
pub open spec fn ship_thrust_speed(v: Vec2, dir: Vec2) -> Vec2 {
    let nx = v.x + scaled(dir.x as int, THRUST_NUM as int, THRUST_DEN as int);
    let ny = v.y + scaled(dir.y as int, THRUST_NUM as int, THRUST_DEN as int);
    let l2 = nx * nx + ny * ny;
    if l2 > MAX_SPEED * MAX_SPEED {
        let m = sqrt_floor(l2);
        Vec2 {
            x: scaled(nx, MAX_SPEED as int, m) as i64,
            y: scaled(ny, MAX_SPEED as int, m) as i64,
        }
    } else {
        Vec2 { x: nx as i64, y: ny as i64 }
    }
}

/// Whether a ship at `pos` collides with a target at `tpos` of radius
/// `tsize`: their distance is below `SHIP_RADIUS + tsize`.
pub open spec fn ship_hit_verdict(s: Spaceship, tpos: Vec2, tsize: int) -> bool {
    dist2(s.position.x as int, s.position.y as int, tpos.x as int, tpos.y as int) < (SHIP_RADIUS
        + tsize) * (SHIP_RADIUS + tsize)
}

/// The exact collision response: on a hit the ship respawns at the screen
/// center at rest with orientation 0 and one shield charge fewer; otherwise
/// nothing changes.
pub open spec fn ship_after_check(s: Spaceship, tpos: Vec2, tsize: int) -> Spaceship {
    if ship_hit_verdict(s, tpos, tsize) {
        Spaceship {
            position: screen_center(s.screen_size),
            speed: Vec2 { x: 0, y: 0 },
            orientation: 0,
            shield: (s.shield - 1) as i32,
            ..s
        }
    } else {
        s
    }
}

/// The fresh ship `Spaceship::new` returns: at the screen center, at rest,
/// pointing straight up, with a full shield.
pub open spec fn ship_initial(screen_size: (i64, i64)) -> Spaceship {
    Spaceship {
        screen_size,
        position: screen_center(screen_size),
        speed: Vec2 { x: 0, y: 0 },
        orientation: 0,
        shield: INITIAL_SHIELD,
    }
}

/// Within a session the shield only ever falls: a frame of motion keeps it,
/// and a collision test takes at most one charge; `is_destroyed` is exactly
/// `shield <= 0`.
pub proof fn lemma_shield_never_grows(s: Spaceship, tpos: Vec2, tsize: int)
    requires
        s.shield > i32::MIN,
    ensures
        ship_stepped(s).shield == s.shield,
        ship_after_check(s, tpos, tsize).shield <= s.shield,
        s.shield - 1 <= ship_after_check(s, tpos, tsize).shield,
{
}

impl Spaceship {
    /// A fresh ship: at the screen center, at rest, pointing straight up,
    /// with a full shield.
    pub fn new(screen_size: (i64, i64)) -> (s: Spaceship)
        requires
            bounds_ok(screen_size),
        ensures
            s == ship_initial(screen_size),
            s.position == screen_center(screen_size),
            s.shield == INITIAL_SHIELD,
            ship_wf(s),
    {
        Spaceship {
            screen_size,
            position: Vec2 {
                x: ((screen_size.0 as u64) / 2) as i64,
                y: ((screen_size.1 as u64) / 2) as i64,
            },
            speed: Vec2 { x: 0, y: 0 },
            orientation: 0,
            shield: INITIAL_SHIELD,
        }
    }

    /// Accelerates along the unit direction `dir` (the caller turns the
    /// ship's orientation `o` into the fixed-point unit vector
    /// `(sin o, -cos o) * SCALE`); the speed is capped at `MAX_SPEED`.
    pub fn activate_thrust(&mut self, dir: Vec2)
        requires
            ship_wf(*old(self)),
            -SCALE <= dir.x <= SCALE,
            -SCALE <= dir.y <= SCALE,
        ensures
            *final(self) == (Spaceship {
                speed: ship_thrust_speed(old(self).speed, dir),
                ..*old(self)
            }),
            ship_wf(*final(self)),
    {
        proof {
            lemma_scaled_mag_le(dir.x as int, THRUST_NUM as int, THRUST_DEN as int, SCALE as int);
            lemma_scaled_mag_le(dir.y as int, THRUST_NUM as int, THRUST_DEN as int, SCALE as int);
        }
        let nx: i64 = self.speed.x + scale_i64(dir.x, THRUST_NUM, THRUST_DEN);
        let ny: i64 = self.speed.y + scale_i64(dir.y, THRUST_NUM, THRUST_DEN);
        assert(nx * nx + ny * ny <= 6_000_000_000) by (nonlinear_arith)
            requires
                -50_168 <= nx <= 50_168,
                -50_168 <= ny <= 50_168,
        ;
        assert(nx * nx >= 0 && ny * ny >= 0) by (nonlinear_arith);
        let l2: i64 = nx * nx + ny * ny;
        if l2 > MAX_SPEED * MAX_SPEED {
            let m: u64 = isqrt(l2 as u64);
            proof {
                assert((-nx) * (-nx) == nx * nx) by (nonlinear_arith);
                assert((-ny) * (-ny) == ny * ny) by (nonlinear_arith);
                lemma_sqrt_floor_ge(l2 as int, if nx >= 0 { nx as int } else { -nx as int });
                lemma_sqrt_floor_ge(l2 as int, if ny >= 0 { ny as int } else { -ny as int });
                assert(m as int <= 80_000) by (nonlinear_arith)
                    requires
                        (m as int) * (m as int) <= 6_000_000_000,
                        m as int >= 0,
                ;
                assert(m >= 1) by {
                    if m == 0 {
                        assert(l2 < 1);
                    }
                }
                lemma_scaled_bounded(nx as int, MAX_SPEED as int, m as int);
                lemma_scaled_bounded(ny as int, MAX_SPEED as int, m as int);
            }
            self.speed.x = scale_i64(nx, MAX_SPEED, m as i64);
            self.speed.y = scale_i64(ny, MAX_SPEED, m as i64);
        } else {
            assert(nx * nx <= l2 && ny * ny <= l2) by (nonlinear_arith)
                requires
                    l2 == nx * nx + ny * ny,
                    nx * nx >= 0,
                    ny * ny >= 0,
            ;
            assert(-MAX_SPEED <= nx <= MAX_SPEED && -MAX_SPEED <= ny <= MAX_SPEED)
                by (nonlinear_arith)
                requires
                    nx * nx <= 2_500_000_000,
                    ny * ny <= 2_500_000_000,
                    MAX_SPEED == 50_000,
            ;
            self.speed.x = nx;
            self.speed.y = ny;
        }
    }

    /// Brakes: one extra application of the friction factor.
    pub fn back_thrust(&mut self)
        requires
            ship_wf(*old(self)),
        ensures
            *final(self) == (Spaceship {
                speed: Vec2 {
                    x: scaled(
                        old(self).speed.x as int,
                        FRICTION_NUM as int,
                        FRICTION_DEN as int,
                    ) as i64,
                    y: scaled(
                        old(self).speed.y as int,
                        FRICTION_NUM as int,
                        FRICTION_DEN as int,
                    ) as i64,
                },
                ..*old(self)
            }),
            ship_wf(*final(self)),
    {
        proof {
            lemma_scaled_shrinks(self.speed.x as int, FRICTION_NUM as int, FRICTION_DEN as int);
            lemma_scaled_shrinks(self.speed.y as int, FRICTION_NUM as int, FRICTION_DEN as int);
        }
        self.speed.x = scale_i64(self.speed.x, FRICTION_NUM, FRICTION_DEN);
        self.speed.y = scale_i64(self.speed.y, FRICTION_NUM, FRICTION_DEN);
    }

    /// Turns the ship left by one rotation step.
    pub fn left_rotation(&mut self)
        requires
            ship_wf(*old(self)),
            old(self).orientation - ROTATION_SPEED >= -ORIENT_LIMIT,
        ensures
            *final(self) == (Spaceship {
                orientation: (old(self).orientation - ROTATION_SPEED) as i64,
                ..*old(self)
            }),
            ship_wf(*final(self)),
    {
        self.orientation = self.orientation - ROTATION_SPEED;
    }

    /// Turns the ship right by one rotation step.
    pub fn right_rotation(&mut self)
        requires
            ship_wf(*old(self)),
            old(self).orientation + ROTATION_SPEED <= ORIENT_LIMIT,
        ensures
            *final(self) == (Spaceship {
                orientation: (old(self).orientation + ROTATION_SPEED) as i64,
                ..*old(self)
            }),
            ship_wf(*final(self)),
    {
        self.orientation = self.orientation + ROTATION_SPEED;
    }

    /// The current heading, in milliradians.
    pub fn get_orientation(&self) -> (o: i64)
        ensures
            o == self.orientation,
    {
        self.orientation
    }

    /// The remaining shield charges.
    pub fn get_shield(&self) -> (n: i32)
        ensures
            n == self.shield,
    {
        self.shield
    }

    /// Takes one shield charge away.
    pub fn decrease_shield(&mut self)
        requires
            old(self).shield > i32::MIN,
        ensures
            *final(self) == (Spaceship { shield: (old(self).shield - 1) as i32, ..*old(self) }),
    {
        self.shield = self.shield - 1;
    }

    /// Whether the ship is destroyed: no shield charge left.
    pub fn is_destroyed(&self) -> (r: bool)
        ensures
            r == (self.shield <= 0),
    {
        self.shield <= 0
    }

    /// Tests for a collision with `other`: a hit whenever the distance is
    /// below `SHIP_RADIUS` plus the target's radius.  On a hit the ship
    /// respawns at the screen center, at rest, with orientation 0 and the
    /// shield down by exactly one; the shield never grows.
    pub fn check_collision<O: StellarObject>(&mut self, other: &O) -> (hit: bool)
        requires
            ship_wf(*old(self)),
            old(self).shield > i32::MIN,
            other.wf(),
        ensures
            *final(self) == ship_after_check(*old(self), other.pos_spec(), other.size_spec()),
            hit == ship_hit_verdict(*old(self), other.pos_spec(), other.size_spec()),
            final(self).shield <= old(self).shield,
            ship_wf(*final(self)),
    {
        proof {
            other.lemma_wf_ranges();
        }
        let tpos = other.get_position();
        let tsize: i64 = other.get_size();
        let d2: i64 = dist2_i64(self.position, tpos);
        let radius: i64 = SHIP_RADIUS + tsize;
        assert(0 <= radius * radius <= 20_000_000_000_000_000) by (nonlinear_arith)
            requires
                0 <= radius <= 115_000_000,
        ;
        if d2 < radius * radius {
            self.position.x = ((self.screen_size.0 as u64) / 2) as i64;
            self.position.y = ((self.screen_size.1 as u64) / 2) as i64;
            self.speed.x = 0;
            self.speed.y = 0;
            self.orientation = 0;
            self.decrease_shield();
            true
        } else {
            false
        }
    }
}

impl StellarObject for Spaceship {
    open spec fn pos_spec(&self) -> Vec2 {
        self.position
    }

    /// The ship is never a collision target in the simulation; its own
    /// radius enters only its own collision test.
    open spec fn size_spec(&self) -> int {
        0
    }

    open spec fn wf(&self) -> bool {
        ship_wf(*self)
    }

    open spec fn updated(&self) -> Spaceship {
        ship_stepped(*self)
    }

    proof fn lemma_wf_ranges(&self) {
    }

    fn get_position(&self) -> (p: Vec2) {
        self.position
    }

    fn update(&mut self) {
        proof {
            lemma_scaled_shrinks(self.speed.x as int, FRICTION_NUM as int, FRICTION_DEN as int);
            lemma_scaled_shrinks(self.speed.y as int, FRICTION_NUM as int, FRICTION_DEN as int);
        }
        let fx: i64 = scale_i64(self.speed.x, FRICTION_NUM, FRICTION_DEN);
        let fy: i64 = scale_i64(self.speed.y, FRICTION_NUM, FRICTION_DEN);
        assert(0 <= fx * fx <= 2_500_000_000 && 0 <= fy * fy <= 2_500_000_000) by (nonlinear_arith)
            requires
                -50_000 <= fx <= 50_000,
                -50_000 <= fy <= 50_000,
        ;
        let l2: i64 = fx * fx + fy * fy;
        if l2 > 0 && l2 < MIN_SPEED * MIN_SPEED {
            let m: u64 = isqrt(l2 as u64);
            proof {
                assert((-fx) * (-fx) == fx * fx) by (nonlinear_arith);
                assert((-fy) * (-fy) == fy * fy) by (nonlinear_arith);
                assert(fx * fx >= 0 && fy * fy >= 0) by (nonlinear_arith);
                lemma_sqrt_floor_ge(l2 as int, if fx >= 0 { fx as int } else { -fx as int });
                lemma_sqrt_floor_ge(l2 as int, if fy >= 0 { fy as int } else { -fy as int });
                assert(m >= 1) by {
                    if m == 0 {
                        assert(l2 < 1);
                    }
                }
                assert(m as int <= 50) by (nonlinear_arith)
                    requires
                        (m as int) * (m as int) < 2_500,
                        m as int >= 0,
                ;
                lemma_scaled_bounded(fx as int, MIN_SPEED as int, m as int);
                lemma_scaled_bounded(fy as int, MIN_SPEED as int, m as int);
            }
            self.speed.x = scale_i64(fx, MIN_SPEED, m as i64);
            self.speed.y = scale_i64(fy, MIN_SPEED, m as i64);
        } else {
            self.speed.x = fx;
            self.speed.y = fy;
        }
        let nx: i64 = self.position.x + self.speed.x;
        let ny: i64 = self.position.y + self.speed.y;
        self.position.x = if nx < 0 {
            self.screen_size.0
        } else if nx > self.screen_size.0 {
            0
        } else {
            nx
        };
        self.position.y = if ny < 0 {
            self.screen_size.1
        } else if ny > self.screen_size.1 {
            0
        } else {
            ny
        };
    }

    fn get_size(&self) -> (s: i64) {
        0
    }
}

} // verus!
