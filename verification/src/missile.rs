//! A missile fired by the spaceship: a fixed-speed projectile that dies when
//! it leaves the screen or scores its single hit.

use crate::geom::{
    bounds_ok,
    dist2,
    dist2_i64,
    lemma_scaled_mag_le,
    scale_i64,
    scaled,
    Vec2,
    MAX_DIM,
    POS_LIMIT,
    SCALE,
};
use crate::stellarobject::StellarObject;
use vstd::prelude::*;

verus! {

/// Missile speed in screen units per second.
pub const SPEED: i64 = 80;

/// Numerator and denominator of the per-frame time step: a missile advances
/// by `speed * 4 / 100` (0.04 s) each frame.
pub const STEP_NUM: i64 = 4;

pub const STEP_DEN: i64 = 100;

/// A missile in flight (or already spent).
#[derive(Clone, Copy, Debug, PartialEq, Eq)]
pub struct Missile {
    /// Current position, in ticks.
    pub position: Vec2,
    /// Velocity in ticks per second: direction times `SPEED`.
    pub speed: Vec2,
    /// Live flag; once false it never becomes true again.
    pub is_active: bool,
    /// Screen bounds `(width, height)`, in ticks.
    pub screen_size: (i64, i64),
}

/// Well-formedness: sane bounds, speed within the fixed missile speed, and a
/// position near the screen (an inactive missile may rest one step past the
/// live box, where its last flight ended).
pub open spec fn missile_wf(m: Missile) -> bool {
    &&& bounds_ok(m.screen_size)
    &&& -SPEED * SCALE <= m.speed.x <= SPEED * SCALE
    &&& -SPEED * SCALE <= m.speed.y <= SPEED * SCALE
    &&& m.is_active ==> -POS_LIMIT <= m.position.x <= POS_LIMIT
    &&& m.is_active ==> -POS_LIMIT <= m.position.y <= POS_LIMIT
    &&& -POS_LIMIT - 4000 <= m.position.x <= POS_LIMIT + 4000
    &&& -POS_LIMIT - 4000 <= m.position.y <= POS_LIMIT + 4000
}

/// The exact state one frame later: an inactive missile does not move at
/// all; an active one advances by `speed * 4/100` and dies if that takes it
/// outside `[0, width] x [0, height]`.
pub open spec fn missile_stepped(m: Missile) -> Missile {
    if !m.is_active {
        m
    } else {
        let nx = (m.position.x + scaled(m.speed.x as int, STEP_NUM as int, STEP_DEN as int)) as i64;
        let ny = (m.position.y + scaled(m.speed.y as int, STEP_NUM as int, STEP_DEN as int)) as i64;
        let inside = 0 <= nx <= m.screen_size.0 && 0 <= ny <= m.screen_size.1;
        Missile { position: Vec2 { x: nx, y: ny }, is_active: inside, ..m }
    }
}

/// The exact outcome of testing an active missile against a target at `tpos`
/// with radius `tsize`: a hit whenever the distance is below the radius, and
/// a hit spends the missile.
pub open spec fn missile_hit_verdict(m: Missile, tpos: Vec2, tsize: int) -> bool {
    m.is_active && dist2(m.position.x as int, m.position.y as int, tpos.x as int, tpos.y as int)
        < tsize * tsize
}

pub open spec fn missile_after_check(m: Missile, tpos: Vec2, tsize: int) -> Missile {
    if missile_hit_verdict(m, tpos, tsize) {
        Missile { is_active: false, ..m }
    } else {
        m
    }
}

impl Missile {
    /// Fires a missile from `position` along the unit direction `dir`
    /// (the caller turns the firing orientation `o` into the fixed-point
    /// unit vector `(sin o, -cos o) * SCALE`); its velocity is that
    /// direction times `SPEED`.
    pub fn new(position: Vec2, dir: Vec2, screen_size: (i64, i64)) -> (m: Missile)
        requires
            bounds_ok(screen_size),
            -POS_LIMIT <= position.x <= POS_LIMIT,
            -POS_LIMIT <= position.y <= POS_LIMIT,
            -SCALE <= dir.x <= SCALE,
            -SCALE <= dir.y <= SCALE,
        ensures
            m.position == position,
            m.speed.x == dir.x * SPEED,
            m.speed.y == dir.y * SPEED,
            m.is_active,
            m.screen_size == screen_size,
            missile_wf(m),
    {
        Missile {
            position,
            speed: Vec2 { x: dir.x * SPEED, y: dir.y * SPEED },
            is_active: true,
            screen_size,
        }
    }

    /// Whether the missile is still live.
    pub fn is_active(&self) -> (r: bool)
        ensures
            r == self.is_active,
    {
        self.is_active
    }

    /// Tests whether this missile has struck `other`: an active missile
    /// strictly closer to the target than the target's radius scores a hit,
    /// which spends the missile.  An inactive missile never hits and never
    /// changes.
    pub fn check_collision<O: StellarObject>(&mut self, other: &O) -> (hit: bool)
        requires
            missile_wf(*old(self)),
            other.wf(),
        ensures
            missile_wf(*final(self)),
            *final(self) == missile_after_check(
                *old(self),
                other.pos_spec(),
                other.size_spec(),
            ),
            hit == missile_hit_verdict(*old(self), other.pos_spec(), other.size_spec()),
    {
        if self.is_active {
            proof {
                other.lemma_wf_ranges();
            }
            let tpos = other.get_position();
            let tsize: i64 = other.get_size();
            let d2: i64 = dist2_i64(self.position, tpos);
            assert(tsize * tsize <= (MAX_DIM as int) * (MAX_DIM as int)) by (nonlinear_arith)
                requires
                    0 <= tsize <= MAX_DIM as int,
            ;
            if d2 < tsize * tsize {
                self.is_active = false;
                true
            } else {
                false
            }
        } else {
            false
        }
    }
}

/// A missile's `is_active` flag falls from `true` to `false` and never
/// comes back: an inactive missile is left exactly as it is by a frame of
/// motion and by a collision test, and no operation activates a missile.
pub proof fn lemma_missile_never_reactivates(m: Missile, tpos: Vec2, tsize: int)
    ensures
        !m.is_active ==> missile_stepped(m) == m,
        !m.is_active ==> missile_after_check(m, tpos, tsize) == m,
        missile_stepped(m).is_active ==> m.is_active,
        missile_after_check(m, tpos, tsize).is_active ==> m.is_active,
{
}

impl StellarObject for Missile {
    open spec fn pos_spec(&self) -> Vec2 {
        self.position
    }

    /// A missile is never itself a collision target.
    open spec fn size_spec(&self) -> int {
        0
    }

    open spec fn wf(&self) -> bool {
        missile_wf(*self)
    }

    open spec fn updated(&self) -> Missile {
        missile_stepped(*self)
    }

    proof fn lemma_wf_ranges(&self) {
    }

    fn get_position(&self) -> (p: Vec2) {
        self.position
    }

    fn update(&mut self) {
        if self.is_active {
            proof {
                lemma_scaled_mag_le(
                    self.speed.x as int,
                    STEP_NUM as int,
                    STEP_DEN as int,
                    (SPEED * SCALE) as int,
                );
                lemma_scaled_mag_le(
                    self.speed.y as int,
                    STEP_NUM as int,
                    STEP_DEN as int,
                    (SPEED * SCALE) as int,
                );
            }
            let dx: i64 = scale_i64(self.speed.x, STEP_NUM, STEP_DEN);
            let dy: i64 = scale_i64(self.speed.y, STEP_NUM, STEP_DEN);
            self.position.x = self.position.x + dx;
            self.position.y = self.position.y + dy;
            if self.position.x < 0 || self.position.x > self.screen_size.0
                || self.position.y < 0 || self.position.y > self.screen_size.1 {
                self.is_active = false;
            }
        }
    }

    fn get_size(&self) -> (s: i64) {
        0
    }
}

} // verus!
