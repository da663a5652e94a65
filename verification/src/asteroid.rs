//! Asteroids: spawned near a screen edge with a random drift direction,
//! reflected back onto the screen when they cross an edge, and split into two
//! smaller fragments when hit.

use crate::geom::{
    bounds_ok,
    isqrt,
    lemma_scaled_bounded,
    lemma_sqrt_floor_bounds,
    lemma_sqrt_floor_ge,
    scale_i64,
    scaled,
    sqrt_floor,
    Vec2,
    MAX_DIM,
    SCALE,
};
use vstd::arithmetic::div_mod::{
    lemma_div_pos_is_pos,
    lemma_fundamental_div_mod,
    lemma_mod_bound,
};
use crate::rng::rand_in_range;
use crate::stellarobject::StellarObject;
use vstd::prelude::*;

verus! {

/// The three sizes of the tier ladder, in ticks: 50, 25 and 12.5 units.
pub const ASTEROID_INIT_SIZE: i64 = 50_000;

pub const ASTEROID_MEDIUM_SIZE: i64 = 25_000;

pub const ASTEROID_SMALL_SIZE: i64 = 12_500;

/// Fragments of a split appear this far (in ticks) from their parent on each
/// axis.
pub const SPLIT_OFFSET: i64 = 50_000;

/// An asteroid spawns between half and one large-asteroid size away from its
/// edge.
pub const NEAR_MIN: i64 = 25_000;

pub const NEAR_MAX: i64 = 50_000;

/// An asteroid drifting on the screen.
#[derive(Clone, Copy, Debug, PartialEq, Eq)]
pub struct Asteroid {
    /// Current position, in ticks.
    pub position: Vec2,
    /// Drift per frame: a unit-length direction, in ticks.
    pub speed: Vec2,
    /// Collision radius, in ticks.
    pub size: i64,
    /// Screen bounds `(width, height)`, in ticks.
    pub screen_size: (i64, i64),
}

/// Whether `size` lies on the tier ladder.
pub open spec fn in_tiers(size: int) -> bool {
    ||| size == ASTEROID_INIT_SIZE
    ||| size == ASTEROID_MEDIUM_SIZE
    ||| size == ASTEROID_SMALL_SIZE
}

/// The size one tier down, for the two splittable tiers.
pub open spec fn next_tier(size: int) -> Option<int> {
    if size == ASTEROID_INIT_SIZE {
        Some(ASTEROID_MEDIUM_SIZE as int)
    } else if size == ASTEROID_MEDIUM_SIZE {
        Some(ASTEROID_SMALL_SIZE as int)
    } else {
        None
    }
}

/// How far outside the screen an asteroid of a given size may stand.  A
/// freshly spawned large asteroid is on the screen; each split pushes its
/// fragments at most `SPLIT_OFFSET` further out, and at most two splits are
/// possible, so smaller sizes get a wider box.  (Sizes off the ladder never
/// split, so the widest box is safe for them.)
pub open spec fn tier_slack(size: int) -> int {
    if size == ASTEROID_INIT_SIZE {
        0
    } else if size == ASTEROID_MEDIUM_SIZE {
        SPLIT_OFFSET as int
    } else {
        2 * SPLIT_OFFSET
    }
}

/// The position box an asteroid of a given size stays inside: the screen,
/// the slack of its tier, and one more unit for the current frame's drift.
pub open spec fn asteroid_pos_ok(pos: Vec2, size: int, screen: (i64, i64)) -> bool {
    &&& -tier_slack(size) <= pos.x <= screen.0 + tier_slack(size) + SCALE
    &&& -tier_slack(size) <= pos.y <= screen.1 + tier_slack(size) + SCALE
}

/// Well-formedness, preserved by every operation.
pub open spec fn asteroid_wf(a: Asteroid) -> bool {
    &&& bounds_ok(a.screen_size)
    &&& 0 <= a.size <= MAX_DIM
    &&& -SCALE <= a.speed.x <= SCALE
    &&& -SCALE <= a.speed.y <= SCALE
    &&& asteroid_pos_ok(a.position, a.size as int, a.screen_size)
}

/// The asteroids' edge rule: a coordinate below zero reflects to `max - c`
/// (which lands beyond `max` by `|c|` — a quirk of the rule, kept as is),
/// one beyond `max` comes back by `max`.
pub open spec fn reflect_coord(c: int, max: int) -> int {
    if c < 0 {
        max - c
    } else if c > max {
        c - max
    } else {
        c
    }
}

/// The exact state one frame later: drift by `speed`, then reflect each axis.
pub open spec fn asteroid_stepped(a: Asteroid) -> Asteroid {
    let nx = reflect_coord(a.position.x + a.speed.x, a.screen_size.0 as int);
    let ny = reflect_coord(a.position.y + a.speed.y, a.screen_size.1 as int);
    Asteroid { position: Vec2 { x: nx as i64, y: ny as i64 }, ..a }
}

/// The unit-length (in ticks) direction obtained by normalizing the raw draw
/// `(dx, dy)`; the zero draw falls back to the positive x axis.  The draw is
/// scaled up by `SCALE` before the division, so the rounded-down length it
/// is divided by is at least `SCALE` and the rounding error stays below one
/// part in `SCALE` (see `lemma_unit_dir_near_unit`).
pub open spec fn unit_dir(dx: int, dy: int) -> (int, int) {
    if dx == 0 && dy == 0 {
        (SCALE as int, 0int)
    } else {
        let sx = dx * SCALE;
        let sy = dy * SCALE;
        let m = sqrt_floor(sx * sx + sy * sy);
        (scaled(sx, SCALE as int, m), scaled(sy, SCALE as int, m))
    }
}

/// A drift some spawn draw can produce: the normalized form of a raw draw.
pub open spec fn spawned_drift(v: Vec2) -> bool {
    exists|dx: int, dy: int|
        -SCALE <= dx <= SCALE && -SCALE <= dy <= SCALE && v.x == unit_dir(dx, dy).0 && v.y
            == unit_dir(dx, dy).1
}

/// The raw random draws a spawn consumes, gathered so that the layout rules
/// of `Asteroid::from_draws` are deterministic and fully specified.
#[derive(Clone, Copy, Debug, PartialEq, Eq)]
pub struct SpawnDraws {
    /// Distance from the chosen edge, in ticks.
    pub nearpos: i64,
    /// The chosen edge: 1 top, 2 right, 3 bottom, 4 left.
    pub nearside: i64,
    /// Fallback abscissa, used when the chosen edge is horizontal.
    pub xpos: i64,
    /// Fallback ordinate, used when the chosen edge is vertical.
    pub ypos: i64,
    /// Raw drift direction, normalized by `unit_dir`.
    pub dirx: i64,
    pub diry: i64,
}

/// The ranges each draw comes from.
pub open spec fn draws_ok(d: SpawnDraws, screen: (i64, i64)) -> bool {
    &&& NEAR_MIN <= d.nearpos <= NEAR_MAX
    &&& 1 <= d.nearside <= 4
    &&& 0 <= d.xpos <= screen.0
    &&& 0 <= d.ypos <= screen.1
    &&& -SCALE <= d.dirx <= SCALE
    &&& -SCALE <= d.diry <= SCALE
}

/// Where a spawn with draws `d` lands: pinned to the chosen edge on one
/// axis, the fallback draw on the other.
pub open spec fn spawn_x(d: SpawnDraws, screen: (i64, i64)) -> int {
    if d.nearside == 2 {
        screen.0 - d.nearpos
    } else if d.nearside == 4 {
        d.nearpos as int
    } else {
        d.xpos as int
    }
}

pub open spec fn spawn_y(d: SpawnDraws, screen: (i64, i64)) -> int {
    if d.nearside == 1 {
        d.nearpos as int
    } else if d.nearside == 3 {
        screen.1 - d.nearpos
    } else {
        d.ypos as int
    }
}

/// Within the spawn band — between `NEAR_MIN` and `NEAR_MAX` — of one of
/// the four screen edges (top, right, bottom, left).
pub open spec fn near_edge(pos: Vec2, screen: (i64, i64)) -> bool {
    ||| NEAR_MIN <= pos.y <= NEAR_MAX
    ||| screen.0 - NEAR_MAX <= pos.x <= screen.0 - NEAR_MIN
    ||| screen.1 - NEAR_MAX <= pos.y <= screen.1 - NEAR_MIN
    ||| NEAR_MIN <= pos.x <= NEAR_MAX
}

/// A freshly drawn drift: the normalized form of some raw draw, of unit
/// length up to rounding.
pub open spec fn fresh_drift(v: Vec2) -> bool {
    &&& spawned_drift(v)
    &&& 996_000 <= v.x * v.x + v.y * v.y <= 1_002_000
}

/// Exactly what a spawn that consumed the draws `d` produces.
pub open spec fn spawn_of(a: Asteroid, size: i64, screen: (i64, i64), d: SpawnDraws) -> bool {
    &&& a.position.x == spawn_x(d, screen)
    &&& a.position.y == spawn_y(d, screen)
    &&& a.speed.x == unit_dir(d.dirx as int, d.diry as int).0
    &&& a.speed.y == unit_dir(d.dirx as int, d.diry as int).1
    &&& a.size == size
    &&& a.screen_size == screen
}

/// Whether `a` is a spawn of the given size on some in-range draws.
pub open spec fn spawned(a: Asteroid, size: i64, screen: (i64, i64)) -> bool {
    exists|d: SpawnDraws| #[trigger] draws_ok(d, screen) && spawn_of(a, size, screen, d)
}

/// Samples the draws a spawn consumes, each uniform over its range.
fn random_draws(screen_size: (i64, i64)) -> (d: SpawnDraws)
    requires
        bounds_ok(screen_size),
    ensures
        draws_ok(d, screen_size),
{
    SpawnDraws {
        nearpos: rand_in_range(NEAR_MIN, NEAR_MAX),
        nearside: rand_in_range(1, 4),
        xpos: rand_in_range(0, screen_size.0),
        ypos: rand_in_range(0, screen_size.1),
        dirx: rand_in_range(-SCALE, SCALE),
        diry: rand_in_range(-SCALE, SCALE),
    }
}

/// Normalizes the raw draw `(dx, dy)` to a direction of length `SCALE` (up
/// to rounding toward zero, below one part in `SCALE`).
fn dir_from_draws(dx: i64, dy: i64) -> (r: Vec2)
    requires
        -SCALE <= dx <= SCALE,
        -SCALE <= dy <= SCALE,
    ensures
        r.x == unit_dir(dx as int, dy as int).0,
        r.y == unit_dir(dx as int, dy as int).1,
        -SCALE <= r.x <= SCALE,
        -SCALE <= r.y <= SCALE,
{
    if dx == 0 && dy == 0 {
        Vec2 { x: SCALE, y: 0 }
    } else {
        let sx: i64 = dx * SCALE;
        let sy: i64 = dy * SCALE;
        assert(-1_000_000 <= sx <= 1_000_000 && -1_000_000 <= sy <= 1_000_000) by (nonlinear_arith)
            requires
                -1000 <= dx <= 1000,
                -1000 <= dy <= 1000,
                sx == dx * 1000,
                sy == dy * 1000,
        ;
        assert(0 <= sx * sx <= 1_000_000_000_000 && 0 <= sy * sy
            <= 1_000_000_000_000) by (nonlinear_arith)
            requires
                -1_000_000 <= sx <= 1_000_000,
                -1_000_000 <= sy <= 1_000_000,
        ;
        let n: i64 = sx * sx + sy * sy;
        assert(n >= 1_000_000) by (nonlinear_arith)
            requires
                n == sx * sx + sy * sy,
                sx == dx * 1000,
                sy == dy * 1000,
                !(dx == 0 && dy == 0),
                -1000 <= dx <= 1000,
                -1000 <= dy <= 1000,
                0 <= sx * sx,
                0 <= sy * sy,
        ;
        let m: u64 = isqrt(n as u64);
        proof {
            let ax = if sx >= 0 { sx as int } else { -sx as int };
            let ay = if sy >= 0 { sy as int } else { -sy as int };
            assert((-sx) * (-sx) == sx * sx) by (nonlinear_arith);
            assert((-sy) * (-sy) == sy * sy) by (nonlinear_arith);
            assert(ax * ax == sx * sx && ay * ay == sy * sy);
            lemma_sqrt_floor_ge(n as int, ax);
            lemma_sqrt_floor_ge(n as int, ay);
            lemma_sqrt_floor_ge(n as int, 1000);
            assert(m as int <= 1_414_214) by (nonlinear_arith)
                requires
                    (m as int) * (m as int) <= 2_000_000_000_000,
                    m as int >= 0,
            ;
            lemma_scaled_bounded(sx as int, SCALE as int, m as int);
            lemma_scaled_bounded(sy as int, SCALE as int, m as int);
        }
        let rx: i64 = scale_i64(sx, SCALE, m as i64);
        let ry: i64 = scale_i64(sy, SCALE, m as i64);
        Vec2 { x: rx, y: ry }
    }
}

/// Squared bounds on one normalized component `q = a * 1000 / m`.
proof fn lemma_norm_comp_sq(a: int, m: int)
    requires
        0 <= a <= m,
        1000 <= m,
    ensures
        ({
            let q = (a * 1000) / m;
            &&& 0 <= q
            &&& m * m * (q * q) <= (a * 1000) * (a * 1000)
            &&& m * m * (q * q) >= (a * 1000) * (a * 1000) - 2 * m * (a * 1000)
        }),
{
    let p = a * 1000;
    let q = p / m;
    assert(p >= 0) by (nonlinear_arith)
        requires
            a >= 0,
            p == a * 1000,
    ;
    lemma_fundamental_div_mod(p, m);
    lemma_mod_bound(p, m);
    lemma_div_pos_is_pos(p, m);
    assert(m * q <= p && m * q >= p - m);
    assert(m * q >= 0) by (nonlinear_arith)
        requires
            m > 0,
            q >= 0,
    ;
    assert(m * m * (q * q) == (m * q) * (m * q)) by (nonlinear_arith);
    assert((m * q) * (m * q) <= p * p) by (nonlinear_arith)
        requires
            0 <= m * q <= p,
    ;
    if p - m >= 0 {
        assert((m * q) * (m * q) >= p * p - 2 * m * p) by (nonlinear_arith)
            requires
                m * q >= p - m >= 0,
        ;
    } else {
        assert((m * q) * (m * q) >= p * p - 2 * m * p) by (nonlinear_arith)
            requires
                m * q >= 0,
                0 <= p < m,
        ;
    }
}

/// Any spawned drift is a unit vector up to rounding: its squared length
/// lies within 0.4% of one squared screen unit.
pub proof fn lemma_unit_dir_near_unit(dx: int, dy: int)
    requires
        -SCALE <= dx <= SCALE,
        -SCALE <= dy <= SCALE,
    ensures
        ({
            let u = unit_dir(dx, dy);
            996_000 <= u.0 * u.0 + u.1 * u.1 <= 1_002_000
        }),
{
    let u = unit_dir(dx, dy);
    if dx == 0 && dy == 0 {
        assert(u.0 * u.0 + u.1 * u.1 == 1_000_000);
    } else {
        let sx = dx * (SCALE as int);
        let sy = dy * (SCALE as int);
        let adx = if dx >= 0 { dx } else { -dx };
        let ady = if dy >= 0 { dy } else { -dy };
        let ax = adx * (SCALE as int);
        let ay = ady * (SCALE as int);
        let n = sx * sx + sy * sy;
        let m = sqrt_floor(n);

        assert(ax == sx || ax == -sx) by (nonlinear_arith)
            requires
                ax == adx * 1000,
                sx == dx * 1000,
                adx == dx || adx == -dx,
        ;
        assert(ay == sy || ay == -sy) by (nonlinear_arith)
            requires
                ay == ady * 1000,
                sy == dy * 1000,
                ady == dy || ady == -dy,
        ;
        assert(ax * ax == sx * sx) by (nonlinear_arith)
            requires
                ax == sx || ax == -sx,
        ;
        assert(ay * ay == sy * sy) by (nonlinear_arith)
            requires
                ay == sy || ay == -sy,
        ;
        assert(0 <= ax <= 1_000_000 && 0 <= ay <= 1_000_000) by (nonlinear_arith)
            requires
                0 <= adx <= 1000,
                0 <= ady <= 1000,
                ax == adx * 1000,
                ay == ady * 1000,
        ;
        assert(ax >= 1000 || ay >= 1000) by (nonlinear_arith)
            requires
                adx >= 1 || ady >= 1,
                adx >= 0,
                ady >= 0,
                ax == adx * 1000,
                ay == ady * 1000,
        ;
        assert(1_000_000 <= ax * ax + ay * ay <= 2_000_000_000_000) by (nonlinear_arith)
            requires
                0 <= ax <= 1_000_000,
                0 <= ay <= 1_000_000,
                ax >= 1000 || ay >= 1000,
        ;
        lemma_sqrt_floor_bounds(n);
        lemma_sqrt_floor_ge(n, 1000);
        lemma_sqrt_floor_ge(n, ax);
        lemma_sqrt_floor_ge(n, ay);

        let qx = (ax * 1000) / m;
        let qy = (ay * 1000) / m;
        lemma_norm_comp_sq(ax, m);
        lemma_norm_comp_sq(ay, m);

        assert(u.0 == qx || u.0 == -qx);
        assert(u.1 == qy || u.1 == -qy);
        assert(u.0 * u.0 == qx * qx) by (nonlinear_arith)
            requires
                u.0 == qx || u.0 == -qx,
        ;
        assert(u.1 * u.1 == qy * qy) by (nonlinear_arith)
            requires
                u.1 == qy || u.1 == -qy,
        ;

        assert(m * m * (qx * qx) + m * m * (qy * qy) <= n * 1_000_000) by (nonlinear_arith)
            requires
                m * m * (qx * qx) <= (ax * 1000) * (ax * 1000),
                m * m * (qy * qy) <= (ay * 1000) * (ay * 1000),
                n == sx * sx + sy * sy,
                sx * sx == ax * ax,
                sy * sy == ay * ay,
        ;
        assert(n * 1_000_000 < (m + 1) * (m + 1) * 1_000_000) by (nonlinear_arith)
            requires
                n < (m + 1) * (m + 1),
        ;
        assert((m + 1) * (m + 1) * 1_000_000 <= m * m * 1_002_001) by (nonlinear_arith)
            requires
                m >= 1000,
        ;
        assert(qx * qx + qy * qy <= 1_002_000) by (nonlinear_arith)
            requires
                m * m * (qx * qx) + m * m * (qy * qy) < m * m * 1_002_001,
                m >= 1,
        ;

        assert(m * m * (qx * qx) + m * m * (qy * qy) >= n * 1_000_000 - 2 * m * 1000 * (ax
            + ay)) by (nonlinear_arith)
            requires
                m * m * (qx * qx) >= (ax * 1000) * (ax * 1000) - 2 * m * (ax * 1000),
                m * m * (qy * qy) >= (ay * 1000) * (ay * 1000) - 2 * m * (ay * 1000),
                n == sx * sx + sy * sy,
                sx * sx == ax * ax,
                sy * sy == ay * ay,
        ;
        assert(2 * m * 1000 * (ax + ay) <= 4_000 * (m * m)) by (nonlinear_arith)
            requires
                0 <= ax <= m,
                0 <= ay <= m,
                m >= 0,
        ;
        assert(n * 1_000_000 >= m * m * 1_000_000) by (nonlinear_arith)
            requires
                n >= m * m,
        ;
        assert(qx * qx + qy * qy >= 996_000) by (nonlinear_arith)
            requires
                m * m * (qx * qx) + m * m * (qy * qy) >= m * m * 1_000_000 - 4_000 * (m * m),
                m >= 1,
        ;
    }
}

/// The fragments of a split, exactly: one tier down, at the parent's
/// position offset by `(+SPLIT_OFFSET, +SPLIT_OFFSET)` and
/// `(+SPLIT_OFFSET, -SPLIT_OFFSET)`, on the parent's screen, well-formed,
/// each drifting along a freshly drawn near-unit direction (which draw is
/// the only thing left open).
pub open spec fn split_children_ok(p: Asteroid, c1: Asteroid, c2: Asteroid) -> bool {
    &&& next_tier(p.size as int) == Some(c1.size as int)
    &&& next_tier(p.size as int) == Some(c2.size as int)
    &&& fresh_drift(c1.speed)
    &&& fresh_drift(c2.speed)
    &&& c1.position.x == p.position.x + SPLIT_OFFSET
    &&& c1.position.y == p.position.y + SPLIT_OFFSET
    &&& c2.position.x == p.position.x + SPLIT_OFFSET
    &&& c2.position.y == p.position.y - SPLIT_OFFSET
    &&& c1.screen_size == p.screen_size
    &&& c2.screen_size == p.screen_size
    &&& asteroid_wf(c1)
    &&& asteroid_wf(c2)
}

impl Asteroid {
    /// One coordinate of the edge rule.
    fn bound_to(coord: i64, max: i64) -> (r: i64)
        requires
            0 < max <= MAX_DIM,
            -2_000_000_000 <= coord <= 2_000_000_000,
        ensures
            r == reflect_coord(coord as int, max as int),
    {
        if coord < 0 {
            max - coord
        } else if coord > max {
            coord - max
        } else {
            coord
        }
    }

    /// Applies the edge rule to both axes of a position.
    fn bound_pos(pos: Vec2, screen_size: (i64, i64)) -> (r: Vec2)
        requires
            bounds_ok(screen_size),
            -2_000_000_000 <= pos.x <= 2_000_000_000,
            -2_000_000_000 <= pos.y <= 2_000_000_000,
        ensures
            r.x == reflect_coord(pos.x as int, screen_size.0 as int),
            r.y == reflect_coord(pos.y as int, screen_size.1 as int),
    {
        Vec2 {
            x: Asteroid::bound_to(pos.x, screen_size.0),
            y: Asteroid::bound_to(pos.y, screen_size.1),
        }
    }

    /// Builds the asteroid a spawn with draws `d` produces: placed near the
    /// drawn edge, drifting along the normalized drawn direction.
    pub fn from_draws(size: i64, screen_size: (i64, i64), d: SpawnDraws) -> (a: Asteroid)
        requires
            bounds_ok(screen_size),
            0 <= size <= MAX_DIM,
            draws_ok(d, screen_size),
        ensures
            a.position.x == spawn_x(d, screen_size),
            a.position.y == spawn_y(d, screen_size),
            a.speed.x == unit_dir(d.dirx as int, d.diry as int).0,
            a.speed.y == unit_dir(d.dirx as int, d.diry as int).1,
            a.size == size,
            a.screen_size == screen_size,
            spawn_of(a, size, screen_size, d),
            0 <= a.position.x <= screen_size.0,
            0 <= a.position.y <= screen_size.1,
            near_edge(a.position, screen_size),
            fresh_drift(a.speed),
            asteroid_wf(a),
    {
        proof {
            lemma_unit_dir_near_unit(d.dirx as int, d.diry as int);
        }
        let xpos: i64 = if d.nearside == 2 {
            screen_size.0 - d.nearpos
        } else if d.nearside == 4 {
            d.nearpos
        } else {
            d.xpos
        };
        let ypos: i64 = if d.nearside == 1 {
            d.nearpos
        } else if d.nearside == 3 {
            screen_size.1 - d.nearpos
        } else {
            d.ypos
        };
        Asteroid {
            position: Vec2 { x: xpos, y: ypos },
            speed: dir_from_draws(d.dirx, d.diry),
            size,
            screen_size,
        }
    }

    /// Spawns an asteroid of the given size near a random screen edge, with
    /// a random drift direction.  Whatever the draws, the asteroid lies on
    /// the screen within the spawn band of one of the four edges, drifts
    /// along a near-unit direction, and its whole state is that of a spawn
    /// on some in-range draws.
    pub fn new(size: i64, screen_size: (i64, i64)) -> (a: Asteroid)
        requires
            bounds_ok(screen_size),
            0 <= size <= MAX_DIM,
        ensures
            asteroid_wf(a),
            a.size == size,
            a.screen_size == screen_size,
            0 <= a.position.x <= screen_size.0,
            0 <= a.position.y <= screen_size.1,
            near_edge(a.position, screen_size),
            fresh_drift(a.speed),
            spawned(a, size, screen_size),
    {
        let d = random_draws(screen_size);
        let a = Asteroid::from_draws(size, screen_size, d);
        proof {
            assert(draws_ok(d, screen_size) && spawn_of(a, size, screen_size, d));
        }
        a
    }

    /// Moves the asteroid to `new_pos`, which must lie in the position box
    /// of its tier.
    pub fn set_position(&mut self, new_pos: Vec2)
        requires
            asteroid_wf(*old(self)),
            asteroid_pos_ok(new_pos, old(self).size as int, old(self).screen_size),
        ensures
            *final(self) == (Asteroid { position: new_pos, ..*old(self) }),
            asteroid_wf(*final(self)),
    {
        self.position = new_pos;
    }

    /// Splits the asteroid into two fragments one tier down, or returns
    /// `None` for a smallest-tier asteroid (or any size off the ladder).
    /// The fragments stand at the parent's position offset by
    /// `(+SPLIT_OFFSET, +SPLIT_OFFSET)` and `(+SPLIT_OFFSET, -SPLIT_OFFSET)`
    /// and drift in fresh random directions.
    pub fn split_asteroid(&self) -> (r: Option<(Asteroid, Asteroid)>)
        requires
            asteroid_wf(*self),
        ensures
            (r is Some) == (self.size == ASTEROID_INIT_SIZE || self.size
                == ASTEROID_MEDIUM_SIZE),
            r matches Some(pair) ==> split_children_ok(*self, pair.0, pair.1),
    {
        let new_size: i64 = if self.size == ASTEROID_INIT_SIZE {
            ASTEROID_MEDIUM_SIZE
        } else if self.size == ASTEROID_MEDIUM_SIZE {
            ASTEROID_SMALL_SIZE
        } else {
            return None;
        };
        let mut a1 = Asteroid::new(new_size, self.screen_size);
        let mut a2 = Asteroid::new(new_size, self.screen_size);
        a1.set_position(
            Vec2 { x: self.position.x + SPLIT_OFFSET, y: self.position.y + SPLIT_OFFSET },
        );
        a2.set_position(
            Vec2 { x: self.position.x + SPLIT_OFFSET, y: self.position.y - SPLIT_OFFSET },
        );
        Some((a1, a2))
    }
}

/// Splitting keeps every size on the tier ladder: fragments of an asteroid
/// whose size is on the ladder are again on the ladder, so any sequence of
/// splits stays within the three sizes.
pub proof fn lemma_split_keeps_tiers(p: Asteroid, c1: Asteroid, c2: Asteroid)
    requires
        in_tiers(p.size as int),
        split_children_ok(p, c1, c2),
    ensures
        in_tiers(c1.size as int),
        in_tiers(c2.size as int),
{
}

impl StellarObject for Asteroid {
    open spec fn pos_spec(&self) -> Vec2 {
        self.position
    }

    open spec fn size_spec(&self) -> int {
        self.size as int
    }

    open spec fn wf(&self) -> bool {
        asteroid_wf(*self)
    }

    open spec fn updated(&self) -> Asteroid {
        asteroid_stepped(*self)
    }

    proof fn lemma_wf_ranges(&self) {
    }

    fn get_position(&self) -> (p: Vec2) {
        self.position
    }

    fn update(&mut self) {
        let moved = Vec2 { x: self.position.x + self.speed.x, y: self.position.y + self.speed.y };
        self.position = Asteroid::bound_pos(moved, self.screen_size);
    }

    fn get_size(&self) -> (s: i64) {
        self.size
    }
}

} // verus!
