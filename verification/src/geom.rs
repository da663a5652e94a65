//! Fixed-point plane geometry shared by every entity.
//!
//! One screen unit is `SCALE` ticks; every coordinate, velocity component and
//! radius in the crate is an `i64` count of ticks.  Rational constants of the
//! game (friction 99/100, the 4/100 missile time step, ...) act on such
//! values through `scaled`, which multiplies and then divides, rounding the
//! magnitude toward zero.

use vstd::arithmetic::div_mod::{
    lemma_div_is_ordered,
    lemma_div_multiples_vanish,
    lemma_div_pos_is_pos,
};
use vstd::prelude::*;

verus! {

/// Ticks per screen unit.
pub const SCALE: i64 = 1000;

/// Smallest accepted screen dimension, in ticks: spawning an asteroid near an
/// edge offsets it by up to one full large-asteroid radius, so the screen
/// must be at least that wide and tall.
pub const MIN_DIM: i64 = 50_000;

/// Largest accepted screen dimension, in ticks.
pub const MAX_DIM: i64 = 100_000_000;

/// Coordinates handed to `dist2` must stay within this magnitude so that the
/// squared distance fits in an `i64`.
pub const COORD_LIMIT: i64 = 1_050_000_000;

/// Every live entity keeps its coordinates within this magnitude; one frame
/// of drift stays comfortably below `COORD_LIMIT`.
pub const POS_LIMIT: i64 = 1_000_000_000;

/// A fixed-point point or vector in the plane.
#[derive(Clone, Copy, Debug, PartialEq, Eq, Structural)]
pub struct Vec2 {
    pub x: i64,
    pub y: i64,
}

/// Screen bounds `(width, height)` acceptable to the simulation.
pub open spec fn bounds_ok(b: (i64, i64)) -> bool {
    &&& MIN_DIM <= b.0 <= MAX_DIM
    &&& MIN_DIM <= b.1 <= MAX_DIM
}

/// `v * num / den` with the magnitude rounded toward zero, as every
/// fixed-point rescaling in the game computes it.
pub open spec fn scaled(v: int, num: int, den: int) -> int
    recommends
        num >= 0,
        den > 0,
{
    if v >= 0 {
        (v * num) / den
    } else {
        -(((-v) * num) / den)
    }
}

/// Squared Euclidean distance between `(ax, ay)` and `(bx, by)`.
pub open spec fn dist2(ax: int, ay: int, bx: int, by: int) -> int {
    (ax - bx) * (ax - bx) + (ay - by) * (ay - by)
}

/// The integer square root, rounded down.
pub open spec fn sqrt_floor(n: int) -> int
    decreases n,
{
    if n < 1 {
        0
    } else {
        let r = sqrt_floor(n - 1);
        if (r + 1) * (r + 1) <= n {
            r + 1
        } else {
            r
        }
    }
}

/// `sqrt_floor(n)` really is the rounded-down square root of `n`.
pub proof fn lemma_sqrt_floor_bounds(n: int)
    requires
        n >= 0,
    ensures
        0 <= sqrt_floor(n),
        sqrt_floor(n) * sqrt_floor(n) <= n,
        n < (sqrt_floor(n) + 1) * (sqrt_floor(n) + 1),
    decreases n,
{
    if n >= 1 {
        lemma_sqrt_floor_bounds(n - 1);
        let r = sqrt_floor(n - 1);
        if (r + 1) * (r + 1) <= n {
            assert(n < (r + 2) * (r + 2)) by {
                assert((r + 2) * (r + 2) == (r + 1) * (r + 1) + 2 * r + 3) by (nonlinear_arith);
            }
        }
    }
}

/// Any `r` with `r*r <= n < (r+1)*(r+1)` is `sqrt_floor(n)`.
pub proof fn lemma_sqrt_floor_unique(n: int, r: int)
    requires
        n >= 0,
        r >= 0,
        r * r <= n,
        n < (r + 1) * (r + 1),
    ensures
        r == sqrt_floor(n),
{
    lemma_sqrt_floor_bounds(n);
    let s = sqrt_floor(n);
    if r < s {
        assert((r + 1) * (r + 1) <= s * s) by (nonlinear_arith)
            requires
                0 <= r + 1 <= s,
        ;
    }
    if s < r {
        assert((s + 1) * (s + 1) <= r * r) by (nonlinear_arith)
            requires
                0 <= s + 1 <= r,
        ;
    }
}

/// A square below `n` has its root below `sqrt_floor(n)`.
pub proof fn lemma_sqrt_floor_ge(n: int, a: int)
    requires
        n >= 0,
        a >= 0,
        a * a <= n,
    ensures
        a <= sqrt_floor(n),
{
    lemma_sqrt_floor_bounds(n);
    let s = sqrt_floor(n);
    if s < a {
        assert((s + 1) * (s + 1) <= a * a) by (nonlinear_arith)
            requires
                0 <= s + 1 <= a,
        ;
    }
}

/// The integer square root, by bisection.
pub fn isqrt(n: u64) -> (r: u64)
    ensures
        r == sqrt_floor(n as int),
        r * r <= n,
        n < (r + 1) * (r + 1),
{
    let mut lo: u64 = 0;
    let mut hi: u64 = 4_294_967_296;
    while lo + 1 < hi
        invariant
            lo < hi <= 4_294_967_296,
            (lo as int) * (lo as int) <= n as int,
            (n as int) < (hi as int) * (hi as int),
        decreases hi - lo,
    {
        let mid: u64 = lo + (hi - lo) / 2;
        assert(lo < mid < hi);
        assert((mid as int) * (mid as int) < 0x1_0000_0000_0000_0000) by (nonlinear_arith)
            requires
                0 <= (mid as int) < 4_294_967_296,
        ;
        if mid * mid <= n {
            lo = mid;
        } else {
            hi = mid;
        }
    }
    proof {
        lemma_sqrt_floor_unique(n as int, lo as int);
    }
    lo
}

/// Fixed-point rescaling of one component: `v * num / den`, magnitude rounded
/// toward zero.
pub fn scale_i64(v: i64, num: i64, den: i64) -> (r: i64)
    requires
        0 < den <= 1_000_000_000,
        0 <= num <= 1_000_000_000,
        -1_000_000_000 <= v <= 1_000_000_000,
    ensures
        r == scaled(v as int, num as int, den as int),
{
    let mag: u64 = if v < 0 {
        (-v) as u64
    } else {
        v as u64
    };
    assert((mag as int) * (num as int) <= 1_000_000_000_000_000_000) by (nonlinear_arith)
        requires
            0 <= (mag as int) <= 1_000_000_000,
            0 <= (num as int) <= 1_000_000_000,
    ;
    let q: u64 = (mag * (num as u64)) / (den as u64);
    proof {
        lemma_div_is_ordered(
            (mag as int) * (num as int),
            1_000_000_000_000_000_000,
            den as int,
        );
    }
    if v < 0 {
        -(q as i64)
    } else {
        q as i64
    }
}

/// `scaled` never grows the magnitude past `num` when `|v| <= den`.
pub proof fn lemma_scaled_bounded(v: int, num: int, den: int)
    requires
        0 <= num,
        0 < den,
        -den <= v <= den,
    ensures
        -num <= scaled(v, num, den) <= num,
{
    let a = if v >= 0 { v } else { -v };
    assert(0 <= a * num <= den * num) by (nonlinear_arith)
        requires
            0 <= a <= den,
            0 <= num,
    ;
    lemma_div_pos_is_pos(a * num, den);
    lemma_div_is_ordered(a * num, den * num, den);
    lemma_div_multiples_vanish(num, den);
}

/// `scaled` with `num <= den` never grows the magnitude past `|v|`.
pub proof fn lemma_scaled_shrinks(v: int, num: int, den: int)
    requires
        0 < den,
        0 <= num <= den,
        -1_000_000_000_000 <= v <= 1_000_000_000_000,
    ensures
        v >= 0 ==> 0 <= scaled(v, num, den) <= v,
        v < 0 ==> v <= scaled(v, num, den) <= 0,
{
    let a = if v >= 0 { v } else { -v };
    assert(0 <= a * num <= a * den) by (nonlinear_arith)
        requires
            0 <= a,
            0 <= num <= den,
    ;
    lemma_div_pos_is_pos(a * num, den);
    lemma_div_is_ordered(a * num, a * den, den);
    lemma_div_multiples_vanish(a, den);
    assert(a * den == den * a) by (nonlinear_arith);
}

/// A magnitude bound on the input gives a magnitude bound on `scaled`.
pub proof fn lemma_scaled_mag_le(v: int, num: int, den: int, m: int)
    requires
        0 < den,
        0 <= num,
        0 <= m,
        -m <= v <= m,
    ensures
        -((m * num) / den) <= scaled(v, num, den) <= (m * num) / den,
{
    let a = if v >= 0 { v } else { -v };
    assert(0 <= a * num <= m * num) by (nonlinear_arith)
        requires
            0 <= a <= m,
            0 <= num,
    ;
    lemma_div_pos_is_pos(a * num, den);
    lemma_div_is_ordered(a * num, m * num, den);
}

/// Squared distance between two points, exact.
pub fn dist2_i64(a: Vec2, b: Vec2) -> (d: i64)
    requires
        -COORD_LIMIT <= a.x <= COORD_LIMIT,
        -COORD_LIMIT <= a.y <= COORD_LIMIT,
        -COORD_LIMIT <= b.x <= COORD_LIMIT,
        -COORD_LIMIT <= b.y <= COORD_LIMIT,
    ensures
        d == dist2(a.x as int, a.y as int, b.x as int, b.y as int),
        d >= 0,
{
    let dx: i64 = a.x - b.x;
    let dy: i64 = a.y - b.y;
    assert((dx as int) * (dx as int) + (dy as int) * (dy as int)
        <= 2 * (2 * COORD_LIMIT as int) * (2 * COORD_LIMIT as int)) by (nonlinear_arith)
        requires
            -2 * (COORD_LIMIT as int) <= dx as int <= 2 * (COORD_LIMIT as int),
            -2 * (COORD_LIMIT as int) <= dy as int <= 2 * (COORD_LIMIT as int),
    ;
    assert((dx as int) * (dx as int) >= 0) by (nonlinear_arith);
    assert((dy as int) * (dy as int) >= 0) by (nonlinear_arith);
    dx * dx + dy * dy
}

} // verus!
