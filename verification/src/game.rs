//! The per-frame simulation step and session lifecycle: advance every
//! entity, resolve ship-asteroid and missile-asteroid collisions, apply the
//! splitting rules, and rebuild the live collections.

use crate::asteroid::{
    asteroid_wf,
    asteroid_stepped,
    fresh_drift,
    in_tiers,
    near_edge,
    spawned,
    next_tier,
    split_children_ok,
    Asteroid,
    ASTEROID_INIT_SIZE,
    SPLIT_OFFSET,
};
use crate::geom::bounds_ok;
use crate::missile::{missile_after_check, missile_hit_verdict, missile_stepped, missile_wf, Missile};
use crate::rng::rand_in_range;
use crate::geom::Vec2;
use crate::spaceship::{
    screen_center,
    ship_after_check,
    ship_hit_verdict,
    ship_initial,
    ship_stepped,
    ship_wf,
    Spaceship,
};
use crate::stellarobject::StellarObject;
use vstd::prelude::*;

verus! {

/// What one simulation step reports back; the caller turns these into
/// sounds and win/loss decisions.
#[derive(Clone, Copy, Debug, PartialEq, Eq)]
pub struct StepEvents {
    /// How many ship-asteroid collisions the step resolved.
    pub ship_hits: usize,
    /// How many missile-asteroid hits the step resolved.
    pub missile_hits: usize,
    /// Whether the ship is destroyed after the step.
    pub ship_destroyed: bool,
}

/// How a session stands after a step.
#[derive(Clone, Copy, Debug, PartialEq, Eq, Structural)]
pub enum GameOutcome {
    /// Asteroids remain and the ship lives.
    Playing,
    /// No asteroid is left and the ship lives.
    Won,
    /// The ship is destroyed.
    Lost,
}

pub open spec fn all_asteroids_wf(s: Seq<Asteroid>) -> bool {
    forall|i: int| 0 <= i < s.len() ==> asteroid_wf(#[trigger] s[i])
}

pub open spec fn all_in_tiers(s: Seq<Asteroid>) -> bool {
    forall|i: int| 0 <= i < s.len() ==> in_tiers(#[trigger] s[i].size as int)
}

pub open spec fn all_missiles_wf(s: Seq<Missile>) -> bool {
    forall|i: int| 0 <= i < s.len() ==> missile_wf(#[trigger] s[i])
}

/// Every asteroid advanced by one frame, nothing else changed.
pub open spec fn stepped_all(s: Seq<Asteroid>) -> Seq<Asteroid> {
    s.map_values(|a: Asteroid| asteroid_stepped(a))
}

/// How an asteroid of one frame can stand in the next frame's collection:
/// as itself, advanced by the frame, or as one of the two fragments of its
/// advanced self's split.
pub open spec fn descends_from(c: Asteroid, p: Asteroid) -> bool {
    let u = asteroid_stepped(p);
    ||| c == u
    ||| {
        &&& next_tier(p.size as int) == Some(c.size as int)
        &&& c.screen_size == p.screen_size
        &&& c.position.x == u.position.x + SPLIT_OFFSET
        &&& (c.position.y == u.position.y + SPLIT_OFFSET || c.position.y == u.position.y
            - SPLIT_OFFSET)
        &&& fresh_drift(c.speed)
    }
}

/// Every missile advanced by one frame, then the inactive ones dropped:
/// what the end-of-frame missile pass leaves behind.
pub open spec fn purged(s: Seq<Missile>) -> Seq<Missile> {
    s.map_values(|m: Missile| missile_stepped(m)).filter(|m: Missile| m.is_active)
}

/// How a missile of one frame relates to the missile of the previous frame
/// it came from: flight never changes a missile's velocity or screen, and
/// only an active missile flies on.
pub open spec fn missile_tracks(c: Missile, p: Missile) -> bool {
    &&& c.speed == p.speed
    &&& c.screen_size == p.screen_size
    &&& c.is_active ==> p.is_active
}

/// Whether `c` can have come from one of the missiles in `src`: some active
/// missile there shares its velocity and screen.
pub open spec fn missile_sourced_in(c: Missile, src: Seq<Missile>) -> bool {
    exists|i: int| 0 <= i < src.len() && missile_tracks(c, #[trigger] src[i]) && src[i].is_active
}

/// The frame state the per-asteroid scan threads along: the ship, the
/// missile list (mutated in place by the scans), the next asteroid
/// collection as built so far, and the event counts.
#[verifier::ext_equal]
pub struct FrameState {
    pub ship: Spaceship,
    pub missiles: Seq<Missile>,
    pub outs: Seq<Asteroid>,
    pub ship_hits: int,
    pub missile_hits: int,
}

/// A missile as the scan against a target leaves it: it advances one frame,
/// then tests for the hit (so a scanned missile moves once here and once
/// more in the end-of-frame pass).
pub open spec fn scan_one(m: Missile, tpos: Vec2, tsize: int) -> Missile {
    missile_after_check(missile_stepped(m), tpos, tsize)
}

pub open spec fn scan_one_hits(m: Missile, tpos: Vec2, tsize: int) -> bool {
    missile_hit_verdict(missile_stepped(m), tpos, tsize)
}

/// The missile list and verdict the scan against one asteroid leaves
/// behind, scanning from index `j` on: missiles are scanned in order and the
/// scan stops right after the first hit, leaving later missiles untouched.
pub open spec fn scan_from(ms: Seq<Missile>, j: int, tpos: Vec2, tsize: int) -> (Seq<Missile>, bool)
    decreases ms.len() - j,
{
    if j < 0 || j >= ms.len() {
        (ms, false)
    } else {
        let m2 = scan_one(ms[j], tpos, tsize);
        if scan_one_hits(ms[j], tpos, tsize) {
            (ms.update(j, m2), true)
        } else {
            scan_from(ms.update(j, m2), j + 1, tpos, tsize)
        }
    }
}

pub open spec fn scan_missiles(ms: Seq<Missile>, tpos: Vec2, tsize: int) -> (Seq<Missile>, bool) {
    scan_from(ms, 0, tpos, tsize)
}

/// The exact effect of processing one input asteroid `p`: `p` advances; the
/// ship is tested first and on a collision responds while the splittable
/// asteroid's fragments join the output; only a clear ship lets the missiles
/// scan, and a missile hit likewise replaces the asteroid by its fragments
/// (a smallest-tier or off-ladder asteroid is simply dropped); an untouched
/// asteroid joins the output unchanged.  Only the fragments' fresh drift
/// draws are left open.
pub open spec fn iter_rel(p: Asteroid, s0: FrameState, s1: FrameState) -> bool {
    let a = asteroid_stepped(p);
    let tpos = a.position;
    let tsize = a.size as int;
    if ship_hit_verdict(s0.ship, tpos, tsize) {
        &&& s1.ship == ship_after_check(s0.ship, tpos, tsize)
        &&& s1.missiles == s0.missiles
        &&& s1.ship_hits == s0.ship_hits + 1
        &&& s1.missile_hits == s0.missile_hits
        &&& if next_tier(a.size as int) is Some {
            exists|c1: Asteroid, c2: Asteroid|
                split_children_ok(a, c1, c2) && s1.outs == s0.outs.push(c1).push(c2)
        } else {
            s1.outs == s0.outs
        }
    } else {
        let scan = scan_missiles(s0.missiles, tpos, tsize);
        &&& s1.ship == s0.ship
        &&& s1.ship_hits == s0.ship_hits
        &&& s1.missiles == scan.0
        &&& if scan.1 {
            &&& s1.missile_hits == s0.missile_hits + 1
            &&& if next_tier(a.size as int) is Some {
                exists|c1: Asteroid, c2: Asteroid|
                    split_children_ok(a, c1, c2) && s1.outs == s0.outs.push(c1).push(c2)
            } else {
                s1.outs == s0.outs
            }
        } else {
            &&& s1.missile_hits == s0.missile_hits
            &&& s1.outs == s0.outs.push(a)
        }
    }
}

/// Chains `iter_rel` over every asteroid of `processed`, in order.
pub open spec fn frame_rel(processed: Seq<Asteroid>, s0: FrameState, s1: FrameState) -> bool
    decreases processed.len(),
{
    if processed.len() == 0 {
        s1 == s0
    } else {
        exists|mid: FrameState|
            frame_rel(processed.drop_last(), s0, mid) && iter_rel(processed.last(), mid, s1)
    }
}

/// The state a frame starts from.
pub open spec fn frame_start(ship: Spaceship, ms: Seq<Missile>) -> FrameState {
    FrameState { ship, missiles: ms, outs: Seq::empty(), ship_hits: 0, missile_hits: 0 }
}

/// Everything one simulation step does: some prefix of the input asteroid
/// list is processed in order — the whole list, unless a collision destroys
/// the ship, which aborts the rest of the scan — and the outputs are exactly
/// the processed state after the end-of-frame missile pass (`purged`) and
/// the ship's own advance.
pub open spec fn step_spec(
    olds: Seq<Asteroid>,
    ship0: Spaceship,
    ms0: Seq<Missile>,
    outs: Seq<Asteroid>,
    ship1: Spaceship,
    ms1: Seq<Missile>,
    ev: StepEvents,
) -> bool {
    exists|k: int, s: FrameState|
        {
            &&& 0 <= k <= olds.len()
            &&& #[trigger] frame_rel(olds.take(k), frame_start(ship0, ms0), s)
            &&& (k == olds.len() || (s.ship.shield <= 0 && s.ship_hits >= 1))
            &&& s.ship_hits == ev.ship_hits
            &&& s.missile_hits == ev.missile_hits
            &&& outs == s.outs
            &&& ms1 == purged(s.missiles)
            &&& ship1 == ship_stepped(s.ship)
        }
}

proof fn lemma_filter_elem_from<A>(s: Seq<A>, p: spec_fn(A) -> bool, j: int)
    requires
        0 <= j < s.filter(p).len(),
    ensures
        exists|k: int| 0 <= k < s.len() && s[k] == s.filter(p)[j],
    decreases s.len(),
{
    reveal(Seq::filter);
    if s.len() > 0 {
        let rest = s.drop_last();
        if p(s.last()) && j == s.filter(p).len() - 1 {
            assert(s[s.len() - 1] == s.filter(p)[j]);
        } else {
            lemma_filter_elem_from(rest, p, j);
            let k = choose|k: int| 0 <= k < rest.len() && rest[k] == rest.filter(p)[j];
            assert(s[k] == s.filter(p)[j]);
        }
    }
}

proof fn lemma_purged_take_step(s: Seq<Missile>, i: int)
    requires
        0 <= i < s.len(),
    ensures
        purged(s.take(i + 1)) == if missile_stepped(s[i]).is_active {
            purged(s.take(i)).push(missile_stepped(s[i]))
        } else {
            purged(s.take(i))
        },
{
    reveal(Seq::filter);
    let step = |m: Missile| missile_stepped(m);
    let live = |m: Missile| m.is_active;
    let mapped = s.take(i + 1).map_values(step);
    assert(mapped.drop_last() =~= s.take(i).map_values(step));
    assert(mapped.last() == missile_stepped(s[i]));
    assert(mapped.drop_last().filter(live) == purged(s.take(i)));
}

/// Advances every missile by one frame and removes the ones that are no
/// longer active, in order.
pub fn purge_missiles(missiles: &mut Vec<Missile>)
    requires
        all_missiles_wf(old(missiles)@),
    ensures
        final(missiles)@ == purged(old(missiles)@),
        final(missiles)@.len() <= old(missiles)@.len(),
        all_missiles_wf(final(missiles)@),
        forall|i: int| 0 <= i < final(missiles)@.len()
            ==> #[trigger] final(missiles)@[i].is_active,
{
    let ghost orig = missiles@;
    let mut kept: Vec<Missile> = Vec::new();
    let mut i: usize = 0;
    while i < missiles.len()
        invariant
            i <= orig.len(),
            missiles@ == orig,
            all_missiles_wf(orig),
            kept@ == purged(orig.take(i as int)),
            kept@.len() <= i,
            all_missiles_wf(kept@),
            forall|k: int| 0 <= k < kept@.len() ==> #[trigger] kept@[k].is_active,
        decreases orig.len() - i,
    {
        let mut m = missiles[i];
        m.update();
        proof {
            lemma_purged_take_step(orig, i as int);
        }
        if m.is_active() {
            kept.push(m);
        }
        i = i + 1;
    }
    proof {
        assert(orig.take(orig.len() as int) =~= orig);
    }
    *missiles = kept;
}

/// One frame of the simulation.
///
/// Every asteroid advances, the ship is tested against it, and, when the
/// ship stayed clear, each still-active missile is tested in turn (missiles
/// advance as they are scanned).  A hit asteroid is replaced by its split
/// fragments (none, for the smallest tier); an untouched asteroid is kept.
/// A ship collision costs one shield charge, and a ship destroyed by it
/// aborts the remaining asteroid processing for the frame.  Afterwards all
/// missiles advance once more and the spent ones are dropped, and the ship
/// itself advances.
#[verifier::loop_isolation(false)]
pub fn update_model(
    asteroids: &mut Vec<Asteroid>,
    spaceship: &mut Spaceship,
    missiles: &mut Vec<Missile>,
) -> (ev: StepEvents)
    requires
        all_asteroids_wf(old(asteroids)@),
        ship_wf(*old(spaceship)),
        old(spaceship).shield >= 0,
        all_missiles_wf(old(missiles)@),
    ensures
        all_asteroids_wf(final(asteroids)@),
        final(asteroids)@.len() <= 2 * old(asteroids)@.len(),
        all_in_tiers(old(asteroids)@) ==> all_in_tiers(final(asteroids)@),
        ship_wf(*final(spaceship)),
        final(spaceship).screen_size == old(spaceship).screen_size,
        final(spaceship).shield == old(spaceship).shield - ev.ship_hits,
        ev.ship_hits <= old(asteroids)@.len(),
        ev.missile_hits <= old(asteroids)@.len(),
        ev.ship_destroyed == (final(spaceship).shield <= 0),
        ev.ship_hits == 0 ==> *final(spaceship) == ship_stepped(*old(spaceship)),
        ev.ship_hits > 0 ==> *final(spaceship) == ship_stepped(
            Spaceship {
                position: screen_center(old(spaceship).screen_size),
                speed: Vec2 { x: 0, y: 0 },
                orientation: 0,
                shield: (old(spaceship).shield - ev.ship_hits) as i32,
                ..*old(spaceship)
            },
        ),
        all_missiles_wf(final(missiles)@),
        final(missiles)@.len() <= old(missiles)@.len(),
        forall|i: int| 0 <= i < final(missiles)@.len()
            ==> #[trigger] final(missiles)@[i].is_active,
        forall|j: int| 0 <= j < final(missiles)@.len() ==> missile_sourced_in(
            #[trigger] final(missiles)@[j],
            old(missiles)@,
        ),
        ev.ship_hits == 0 && ev.missile_hits == 0 ==> final(asteroids)@ == stepped_all(
            old(asteroids)@,
        ),
        forall|j: int| 0 <= j < final(asteroids)@.len() ==> exists|i: int|
            0 <= i < old(asteroids)@.len() && descends_from(
                #[trigger] final(asteroids)@[j],
                old(asteroids)@[i],
            ),
        step_spec(
            old(asteroids)@,
            *old(spaceship),
            old(missiles)@,
            final(asteroids)@,
            *final(spaceship),
            final(missiles)@,
            ev,
        ),
{
    let mut new_asteroids: Vec<Asteroid> = Vec::new();
    let mut ship_hits: usize = 0;
    let mut missile_hits: usize = 0;
    let mut halted: bool = false;
    let mut idx: usize = 0;
    let ghost start = frame_start(*spaceship, missiles@);
    proof {
        let cur = FrameState {
            ship: *spaceship,
            missiles: missiles@,
            outs: new_asteroids@,
            ship_hits: ship_hits as int,
            missile_hits: missile_hits as int,
        };
        assert(cur =~= start);
        assert(frame_rel(asteroids@.take(0int), start, cur));
    }
    while idx < asteroids.len() && !halted
        invariant
            idx <= asteroids@.len(),
            asteroids@ == old(asteroids)@,
            ship_wf(*spaceship),
            spaceship.screen_size == old(spaceship).screen_size,
            spaceship.shield == old(spaceship).shield - ship_hits,
            !halted ==> spaceship.shield >= 0,
            halted ==> spaceship.shield <= 0,
            halted ==> ship_hits >= 1,
            ship_hits <= idx,
            missile_hits <= idx,
            ship_hits == 0 ==> *spaceship == *old(spaceship),
            ship_hits > 0 ==> *spaceship == (Spaceship {
                position: screen_center(old(spaceship).screen_size),
                speed: Vec2 { x: 0, y: 0 },
                orientation: 0,
                shield: (old(spaceship).shield - ship_hits) as i32,
                ..*old(spaceship)
            }),
            all_asteroids_wf(new_asteroids@),
            new_asteroids@.len() <= 2 * idx,
            all_in_tiers(asteroids@) ==> all_in_tiers(new_asteroids@),
            ship_hits == 0 && missile_hits == 0 ==> new_asteroids@ == stepped_all(
                asteroids@.take(idx as int),
            ),
            forall|j: int| 0 <= j < new_asteroids@.len() ==> exists|i: int|
                0 <= i < asteroids@.len() && descends_from(
                    #[trigger] new_asteroids@[j],
                    asteroids@[i],
                ),
            missiles@.len() == old(missiles)@.len(),
            all_missiles_wf(missiles@),
            forall|k: int| 0 <= k < missiles@.len() ==> missile_tracks(
                #[trigger] missiles@[k],
                old(missiles)@[k],
            ),
            start == frame_start(*old(spaceship), old(missiles)@),
            frame_rel(
                asteroids@.take(idx as int),
                start,
                FrameState {
                    ship: *spaceship,
                    missiles: missiles@,
                    outs: new_asteroids@,
                    ship_hits: ship_hits as int,
                    missile_hits: missile_hits as int,
                },
            ),
        decreases asteroids@.len() - idx,
    {
        let ghost pre = FrameState {
            ship: *spaceship,
            missiles: missiles@,
            outs: new_asteroids@,
            ship_hits: ship_hits as int,
            missile_hits: missile_hits as int,
        };
        let mut a = asteroids[idx];
        a.update();
        let ghost tpos = a.position;
        let ghost tsize = a.size as int;
        let mut collision_ship = false;
        if spaceship.check_collision(&a) {
            collision_ship = true;
            ship_hits = ship_hits + 1;
            if let Some((a1, a2)) = a.split_asteroid() {
                proof {
                    assert(descends_from(a1, asteroids@[idx as int]));
                    assert(descends_from(a2, asteroids@[idx as int]));
                }
                new_asteroids.push(a1);
                new_asteroids.push(a2);
            }
            if spaceship.is_destroyed() {
                halted = true;
            }
            proof {
                let now = FrameState {
                    ship: *spaceship,
                    missiles: missiles@,
                    outs: new_asteroids@,
                    ship_hits: ship_hits as int,
                    missile_hits: missile_hits as int,
                };
                assert(iter_rel(asteroids@[idx as int], pre, now));
            }
        }
        if !collision_ship {
            let mut missile_hit = false;
            let mut j: usize = 0;
            while j < missiles.len() && !missile_hit
                invariant
                    j <= missiles@.len(),
                    missiles@.len() == old(missiles)@.len(),
                    all_missiles_wf(missiles@),
                    forall|k: int| 0 <= k < missiles@.len() ==> missile_tracks(
                        #[trigger] missiles@[k],
                        old(missiles)@[k],
                    ),
                    !missile_hit ==> scan_missiles(pre.missiles, tpos, tsize) == scan_from(
                        missiles@,
                        j as int,
                        tpos,
                        tsize,
                    ),
                    missile_hit ==> scan_missiles(pre.missiles, tpos, tsize) == (missiles@, true),
                decreases missiles@.len() - j,
            {
                let ghost ms_before = missiles@;
                let mut m = missiles[j];
                m.update();
                let hit = m.check_collision(&a);
                missiles[j] = m;
                proof {
                    assert(m == scan_one(ms_before[j as int], tpos, tsize));
                    assert(hit == scan_one_hits(ms_before[j as int], tpos, tsize));
                    assert(missiles@ == ms_before.update(j as int, m));
                    assert(scan_from(ms_before, j as int, tpos, tsize) == (
                    if scan_one_hits(ms_before[j as int], tpos, tsize) {
                        (
                            ms_before.update(
                                j as int,
                                scan_one(ms_before[j as int], tpos, tsize),
                            ),
                            true,
                        )
                    } else {
                        scan_from(
                            ms_before.update(
                                j as int,
                                scan_one(ms_before[j as int], tpos, tsize),
                            ),
                            j as int + 1,
                            tpos,
                            tsize,
                        )
                    }));
                }
                if hit {
                    missile_hit = true;
                }
                j = j + 1;
            }
            proof {
                if !missile_hit {
                    assert(scan_from(missiles@, missiles@.len() as int, tpos, tsize) == (
                        missiles@,
                        false,
                    ));
                }
            }
            if missile_hit {
                missile_hits = missile_hits + 1;
                if let Some((a1, a2)) = a.split_asteroid() {
                    proof {
                        assert(descends_from(a1, asteroids@[idx as int]));
                        assert(descends_from(a2, asteroids@[idx as int]));
                    }
                    new_asteroids.push(a1);
                    new_asteroids.push(a2);
                }
            } else {
                proof {
                    assert(descends_from(a, asteroids@[idx as int]));
                }
                new_asteroids.push(a);
                proof {
                    if ship_hits == 0 && missile_hits == 0 {
                        assert(new_asteroids@ =~= stepped_all(
                            asteroids@.take(idx as int + 1),
                        ));
                    }
                }
            }
            proof {
                let now = FrameState {
                    ship: *spaceship,
                    missiles: missiles@,
                    outs: new_asteroids@,
                    ship_hits: ship_hits as int,
                    missile_hits: missile_hits as int,
                };
                assert(iter_rel(asteroids@[idx as int], pre, now));
            }
        }
        proof {
            let now = FrameState {
                ship: *spaceship,
                missiles: missiles@,
                outs: new_asteroids@,
                ship_hits: ship_hits as int,
                missile_hits: missile_hits as int,
            };
            assert(iter_rel(asteroids@[idx as int], pre, now));
            assert(asteroids@.take(idx as int + 1).drop_last() =~= asteroids@.take(idx as int));
            assert(asteroids@.take(idx as int + 1).last() == asteroids@[idx as int]);
            assert(frame_rel(asteroids@.take(idx as int + 1), start, now));
        }
        idx = idx + 1;
    }
    proof {
        if ship_hits == 0 && missile_hits == 0 {
            assert(asteroids@.take(asteroids@.len() as int) =~= asteroids@);
        }
    }
    let ghost kend = idx as int;
    let ghost s_end = FrameState {
        ship: *spaceship,
        missiles: missiles@,
        outs: new_asteroids@,
        ship_hits: ship_hits as int,
        missile_hits: missile_hits as int,
    };
    proof {
        assert(frame_rel(old(asteroids)@.take(kend), start, s_end));
        assert(kend == old(asteroids)@.len() || (s_end.ship.shield <= 0 && s_end.ship_hits
            >= 1));
    }
    let ghost mid = missiles@;
    purge_missiles(missiles);
    *asteroids = new_asteroids;
    spaceship.update();
    let destroyed: bool = spaceship.is_destroyed();
    proof {
        let step = |m: Missile| missile_stepped(m);
        let live = |m: Missile| m.is_active;
        assert forall|j: int| 0 <= j < missiles@.len() implies missile_sourced_in(
            #[trigger] missiles@[j],
            old(missiles)@,
        ) by {
            lemma_filter_elem_from(mid.map_values(step), live, j);
            let k = choose|k: int|
                0 <= k < mid.map_values(step).len() && mid.map_values(step)[k] == mid.map_values(
                    step,
                ).filter(live)[j];
            assert(missiles@[j] == missile_stepped(mid[k]));
            assert(missile_tracks(missiles@[j], old(missiles)@[k]));
            assert(old(missiles)@[k].is_active);
        }
    }
    proof {
        assert(*spaceship == ship_stepped(s_end.ship));
        assert(missiles@ == purged(s_end.missiles));
        assert(asteroids@ == s_end.outs);
        assert(step_spec(
            old(asteroids)@,
            *old(spaceship),
            old(missiles)@,
            asteroids@,
            *spaceship,
            missiles@,
            StepEvents { ship_hits, missile_hits, ship_destroyed: destroyed },
        ));
    }
    StepEvents { ship_hits, missile_hits, ship_destroyed: destroyed }
}

/// How the session stands: the ship's destruction loses it, a cleared
/// screen wins it, anything else goes on.
pub fn game_outcome(asteroids: &Vec<Asteroid>, spaceship: &Spaceship) -> (o: GameOutcome)
    ensures
        o == (if spaceship.shield <= 0 {
            GameOutcome::Lost
        } else if asteroids@.len() == 0 {
            GameOutcome::Won
        } else {
            GameOutcome::Playing
        }),
{
    if spaceship.is_destroyed() {
        GameOutcome::Lost
    } else if asteroids.len() == 0 {
        GameOutcome::Won
    } else {
        GameOutcome::Playing
    }
}

/// Starts (or restarts) a session: a fresh ship at the screen center, four
/// to eight large asteroids at random edge positions, and no missiles.
pub fn init_game(
    screen_size: (i64, i64),
    spaceship: &mut Spaceship,
    asteroids: &mut Vec<Asteroid>,
    missiles: &mut Vec<Missile>,
)
    requires
        bounds_ok(screen_size),
    ensures
        *final(spaceship) == ship_initial(screen_size),
        final(missiles)@.len() == 0,
        4 <= final(asteroids)@.len() <= 8,
        all_asteroids_wf(final(asteroids)@),
        all_in_tiers(final(asteroids)@),
        forall|i: int| 0 <= i < final(asteroids)@.len()
            ==> (#[trigger] final(asteroids)@[i]).size == ASTEROID_INIT_SIZE
            && final(asteroids)@[i].screen_size == screen_size
            && near_edge(final(asteroids)@[i].position, screen_size)
            && fresh_drift(final(asteroids)@[i].speed)
            && spawned(final(asteroids)@[i], ASTEROID_INIT_SIZE, screen_size),
{
    *spaceship = Spaceship::new(screen_size);
    *missiles = Vec::new();
    let n: i64 = rand_in_range(4, 8);
    let mut vec_asteroids: Vec<Asteroid> = Vec::new();
    let mut i: i64 = 0;
    while i < n
        invariant
            bounds_ok(screen_size),
            0 <= i <= n <= 8,
            vec_asteroids@.len() == i,
            all_asteroids_wf(vec_asteroids@),
            all_in_tiers(vec_asteroids@),
            forall|k: int| 0 <= k < vec_asteroids@.len() ==> (#[trigger] vec_asteroids@[k]).size
                == ASTEROID_INIT_SIZE && vec_asteroids@[k].screen_size == screen_size
                && near_edge(vec_asteroids@[k].position, screen_size)
                && fresh_drift(vec_asteroids@[k].speed)
                && spawned(vec_asteroids@[k], ASTEROID_INIT_SIZE, screen_size),
        decreases n - i,
    {
        vec_asteroids.push(Asteroid::new(ASTEROID_INIT_SIZE, screen_size));
        i = i + 1;
    }
    *asteroids = vec_asteroids;
}

/// Splits a number of elapsed seconds into whole minutes and leftover
/// seconds, for the session clock.
pub fn elapsed_minutes_seconds(total_secs: u64) -> (r: (u64, u64))
    ensures
        r.0 == total_secs / 60,
        r.1 == total_secs % 60,
        r.0 * 60 + r.1 == total_secs,
{
    proof {
        vstd::arithmetic::div_mod::lemma_fundamental_div_mod(total_secs as int, 60);
    }
    (total_secs / 60, total_secs % 60)
}

} // verus!
