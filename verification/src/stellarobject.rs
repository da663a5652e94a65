//! The shared behaviour of everything that moves on the screen.
//!
//! Each implementor describes itself to the verifier through spec functions:
//! `pos_spec` and `size_spec` say where it is and what collision radius it
//! presents, and `updated` gives the exact post-state of one frame of
//! motion.  The executable methods promise to agree with those functions, so
//! callers know the full behaviour of every implementor.
//!
//! The collision test `check_collision` is a generic inherent method of each
//! implementor rather than a trait method (a trait method cannot take the
//! trait itself as a bound), with an equally exact contract per type.

use crate::geom::{Vec2, COORD_LIMIT, MAX_DIM};
use vstd::prelude::*;

verus! {

/// One simulated object: an asteroid, a missile or the spaceship.
pub trait StellarObject: Sized {
    /// The current position.
    spec fn pos_spec(&self) -> Vec2;

    /// The collision radius this object presents as a target; zero for
    /// objects that are never a collision target.
    spec fn size_spec(&self) -> int;

    /// Well-formedness, preserved by every operation.
    spec fn wf(&self) -> bool;

    /// The exact state after one frame of motion.
    spec fn updated(&self) -> Self;

    /// A well-formed object keeps its coordinates and radius small enough
    /// for exact squared-distance arithmetic.
    proof fn lemma_wf_ranges(&self)
        requires
            self.wf(),
        ensures
            -COORD_LIMIT <= self.pos_spec().x <= COORD_LIMIT,
            -COORD_LIMIT <= self.pos_spec().y <= COORD_LIMIT,
            0 <= self.size_spec() <= MAX_DIM,
    ;

    /// The current position.
    fn get_position(&self) -> (p: Vec2)
        ensures
            p == self.pos_spec(),
    ;

    /// Advances this object by one frame.
    fn update(&mut self)
        requires
            old(self).wf(),
        ensures
            final(self).wf(),
            *final(self) == old(self).updated(),
    ;

    /// The collision radius this object presents as a target.
    fn get_size(&self) -> (s: i64)
        ensures
            s == self.size_spec(),
    ;
}

} // verus!
