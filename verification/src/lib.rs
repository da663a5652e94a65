//! Core simulation of a small 2D arcade game: a spaceship on a toroidal
//! screen shoots missiles at drifting asteroids, which split into smaller
//! fragments when hit.
//!
//! All kinematics run on fixed-point coordinates: one screen unit is
//! `geom::SCALE` ticks, and every position, velocity and radius is an `i64`
//! number of ticks.  Trigonometry (turning an orientation angle into a unit
//! direction vector) is left to the caller, which hands direction vectors in
//! as fixed-point values; everything downstream of that is verified integer
//! arithmetic.

pub mod asteroid;
pub mod game;
pub mod geom;
pub mod missile;
mod rng;
pub mod spaceship;
pub mod stellarobject;

pub use crate::asteroid::Asteroid;
pub use crate::game::GameOutcome;
pub use crate::game::StepEvents;
pub use crate::geom::Vec2;
pub use crate::missile::Missile;
pub use crate::spaceship::Spaceship;
pub use crate::stellarobject::StellarObject;
