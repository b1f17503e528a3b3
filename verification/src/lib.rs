//! The simulation core of a small asteroid shooter.
//!
//! Everything here is integer arithmetic on plain values: lengths, speeds and
//! angles are fixed-point scalars (see [`fixed`]), time is counted in
//! nanoseconds. A [`simulation::Simulation`] owns the entity store, the two
//! timers and the application state, and advances by one call per frame.

pub mod asteroids;
pub mod bullets;
pub mod collisions;
pub mod despawn;
pub mod fixed;
pub mod input;
pub mod lineage;
pub mod movement;
pub mod player;
pub mod resolution;
pub mod schedules;
pub mod simulation;
pub mod spaceship;
pub mod state;
pub mod timer;
pub mod world;
