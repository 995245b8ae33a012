//! Simulation core of a small fixed-timestep 2D action game.
//!
//! The crate provides an entity-component store with deferred entity
//! destruction, a frame-scoped resource table, a dependency-ordered system
//! scheduler, and the four gameplay systems that run every frame: keyboard
//! input translation, autonomous enemy steering, kinematic movement, and
//! sprite animation.  Everything a system does to the world is stated in the
//! contracts over the world's mathematical view.

pub mod ai;
pub mod animator;
pub mod components;
pub mod direction;
pub mod dispatcher;
pub mod events;
pub mod geometry;
pub mod keyboard;
pub mod laws;
pub mod movement;
pub mod render;
pub mod resources;
mod rng;
pub mod spawn;
pub mod world;

pub use direction::Direction;
pub use geometry::{Point, Rect};
