//! A fixed-formation shooter simulation: a turret that fires upward, a
//! marching grid of invaders that fires back, and the per-tick rules that
//! move them and resolve their collisions.
//!
//! Lengths are integers in micro-pixels and time is in microseconds, so a
//! speed given in pixels per second is exactly a length per microsecond.
pub mod geometry;
pub mod timer;
pub mod world;
pub mod config;
pub mod grid;
pub mod collision;
pub mod formation;
pub mod movement;
pub mod weapons;
pub mod game;
