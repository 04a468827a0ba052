//! Simulation core of a Breakout-style arcade game.
//!
//! Fixed-timestep physics over axis-aligned boxes: collision detection with
//! side-of-impact classification, velocity reflection, brick damage and
//! removal, paddle control and a score counter.  All geometry is held in
//! fixed-point coordinates (see [`config`]) so that every tick is exact and
//! deterministic; rendering, audio and input devices are left to a caller.

pub mod config;
pub mod geometry;
pub mod collision;
pub mod laws;
pub mod rng;
pub mod setup;
pub mod store;
pub mod world;
