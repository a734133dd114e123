//! Simulation core of a 2D tile-based action game: a procedural level grid
//! with a bidirectional tile index, a proximity-based collision gate, and a
//! discrete movement / animation state machine.
//!
//! World geometry uses fixed-point integers throughout: one world unit is
//! represented as 1000 "milli-units", so all positions, velocities and
//! distances are exact integer quantities.

pub mod animation;
pub mod build_map;
pub mod fixed;
pub mod grid;
pub mod input_control;
pub mod physics;
pub mod player;
pub mod simulation;
