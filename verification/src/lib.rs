//! Grid movement and push resolution for a Sokoban-style puzzle.
//!
//! A player walks on an integer grid, pushes boxes one at a time, and the
//! level is solved once a box stands on every hole. Each executable pass is
//! specified against a mathematical board with unbounded coordinates.

pub mod board;
pub mod engine;
pub mod geometry;
pub mod keyboard;
pub mod laws;
pub mod level;
pub mod setup;
