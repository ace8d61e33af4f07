//! Simulation core of a single-screen breakout game: a paddle driven by
//! directional input, a bouncing ball, a destructible grid of blocks, a
//! score counter, and a two-state menu/playing flow.
//!
//! All geometry is fixed-point: positions and extents are `i64` values in
//! thousandths of a world unit ("milli-units"), velocities are in
//! milli-units per millisecond (numerically equal to world units per
//! second), and elapsed time is in milliseconds.  A host is expected to
//! feed each tick an input snapshot (elapsed time, held keys, start
//! trigger) and to read back entity transforms and the score for display.

pub mod config;
pub mod geom;
pub mod store;
pub mod systems;
pub mod game;
pub mod laws;
