//! Deterministic, tick-driven core of a lane-based battle simulation.
//!
//! Every quantity is an integer: world coordinates and lengths are counted in
//! thousandths of a world unit, time in microseconds, and multipliers in
//! thousandths.

pub mod buildings;
pub mod combat;
pub mod constants;
pub mod effects;
pub mod geometry;
pub mod map;
pub mod movement;
pub mod player;
pub mod queue;
pub mod random;
pub mod settings;
pub mod soldiers;
pub mod spawn;
pub mod spatial;
pub mod time;
pub mod units;
pub mod world;
