//! Tuning values shared by the subsystems.
//!
//! Lengths are in thousandths of a world unit, factors in thousandths.

use vstd::prelude::*;

verus! {

/// Most requests a production queue holds at once.
pub const MAX_QUEUE_LENGTH: usize = 5;

/// Edge of a square tile.
pub const TILE_SIZE: i64 = 64_000;

/// Most tiles a map has along one axis.
pub const MAX_MAP_TILES: u32 = 1_000_000;

/// Sprite edge of the classes that do not set their own, in world units.
pub const UNIT_DEFAULT_SIZE: u32 = 192;

/// Factor from a unit's sprite edge to its size in the world.
pub const UNIT_SCALE: i64 = 500;

/// Factor from a building's sprite size to its size in the world.
pub const BUILDING_SCALE: i64 = 600;

/// Length that a range of one stands for: half the world size of a default
/// unit.
pub const RADIUS: i64 = 48_000;

/// Distance under which a projectile strikes an opposing occupant.
pub const STRIKE_RADIUS: i64 = 19_200;

/// Longest step of time that one tick simulates, in microseconds.
pub const CAPPED_DELTA_MICROS: u64 = 50_000;

/// Tiles looked at around a unit, in every direction, for others to interact
/// with.
pub const SCAN_DISTANCE: u32 = 5;

/// Tiles looked at around a projectile, in every direction, for a target.
pub const STRIKE_SCAN_DISTANCE: u32 = 2;

/// Distance under which two units count as standing on the same spot.
pub const COINCIDENT_DISTANCE: i64 = 10;

/// Weight of the separation force against the lane direction.
pub const SEPARATION_WEIGHT: i64 = 7;

/// Flight speed of a projectile, in world units per second.
pub const ARROW_SPEED: u64 = 300;

/// Time a landed arrow stays in the ground, in milliseconds.
pub const ARROW_LINGER_MILLIS: u64 = 2_000;

/// Distance from a base to the spot in front of its door where units appear.
pub const DOOR_OFFSET: i64 = 70_000;

/// Identity that stands for "no entity yet".
pub const PLACEHOLDER: u64 = 0xffff_ffff_ffff_ffff;

} // verus!
