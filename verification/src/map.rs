//! The tile grid: walkable tiles, lanes, and the mapping between tiles and
//! world coordinates.
//!
//! The map is centred on the world origin. Tile columns grow to the right;
//! tile rows grow downwards, against the world's vertical axis.

use vstd::prelude::*;
use crate::constants::{MAX_MAP_TILES, TILE_SIZE};
use crate::geometry::{Vec2, V2, WIDE_LIMIT};

verus! {

/// A cell of the tile grid.
#[derive(Clone, Copy, Debug, PartialEq, Eq, Hash, Structural)]
pub struct TilePos {
    pub x: u32,
    pub y: u32,
}

impl TilePos {
    pub fn new(x: u32, y: u32) -> (tile: TilePos)
        ensures
            tile == (TilePos { x, y }),
    {
        TilePos { x, y }
    }

    /// Chebyshev distance to `other`: the larger of the two axis distances.
    pub open spec fn chebyshev(self, other: TilePos) -> int {
        let dx = if self.x >= other.x {
            self.x - other.x
        } else {
            other.x - self.x
        };
        let dy = if self.y >= other.y {
            self.y - other.y
        } else {
            other.y - self.y
        };
        if dx >= dy {
            dx
        } else {
            dy
        }
    }
}

/// One of the fixed routes between the two bases.
#[derive(Clone, Copy, Debug, PartialEq, Eq, Hash, Structural)]
pub enum Lane {
    Top,
    Mid,
    Bot,
}

/// The tile grid with its lanes. `walkable` holds one flag per tile, row by
/// row; each lane is a polyline of waypoints from the left base to the right
/// one.
#[derive(Debug)]
pub struct GameMap {
    pub width: u32,
    pub height: u32,
    pub walkable: Vec<bool>,
    pub top: Vec<TilePos>,
    pub mid: Vec<TilePos>,
    pub bot: Vec<TilePos>,
}

/// World x of the left edge of a map that is `width` tiles wide.
pub open spec fn left_edge(width: u32) -> int {
    -(width * (TILE_SIZE / 2))
}

/// World y of the top edge of a map that is `height` tiles high.
pub open spec fn top_edge(height: u32) -> int {
    height * (TILE_SIZE / 2)
}

/// Index of the tile interval that `offset` falls into, counted from an edge
/// and limited to the range of tile indices.
pub open spec fn tile_index(offset: int) -> u32 {
    if offset < 0 {
        0
    } else if offset / (TILE_SIZE as int) > u32::MAX {
        u32::MAX
    } else {
        (offset / (TILE_SIZE as int)) as u32
    }
}

impl GameMap {
    /// The grid has a flag for every tile and every lane has a waypoint.
    pub open spec fn wf(&self) -> bool {
        &&& 0 < self.width <= MAX_MAP_TILES
        &&& 0 < self.height <= MAX_MAP_TILES
        &&& self.walkable@.len() == self.width * self.height
        &&& self.top@.len() > 0
        &&& self.mid@.len() > 0
        &&& self.bot@.len() > 0
    }

    /// Whether units may stand on `tile`. Tiles outside the grid are not
    /// walkable.
    pub open spec fn spec_is_walkable(&self, tile: TilePos) -> bool {
        tile.x < self.width && tile.y < self.height && self.walkable@[tile.y * self.width
            + tile.x]
    }

    /// Whether the tile under `tile` is walkable. Under the last row of tile
    /// indices there is none.
    pub open spec fn spec_walkable_below(&self, tile: TilePos) -> bool {
        tile.y < u32::MAX && self.spec_is_walkable(TilePos { x: tile.x, y: (tile.y + 1) as u32 })
    }

    /// World position of the centre of `tile`.
    pub open spec fn spec_tile_to_world(&self, tile: TilePos) -> V2 {
        V2 {
            x: left_edge(self.width) + tile.x * TILE_SIZE + TILE_SIZE / 2,
            y: top_edge(self.height) - tile.y * TILE_SIZE - TILE_SIZE / 2,
        }
    }

    /// The tile that the world position `pos` lies in. Positions left of or
    /// above the grid count to the first column or row.
    pub open spec fn spec_world_to_tile(&self, pos: V2) -> TilePos {
        TilePos {
            x: tile_index(pos.x - left_edge(self.width)),
            y: tile_index(top_edge(self.height) - pos.y),
        }
    }

    /// The waypoints of `lane` in walking order: as stored for the side that
    /// starts on the left, reversed for the other.
    pub open spec fn spec_lane(&self, lane: Lane, reversed: bool) -> Seq<TilePos> {
        let stored = match lane {
            Lane::Top => self.top@,
            Lane::Mid => self.mid@,
            Lane::Bot => self.bot@,
        };
        if reversed {
            stored.reverse()
        } else {
            stored
        }
    }

    /// Whether units may stand on `tile`.
    pub fn is_walkable(&self, tile: TilePos) -> (walkable: bool)
        requires
            self.wf(),
        ensures
            walkable == self.spec_is_walkable(tile),
    {
        if tile.x < self.width && tile.y < self.height {
            assert(tile.y * self.width + tile.x < self.width * self.height) by (nonlinear_arith)
                requires
                    tile.x < self.width,
                    tile.y < self.height,
            ;
            assert(tile.y * self.width <= 1_000_000 * 1_000_000) by (nonlinear_arith)
                requires
                    tile.y < 1_000_000,
                    self.width <= 1_000_000,
            ;
            let cells: usize = self.walkable.len();
            let at: u64 = (tile.y as u64) * (self.width as u64) + (tile.x as u64);
            assert(at < cells);
            self.walkable[at as usize]
        } else {
            false
        }
    }

    /// Whether the tile under `tile` is walkable.
    pub fn walkable_below(&self, tile: TilePos) -> (walkable: bool)
        requires
            self.wf(),
        ensures
            walkable == self.spec_walkable_below(tile),
    {
        if tile.y < u32::MAX {
            self.is_walkable(TilePos { x: tile.x, y: tile.y + 1 })
        } else {
            false
        }
    }

    /// World position of the centre of `tile`.
    pub fn tile_to_world(&self, tile: TilePos) -> (pos: Vec2)
        requires
            self.wf(),
        ensures
            pos@ == self.spec_tile_to_world(tile),
            pos@.within(300_000_000_000_000),
            tile.x < self.width && tile.y < self.height ==> pos.in_bounds(),
    {
        let half: i64 = TILE_SIZE / 2;
        let left: i64 = -((self.width as i64) * half);
        let top: i64 = (self.height as i64) * half;
        let x: i64 = left + (tile.x as i64) * TILE_SIZE + half;
        let y: i64 = top - (tile.y as i64) * TILE_SIZE - half;
        Vec2 { x, y }
    }

    /// The tile that the world position `pos` lies in.
    pub fn world_to_tile(&self, pos: &Vec2) -> (tile: TilePos)
        requires
            self.wf(),
            pos@.within(WIDE_LIMIT as int),
        ensures
            tile == self.spec_world_to_tile(pos@),
    {
        let half: i64 = TILE_SIZE / 2;
        let left: i64 = -((self.width as i64) * half);
        let top: i64 = (self.height as i64) * half;
        TilePos { x: tile_index_of(pos.x - left), y: tile_index_of(top - pos.y) }
    }

    /// The waypoints of `lane` in walking order.
    pub fn lane(&self, lane: Lane, reversed: bool) -> (path: Vec<TilePos>)
        ensures
            path@ == self.spec_lane(lane, reversed),
    {
        let stored: &Vec<TilePos> = match lane {
            Lane::Top => &self.top,
            Lane::Mid => &self.mid,
            Lane::Bot => &self.bot,
        };
        let n: usize = stored.len();
        let mut path: Vec<TilePos> = Vec::new();
        let mut i: usize = 0;
        while i < n
            invariant
                n == stored@.len(),
                i <= n,
                path@.len() == i,
                forall|k: int|
                    0 <= k < i ==> path@[k] == if reversed {
                        stored@[n - 1 - k]
                    } else {
                        stored@[k]
                    },
            decreases n - i,
        {
            if reversed {
                path.push(stored[n - 1 - i]);
            } else {
                path.push(stored[i]);
            }
            i = i + 1;
        }
        assert(path@ =~= self.spec_lane(lane, reversed));
        path
    }
}

/// Index of the tile interval that `offset` falls into.
fn tile_index_of(offset: i64) -> (index: u32)
    ensures
        index == tile_index(offset as int),
{
    if offset < 0 {
        0
    } else {
        let q: i64 = offset / TILE_SIZE;
        if q > 0xffff_ffff {
            0xffff_ffff
        } else {
            q as u32
        }
    }
}

/// The centre of a tile lies in that tile.
pub proof fn lemma_tile_round_trip(map: &GameMap, tile: TilePos)
    requires
        map.wf(),
    ensures
        map.spec_world_to_tile(map.spec_tile_to_world(tile)) == tile,
{
    let t = TILE_SIZE as int;
    assert((tile.x * t + t / 2) / t == tile.x) by (nonlinear_arith)
        requires
            t == 64_000,
            tile.x >= 0,
    ;
    assert((tile.y * t + t / 2) / t == tile.y) by (nonlinear_arith)
        requires
            t == 64_000,
            tile.y >= 0,
    ;
}

} // verus!
