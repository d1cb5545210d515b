//! The spatial index: which entities stand on which tile.
//!
//! An index is built once per tick from the positions at that moment and is
//! never changed afterwards.

use vstd::prelude::*;
use vstd::arithmetic::div_mod::lemma_fundamental_div_mod_converse;
use std::collections::HashMap;
use crate::buildings::Building;
use crate::geometry::{Vec2, WIDE_LIMIT};
use crate::map::{GameMap, TilePos};
use crate::settings::PlayerColor;
use crate::units::Unit;

verus! {

/// Largest distance that a neighbourhood query accepts, in tiles.
pub const MAX_QUERY_DISTANCE: u32 = 0x7fff;

/// What stands on a tile: the state of a unit or of a building when the
/// index was built.
#[derive(Clone, Copy, Debug, PartialEq, Eq, Structural)]
pub enum Body {
    Unit(Unit),
    Building(Building),
}

/// An entry of the index: an entity with its position and state when the
/// index was built.
#[derive(Clone, Copy, Debug, PartialEq, Eq, Structural)]
pub struct Occupant {
    pub id: u64,
    pub position: Vec2,
    pub body: Body,
}

impl Occupant {
    /// The team of the occupant.
    pub open spec fn spec_color(&self) -> PlayerColor {
        match self.body {
            Body::Unit(unit) => unit.color,
            Body::Building(building) => building.color,
        }
    }

    /// The team of the occupant.
    #[verifier::when_used_as_spec(spec_color)]
    pub fn color(&self) -> (color: PlayerColor)
        ensures
            color == self.spec_color(),
    {
        match self.body {
            Body::Unit(unit) => unit.color,
            Body::Building(building) => building.color,
        }
    }
}

/// First tile index of the interval of `distance` around `center`.
pub open spec fn span_start(center: u32, distance: u32) -> int {
    if center >= distance {
        center - distance
    } else {
        0
    }
}

/// Last tile index of the interval of `distance` around `center`.
pub open spec fn span_end(center: u32, distance: u32) -> int {
    if center + distance <= u32::MAX {
        center + distance
    } else {
        u32::MAX as int
    }
}

/// Number of tile indices in the interval of `distance` around `center`.
pub open spec fn span_len(center: u32, distance: u32) -> int {
    span_end(center, distance) - span_start(center, distance) + 1
}

/// The `i`-th tile of the square of `distance` around `center`, counted
/// column by column and downwards in each column.
pub open spec fn square_tile(center: TilePos, distance: u32, i: int) -> TilePos {
    let rows = span_len(center.y, distance);
    TilePos {
        x: (span_start(center.x, distance) + i / rows) as u32,
        y: (span_start(center.y, distance) + i % rows) as u32,
    }
}

/// The tiles at Chebyshev distance at most `distance` from `center`, column
/// by column and downwards in each column.
pub open spec fn tiles_in_square(center: TilePos, distance: u32) -> Seq<TilePos> {
    Seq::new(
        (span_len(center.x, distance) * span_len(center.y, distance)) as nat,
        |i: int| square_tile(center, distance, i),
    )
}

/// An index into a grid of `cols` columns of `rows` cells splits into a
/// column and a row of the grid.
proof fn lemma_split_index(i: int, rows: int, cols: int)
    requires
        0 <= i < cols * rows,
        rows > 0,
        cols > 0,
    ensures
        0 <= i / rows < cols,
        0 <= i % rows < rows,
        i == (i / rows) * rows + i % rows,
{
    assert(0 <= i / rows < cols && 0 <= i % rows < rows && i == (i / rows) * rows + i % rows)
        by (nonlinear_arith)
        requires
            0 <= i < cols * rows,
            rows > 0,
            cols > 0,
    ;
}

/// The square around a tile holds exactly the tiles within the distance, and
/// each of them once.
pub proof fn lemma_tiles_in_square(center: TilePos, distance: u32)
    ensures
        forall|tile: TilePos|
            tiles_in_square(center, distance).contains(tile) <==> center.chebyshev(tile)
                <= distance,
        tiles_in_square(center, distance).no_duplicates(),
{
    let tiles = tiles_in_square(center, distance);
    let rows = span_len(center.y, distance);
    let cols = span_len(center.x, distance);
    let x0 = span_start(center.x, distance);
    let y0 = span_start(center.y, distance);
    assert forall|tile: TilePos| tiles.contains(tile) <==> center.chebyshev(tile)
        <= distance by {
        if tiles.contains(tile) {
            let i = choose|i: int| 0 <= i < tiles.len() && tiles[i] == tile;
            lemma_split_index(i, rows, cols);
        }
        if center.chebyshev(tile) <= distance {
            let a = tile.x - x0;
            let b = tile.y - y0;
            let i = a * rows + b;
            lemma_fundamental_div_mod_converse(i, rows, a, b);
            assert(0 <= i < cols * rows) by (nonlinear_arith)
                requires
                    i == a * rows + b,
                    0 <= a < cols,
                    0 <= b < rows,
            ;
            assert(tiles[i] == tile);
        }
    }
    assert forall|i: int, j: int| 0 <= i < tiles.len() && 0 <= j < tiles.len() && i != j implies tiles[i]
        != tiles[j] by {
        lemma_split_index(i, rows, cols);
        lemma_split_index(j, rows, cols);
        if tiles[i] == tiles[j] {
            assert(i / rows == j / rows);
            assert(i % rows == j % rows);
        }
    }
}

/// The tiles at Chebyshev distance at most `distance` from `pos`.
pub fn get_tiles_at_distance(pos: &TilePos, distance: u32) -> (tiles: Vec<TilePos>)
    requires
        distance <= MAX_QUERY_DISTANCE,
    ensures
        tiles@ == tiles_in_square(*pos, distance),
{
    let x0: u32 = if pos.x >= distance {
        pos.x - distance
    } else {
        0
    };
    let y0: u32 = if pos.y >= distance {
        pos.y - distance
    } else {
        0
    };
    let x1: u32 = if pos.x <= u32::MAX - distance {
        pos.x + distance
    } else {
        u32::MAX
    };
    let y1: u32 = if pos.y <= u32::MAX - distance {
        pos.y + distance
    } else {
        u32::MAX
    };
    let ghost rows = span_len(pos.y, distance);
    let ghost cols = span_len(pos.x, distance);
    let mut tiles: Vec<TilePos> = Vec::new();
    let mut x: u32 = x0;
    let mut columns_done: bool = false;
    while !columns_done
        invariant
            x0 == span_start(pos.x, distance),
            y0 == span_start(pos.y, distance),
            x1 == span_end(pos.x, distance),
            y1 == span_end(pos.y, distance),
            rows == span_len(pos.y, distance),
            cols == span_len(pos.x, distance),
            x0 <= x <= x1,
            tiles@.len() == (if columns_done {
                cols
            } else {
                x - x0
            }) * rows,
            forall|i: int| 0 <= i < tiles@.len() ==> tiles@[i] == square_tile(*pos, distance, i),
            columns_done ==> x == x1,
        decreases x1 - x + (if columns_done { 0int } else { 1int }),
    {
        let mut y: u32 = y0;
        let mut rows_done: bool = false;
        let ghost before = tiles@.len() as int;
        while !rows_done
            invariant
                x0 == span_start(pos.x, distance),
                y0 == span_start(pos.y, distance),
                y1 == span_end(pos.y, distance),
                rows == span_len(pos.y, distance),
                x0 <= x,
                y0 <= y <= y1,
                before == (x - x0) * rows,
                tiles@.len() == before + (if rows_done {
                    rows
                } else {
                    y - y0
                }),
                forall|i: int|
                    0 <= i < tiles@.len() ==> tiles@[i] == square_tile(*pos, distance, i),
                rows_done ==> y == y1,
            decreases y1 - y + (if rows_done { 0int } else { 1int }),
        {
            proof {
                let i = tiles@.len() as int;
                lemma_fundamental_div_mod_converse(i, rows, x - x0, y - y0);
            }
            tiles.push(TilePos { x, y });
            if y < y1 {
                y = y + 1;
            } else {
                rows_done = true;
            }
        }
        assert(tiles@.len() == (x - x0 + 1) * rows) by (nonlinear_arith)
            requires
                tiles@.len() == before + rows,
                before == (x - x0) * rows,
        ;
        if x < x1 {
            x = x + 1;
        } else {
            columns_done = true;
        }
    }
    assert(tiles@ =~= tiles_in_square(*pos, distance));
    tiles
}

/// The key under which the cell of `tile` is stored.
pub open spec fn cell_key(tile: TilePos) -> u64 {
    (tile.x * 0x1_0000_0000 + tile.y) as u64
}

/// The entries of `all` that stand on `tile`, in their order in `all`.
pub open spec fn occupants_at(map: &GameMap, all: Seq<Occupant>, tile: TilePos) -> Seq<Occupant>
    decreases all.len(),
{
    if all.len() == 0 {
        Seq::empty()
    } else {
        let before = occupants_at(map, all.drop_last(), tile);
        if map.spec_world_to_tile(all.last().position@) == tile {
            before.push(all.last())
        } else {
            before
        }
    }
}

/// Every entry that stands on a tile is one of the indexed entries and lies
/// in that tile.
pub proof fn lemma_occupants_at_members(map: &GameMap, all: Seq<Occupant>, tile: TilePos)
    ensures
        forall|k: int|
            0 <= k < occupants_at(map, all, tile).len() ==> {
                let found = #[trigger] occupants_at(map, all, tile)[k];
                all.contains(found) && map.spec_world_to_tile(found.position@) == tile
            },
    decreases all.len(),
{
    if all.len() > 0 {
        lemma_occupants_at_members(map, all.drop_last(), tile);
        let before = occupants_at(map, all.drop_last(), tile);
        assert forall|k: int| 0 <= k < occupants_at(map, all, tile).len() implies {
            let found = #[trigger] occupants_at(map, all, tile)[k];
            all.contains(found) && map.spec_world_to_tile(found.position@) == tile
        } by {
            let found = occupants_at(map, all, tile)[k];
            if k < before.len() {
                assert(found == before[k]);
                assert(all.drop_last().contains(found));
                let at = choose|at: int| 0 <= at < all.drop_last().len() && all.drop_last()[at]
                    == found;
                assert(all[at] == found);
            } else {
                assert(found == all.last());
                assert(all[all.len() - 1] == found);
            }
        }
    }
}

/// Every entry of `cell` has a position that distances can be taken from.
pub open spec fn positions_bounded(cell: Seq<Occupant>) -> bool {
    forall|k: int| 0 <= k < cell.len() ==> (#[trigger] cell[k]).position@.within(WIDE_LIMIT as int)
}

/// A snapshot of where every entity stands: for each tile the entities on
/// it, in the order in which they were handed over.
pub struct SpatialIndex {
    cells: HashMap<u64, Vec<Occupant>>,
}

impl SpatialIndex {
    /// Every entry has a position that distances can be taken from.
    pub closed spec fn wf(&self) -> bool {
        forall|key: u64| #[trigger]
            self.cells@.contains_key(key) ==> positions_bounded(self.cells@[key]@)
    }

    /// The entries that stand on `tile`.
    pub closed spec fn bucket(&self, tile: TilePos) -> Seq<Occupant> {
        if self.cells@.contains_key(cell_key(tile)) {
            self.cells@[cell_key(tile)]@
        } else {
            Seq::empty()
        }
    }

    /// The entries on the tiles `tiles`, tile after tile.
    pub open spec fn gather(&self, tiles: Seq<TilePos>) -> Seq<Occupant>
        decreases tiles.len(),
    {
        if tiles.len() == 0 {
            Seq::empty()
        } else {
            self.gather(tiles.drop_last()) + self.bucket(tiles.last())
        }
    }

    /// The index holds exactly the entries `all`, each on the tile of `map`
    /// that its position lies in.
    pub open spec fn holds(&self, map: &GameMap, all: Seq<Occupant>) -> bool {
        forall|tile: TilePos| #[trigger] self.bucket(tile) == occupants_at(map, all, tile)
    }

    /// Builds the index of `occupants` over the tiles of `map`.
    pub fn build(map: &GameMap, occupants: &Vec<Occupant>) -> (index: SpatialIndex)
        requires
            map.wf(),
            forall|i: int|
                0 <= i < occupants@.len() ==> (#[trigger] occupants@[i]).position@.within(
                    WIDE_LIMIT as int,
                ),
        ensures
            index.holds(map, occupants@),
            index.wf(),
    {
        broadcast use vstd::std_specs::hash::group_hash_axioms;

        let mut cells: HashMap<u64, Vec<Occupant>> = HashMap::new();
        let n: usize = occupants.len();
        let mut i: usize = 0;
        while i < n
            invariant
                map.wf(),
                n == occupants@.len(),
                i <= n,
                forall|k: int|
                    0 <= k < occupants@.len() ==> (#[trigger] occupants@[k]).position@.within(
                        WIDE_LIMIT as int,
                    ),
                forall|tile: TilePos|
                    (if cells@.contains_key(#[trigger] cell_key(tile)) {
                        cells@[cell_key(tile)]@
                    } else {
                        Seq::empty()
                    }) == occupants_at(map, occupants@.take(i as int), tile),
                forall|key: u64| #[trigger]
                    cells@.contains_key(key) ==> positions_bounded(cells@[key]@),
            decreases n - i,
        {
            let occupant: Occupant = occupants[i];
            let tile: TilePos = map.world_to_tile(&occupant.position);
            let key: u64 = (tile.x as u64) * 0x1_0000_0000 + (tile.y as u64);
            let ghost before = cells@;
            let mut cell: Vec<Occupant> = match cells.remove(&key) {
                Some(cell) => cell,
                None => Vec::new(),
            };
            cell.push(occupant);
            cells.insert(key, cell);
            proof {
                let grown = occupants@.take(i + 1);
                assert(grown.drop_last() =~= occupants@.take(i as int));
                assert(grown.last() == occupant);
                assert forall|other: TilePos|
                    (if cells@.contains_key(#[trigger] cell_key(other)) {
                        cells@[cell_key(other)]@
                    } else {
                        Seq::empty()
                    }) == occupants_at(map, grown, other) by {
                    if other != tile {
                        assert(cell_key(other) != key);
                        assert(before.contains_key(cell_key(other)) == cells@.contains_key(
                            cell_key(other),
                        ));
                    }
                }
            }
            i = i + 1;
        }
        assert(occupants@.take(n as int) =~= occupants@);
        SpatialIndex { cells }
    }

    /// The entries that stand on `tile`.
    pub fn get(&self, tile: &TilePos) -> (found: Option<&Vec<Occupant>>)
        ensures
            match found {
                Some(cell) => cell@ == self.bucket(*tile) && (self.wf() ==> positions_bounded(
                    cell@,
                )),
                None => self.bucket(*tile).len() == 0,
            },
    {
        broadcast use vstd::std_specs::hash::group_hash_axioms;

        let key: u64 = (tile.x as u64) * 0x1_0000_0000 + (tile.y as u64);
        self.cells.get(&key)
    }

    /// The entries on the tiles `tiles`, tile after tile.
    pub fn nearby(&self, tiles: &Vec<TilePos>) -> (found: Vec<Occupant>)
        ensures
            found@ == self.gather(tiles@),
            self.wf() ==> positions_bounded(found@),
    {
        let mut found: Vec<Occupant> = Vec::new();
        let n: usize = tiles.len();
        let mut i: usize = 0;
        while i < n
            invariant
                n == tiles@.len(),
                i <= n,
                found@ == self.gather(tiles@.take(i as int)),
                self.wf() ==> positions_bounded(found@),
            decreases n - i,
        {
            let ghost before = found@;
            proof {
                assert(tiles@.take(i + 1).drop_last() =~= tiles@.take(i as int));
            }
            match self.get(&tiles[i]) {
                Some(cell) => {
                    let m: usize = cell.len();
                    let mut j: usize = 0;
                    while j < m
                        invariant
                            m == cell@.len(),
                            j <= m,
                            found@ == before + cell@.take(j as int),
                            self.wf() ==> positions_bounded(cell@),
                            self.wf() ==> positions_bounded(found@),
                        decreases m - j,
                    {
                        found.push(cell[j]);
                        assert(cell@.take(j + 1) =~= cell@.take(j as int).push(cell@[j as int]));
                        j = j + 1;
                    }
                    assert(cell@.take(m as int) =~= cell@);
                },
                None => {
                    assert(before + self.bucket(tiles@[i as int]) =~= before);
                },
            }
            i = i + 1;
        }
        assert(tiles@.take(n as int) =~= tiles@);
        found
    }
}

/// The entries gathered from a list of tiles are entries of the index that
/// stand on one of those tiles.
pub proof fn lemma_gather_members(
    index: &SpatialIndex,
    map: &GameMap,
    all: Seq<Occupant>,
    tiles: Seq<TilePos>,
)
    requires
        index.holds(map, all),
    ensures
        forall|k: int|
            0 <= k < index.gather(tiles).len() ==> {
                let found = #[trigger] index.gather(tiles)[k];
                all.contains(found) && tiles.contains(map.spec_world_to_tile(found.position@))
            },
    decreases tiles.len(),
{
    if tiles.len() > 0 {
        lemma_gather_members(index, map, all, tiles.drop_last());
        let before = index.gather(tiles.drop_last());
        let tile = tiles.last();
        lemma_occupants_at_members(map, all, tile);
        assert(index.bucket(tile) == occupants_at(map, all, tile));
        assert forall|k: int| 0 <= k < index.gather(tiles).len() implies {
            let found = #[trigger] index.gather(tiles)[k];
            all.contains(found) && tiles.contains(map.spec_world_to_tile(found.position@))
        } by {
            let found = index.gather(tiles)[k];
            if k < before.len() {
                assert(found == before[k]);
                let on = map.spec_world_to_tile(found.position@);
                assert(tiles.drop_last().contains(on));
                let at = choose|at: int| 0 <= at < tiles.drop_last().len() && tiles.drop_last()[at]
                    == on;
                assert(tiles[at] == on);
            } else {
                assert(found == occupants_at(map, all, tile)[k - before.len()]);
                assert(tiles[tiles.len() - 1] == tile);
            }
        }
    }
}

/// Two indexes that hold the same entries give the same entries for every
/// list of tiles.
pub proof fn lemma_same_gather(
    first: &SpatialIndex,
    second: &SpatialIndex,
    map: &GameMap,
    all: Seq<Occupant>,
    tiles: Seq<TilePos>,
)
    requires
        first.holds(map, all),
        second.holds(map, all),
    ensures
        first.gather(tiles) == second.gather(tiles),
    decreases tiles.len(),
{
    if tiles.len() > 0 {
        lemma_same_gather(first, second, map, all, tiles.drop_last());
        assert(first.bucket(tiles.last()) == occupants_at(map, all, tiles.last()));
        assert(second.bucket(tiles.last()) == occupants_at(map, all, tiles.last()));
    }
}

} // verus!
