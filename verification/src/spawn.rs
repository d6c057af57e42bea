//! Where on a module a player may be put back into play.

use vstd::prelude::*;
use vstd::seq_lib::group_to_multiset_ensures;
use crate::grid::{module_tiles, GridCoord, Module, Tile, GRID_HEIGHT, GRID_WIDTH};
use crate::random::shuffle;

verus! {

/// A player may spawn on the tile in column `col`, row `row`: the tile is
/// solid and the two tiles above it are air.
pub open spec fn spawnable(tiles: Seq<Seq<Tile>>, col: int, row: int) -> bool {
    &&& 0 <= col < GRID_WIDTH
    &&& 0 <= row < GRID_HEIGHT - 2
    &&& tiles[row][col] is Solid
    &&& tiles[row + 1][col] == Tile::Air
    &&& tiles[row + 2][col] == Tile::Air
}

/// Column `col` has a tile to spawn on.
pub open spec fn column_spawnable(tiles: Seq<Seq<Tile>>, col: int) -> bool {
    exists|row: int| spawnable(tiles, col, row)
}

/// The module has a tile to spawn on.
pub open spec fn has_spawn(tiles: Seq<Seq<Tile>>) -> bool {
    exists|col: int, row: int| spawnable(tiles, col, row)
}

/// `row` is the lowest row of column `col` to spawn on.
pub open spec fn lowest_spawn(tiles: Seq<Seq<Tile>>, col: int, row: int) -> bool {
    &&& spawnable(tiles, col, row)
    &&& forall|below: int| 0 <= below < row ==> !spawnable(tiles, col, below)
}

/// The lowest row of column `col` to spawn on, if the column has one.
pub fn spawn_row(module: &Module, col: GridCoord) -> (r: Option<GridCoord>)
    requires
        col < GRID_WIDTH,
    ensures
        r matches Some(row) ==> lowest_spawn(module_tiles(*module), col as int, row as int),
        r is None <==> !column_spawnable(module_tiles(*module), col as int),
{
    let ghost tiles = module_tiles(*module);
    let mut row: usize = 0;
    while row < GRID_HEIGHT - 2
        invariant
            row <= GRID_HEIGHT - 2,
            col < GRID_WIDTH,
            tiles == module_tiles(*module),
            forall|below: int| 0 <= below < row ==> !spawnable(tiles, col as int, below),
        decreases GRID_HEIGHT - row,
    {
        let ground_tile = match module[row][col] {
            Tile::Solid(_) => true,
            _ => false,
        };
        let tile_above = module[row + 1][col] == Tile::Air;
        let tile_two_above = module[row + 2][col] == Tile::Air;
        if ground_tile && tile_above && tile_two_above {
            assert(spawnable(tiles, col as int, row as int));
            return Some(row);
        }
        row += 1;
    }
    None
}

/// The first column of `columns` that has a tile to spawn on, with the
/// lowest such row, as `(column, row)`.
pub fn find_spawn_in(module: &Module, columns: &Vec<GridCoord>) -> (r: Option<
    (GridCoord, GridCoord),
>)
    requires
        forall|k: int| 0 <= k < columns@.len() ==> (#[trigger] columns@[k]) < GRID_WIDTH,
    ensures
        r matches Some(place) ==> exists|k: int|
            {
                &&& 0 <= k < columns@.len()
                &&& #[trigger] columns@[k] == place.0
                &&& lowest_spawn(module_tiles(*module), place.0 as int, place.1 as int)
                &&& forall|j: int|
                    0 <= j < k ==> !column_spawnable(
                        module_tiles(*module),
                        (#[trigger] columns@[j]) as int,
                    )
            },
        r is None <==> forall|k: int|
            0 <= k < columns@.len() ==> !column_spawnable(
                module_tiles(*module),
                (#[trigger] columns@[k]) as int,
            ),
{
    let ghost tiles = module_tiles(*module);
    let mut k: usize = 0;
    while k < columns.len()
        invariant
            k <= columns.len(),
            tiles == module_tiles(*module),
            forall|j: int| 0 <= j < columns@.len() ==> (#[trigger] columns@[j]) < GRID_WIDTH,
            forall|j: int|
                0 <= j < k ==> !column_spawnable(tiles, (#[trigger] columns@[j]) as int),
        decreases columns.len() - k,
    {
        let col = columns[k];
        match spawn_row(module, col) {
            Some(row) => {
                assert(column_spawnable(tiles, columns@[k as int] as int));
                return Some((col, row));
            },
            None => {},
        }
        k += 1;
    }
    None
}

/// A tile to spawn on, as `(column, row)`: the lowest one of a column picked
/// by chance among those that have one. There is none exactly when the
/// module has no solid tile with two tiles of air above it.
pub fn find_spawn_location(module: Module) -> (r: Option<(GridCoord, GridCoord)>)
    ensures
        r is Some <==> has_spawn(module_tiles(module)),
        r matches Some(place) ==> lowest_spawn(
            module_tiles(module),
            place.0 as int,
            place.1 as int,
        ),
{
    let ghost tiles = module_tiles(module);
    let mut columns: Vec<GridCoord> = Vec::new();
    let mut col: usize = 0;
    while col < GRID_WIDTH
        invariant
            col <= GRID_WIDTH,
            columns@.len() == col,
            forall|k: int| 0 <= k < col ==> columns@[k] == k,
        decreases GRID_WIDTH - col,
    {
        columns.push(col);
        col += 1;
    }
    let ghost ordered = columns@;
    shuffle(&mut columns);
    proof {
        broadcast use group_to_multiset_ensures;

        assert forall|k: int| 0 <= k < columns@.len() implies (#[trigger] columns@[k])
            < GRID_WIDTH by {
            let c = columns@[k];
            assert(columns@.contains(c));
            assert(ordered.to_multiset().count(c) > 0);
            assert(ordered.contains(c));
        }
        assert forall|c: usize| c < GRID_WIDTH implies #[trigger] columns@.contains(c) by {
            assert(ordered[c as int] == c);
            assert(ordered.contains(c));
            assert(columns@.to_multiset().count(c) > 0);
        }
    }
    let r = find_spawn_in(&module, &columns);
    proof {
        if r is None {
            assert forall|c: int, row: int| !spawnable(tiles, c, row) by {
                if spawnable(tiles, c, row) {
                    assert(columns@.contains(c as usize));
                    let k = choose|k: int| 0 <= k < columns@.len() && columns@[k] == c as usize;
                    assert(!column_spawnable(tiles, columns@[k] as int));
                }
            }
        }
    }
    r
}

} // verus!
