//! The grid of tiles and the world it lies in.
//!
//! The grid is centred on the world's origin: a grid `count` cells wide, of
//! cells `size` wide, reaches from `-count * size / 2` to `count * size / 2`,
//! and the cell `index` reaches from `index * size - count * size / 2` up to,
//! and not including, the start of the next. A tile stands at the centre of
//! its cell. The width of a cell is `tile_size * tile_scale / SCALE_ONE`, and
//! is never rounded on its own.

use vstd::prelude::*;
use vstd::arithmetic::div_mod::{
    lemma_fundamental_div_mod,
    lemma_fundamental_div_mod_converse,
    lemma_mod_bound,
};
use crate::components::tiles::TileType;
use crate::math::Point2;
use crate::units::{
    floor_div,
    is_coord,
    is_scale,
    lemma_product_bound,
    COORD_MAX,
    SCALE_MAX,
    SCALE_ONE,
};

verus! {

/// The column and the row of a cell of the grid.
#[derive(Clone, Copy, Debug, PartialEq, Eq, Structural)]
pub struct TileCoordinate {
    pub x: usize,
    pub y: usize,
}

/// The point asked for lies in no cell of the grid.
#[derive(Clone, Copy, Debug, PartialEq, Eq, Structural)]
pub struct OutOfBounds {}

/// The coordinate of the centre of the cell `index`, along an axis on which
/// the grid has `count` cells, rounded down.
pub open spec fn tile_centre(index: int, tile_size: int, tile_scale: int, count: int) -> int {
    (tile_size * tile_scale * (2 * index + 1 - count)) / (2 * SCALE_ONE)
}

/// The index of the cell that holds `coordinate`, along an axis on which the
/// grid has `count` cells; below zero or not below `count` where the grid
/// does not reach.
pub open spec fn tile_index(coordinate: int, tile_size: int, tile_scale: int, count: int) -> int {
    (2 * SCALE_ONE * coordinate + count * (tile_size * tile_scale)) / (2 * (tile_size
        * tile_scale))
}

/// The cell of the grid that holds the world point `(x, y)`, or `OutOfBounds`
/// where the point lies in no cell.
pub open spec fn tile_at(
    x: int,
    y: int,
    tile_size: int,
    tile_scale: int,
    grid_width: int,
    grid_height: int,
) -> Result<TileCoordinate, OutOfBounds> {
    let col = tile_index(x, tile_size, tile_scale, grid_width);
    let row = tile_index(y, tile_size, tile_scale, grid_height);
    if 0 <= col < grid_width && 0 <= row < grid_height {
        Ok(TileCoordinate { x: col as usize, y: row as usize })
    } else {
        Err(OutOfBounds {  })
    }
}

/// Whether `tile_size` is a length above zero, in the range of lengths, and
/// `tile_scale` a scale factor above zero, in the range of scale factors.
pub open spec fn is_tile_geometry(tile_size: int, tile_scale: int) -> bool {
    0 < tile_size <= COORD_MAX && is_scale(tile_scale)
}

/// Whether the tiles have a size and a scale in range, and the centre of the
/// cell in column `col` and row `row` lies in the range of coordinates: what
/// `tile_to_world` asks for.
pub fn tile_in_range(
    col: usize,
    row: usize,
    tile_size: i64,
    tile_scale: i64,
    grid_width: usize,
    grid_height: usize,
) -> (out: bool)
    ensures
        out == {
            &&& is_tile_geometry(tile_size as int, tile_scale as int)
            &&& is_coord(
                tile_centre(col as int, tile_size as int, tile_scale as int, grid_width as int),
            )
            &&& is_coord(
                tile_centre(row as int, tile_size as int, tile_scale as int, grid_height as int),
            )
        },
{
    if 0 < tile_size && tile_size <= COORD_MAX && 0 < tile_scale && tile_scale <= SCALE_MAX {
        let x: i128 = wide_centre_along(col, tile_size, tile_scale, grid_width);
        let y: i128 = wide_centre_along(row, tile_size, tile_scale, grid_height);
        -(COORD_MAX as i128) <= x && x <= COORD_MAX as i128 && -(COORD_MAX as i128) <= y && y
            <= COORD_MAX as i128
    } else {
        false
    }
}

/// The world position of the centre of the cell in column `col` and row
/// `row`, each coordinate rounded down to a whole unit.
pub fn tile_to_world(
    col: usize,
    row: usize,
    tile_size: i64,
    tile_scale: i64,
    grid_width: usize,
    grid_height: usize,
) -> (out: Point2)
    requires
        is_tile_geometry(tile_size as int, tile_scale as int),
        is_coord(tile_centre(col as int, tile_size as int, tile_scale as int, grid_width as int)),
        is_coord(tile_centre(row as int, tile_size as int, tile_scale as int, grid_height as int)),
    ensures
        out.x == tile_centre(col as int, tile_size as int, tile_scale as int, grid_width as int),
        out.y == tile_centre(row as int, tile_size as int, tile_scale as int, grid_height as int),
{
    let x: i64 = centre_along(col, tile_size, tile_scale, grid_width);
    let y: i64 = centre_along(row, tile_size, tile_scale, grid_height);
    Point2 { x, y }
}

fn wide_centre_along(index: usize, tile_size: i64, tile_scale: i64, count: usize) -> (out: i128)
    requires
        is_tile_geometry(tile_size as int, tile_scale as int),
    ensures
        out == tile_centre(index as int, tile_size as int, tile_scale as int, count as int),
{
    proof {
        lemma_product_bound(tile_size as int, tile_scale as int, 1_000_000_000_000, 1_000_000);
        lemma_product_bound(
            tile_size * tile_scale,
            2 * index + 1 - count,
            1_000_000_000_000_000_000,
            40_000_000_000_000_000_000,
        );
    }
    let cell: i128 = (tile_size as i128) * (tile_scale as i128);
    let steps: i128 = 2 * (index as i128) + 1 - (count as i128);
    floor_div(cell * steps, 2 * (SCALE_ONE as i128))
}

fn centre_along(index: usize, tile_size: i64, tile_scale: i64, count: usize) -> (out: i64)
    requires
        is_tile_geometry(tile_size as int, tile_scale as int),
        is_coord(tile_centre(index as int, tile_size as int, tile_scale as int, count as int)),
    ensures
        out == tile_centre(index as int, tile_size as int, tile_scale as int, count as int),
{
    wide_centre_along(index, tile_size, tile_scale, count) as i64
}

fn index_along(coordinate: i64, tile_size: i64, tile_scale: i64, count: usize) -> (out: i128)
    requires
        is_tile_geometry(tile_size as int, tile_scale as int),
    ensures
        out == tile_index(coordinate as int, tile_size as int, tile_scale as int, count as int),
{
    proof {
        lemma_product_bound(tile_size as int, tile_scale as int, 1_000_000_000_000, 1_000_000);
        lemma_product_bound(
            count as int,
            tile_size * tile_scale,
            20_000_000_000_000_000_000,
            1_000_000_000_000_000_000,
        );
        assert(tile_size * tile_scale > 0) by (nonlinear_arith)
            requires
                tile_size > 0,
                tile_scale > 0,
        ;
    }
    let cell: i128 = (tile_size as i128) * (tile_scale as i128);
    let unit: i128 = 2 * (SCALE_ONE as i128);
    proof {
        lemma_product_bound(unit as int, coordinate as int, 2_000, 10_000_000_000_000_000_000);
    }
    floor_div(unit * (coordinate as i128) + (count as i128) * cell, 2 * cell)
}

/// The cell of the grid that holds the world point `(x, y)`, or
/// `OutOfBounds` where the point lies in no cell.
pub fn world_to_tile(
    x: i64,
    y: i64,
    tile_size: i64,
    tile_scale: i64,
    grid_width: usize,
    grid_height: usize,
) -> (out: Result<TileCoordinate, OutOfBounds>)
    requires
        is_tile_geometry(tile_size as int, tile_scale as int),
    ensures
        out == tile_at(
            x as int,
            y as int,
            tile_size as int,
            tile_scale as int,
            grid_width as int,
            grid_height as int,
        ),
{
    let col: i128 = index_along(x, tile_size, tile_scale, grid_width);
    let row: i128 = index_along(y, tile_size, tile_scale, grid_height);
    if col < 0 || col >= grid_width as i128 || row < 0 || row >= grid_height as i128 {
        Err(OutOfBounds {  })
    } else {
        Ok(TileCoordinate { x: col as usize, y: row as usize })
    }
}

/// A grid of tiles: how many columns and rows it has, and how large its tiles
/// are.
///
/// The grid is this crate's own, with the convention of this module and of
/// no other tile map: it is centred on the world's origin, its columns are
/// counted to the right and its rows upwards, and a tile stands at the
/// centre of its cell.
#[derive(Clone, Copy, Debug, PartialEq, Eq, Structural)]
pub struct TileMap2D {
    pub dimensions: TileCoordinate,
    pub tile_size: i64,
    pub tile_scale: i64,
}

/// What stands in a cell of the grid: a tile of some type, and the entity
/// that shows it, if there is one.
#[derive(Clone, Copy, Debug, PartialEq, Eq, Structural)]
pub struct MapTile {
    pub tile_type: TileType,
    pub entity: Option<u64>,
}

impl Default for MapTile {
    /// Air, shown by no entity.
    fn default() -> (out: MapTile)
        ensures
            out == (MapTile { tile_type: TileType::Air, entity: None }),
    {
        MapTile { tile_type: TileType::Air, entity: None }
    }
}

impl MapTile {
    /// The number of the tile's picture on the sheet of tiles.
    pub fn sprite(&self) -> (out: Option<usize>)
        ensures
            out == Some(self.tile_type.index()),
    {
        Some(self.tile_type.get_index())
    }
}

impl TileMap2D {
    /// Whether the tiles have a size and a scale that make a cell.
    pub open spec fn wf(self) -> bool {
        is_tile_geometry(self.tile_size as int, self.tile_scale as int)
    }

    /// The cell that holds the world point `(x, y)`, or `OutOfBounds`.
    pub open spec fn tile_at(self, x: int, y: int) -> Result<TileCoordinate, OutOfBounds> {
        tile_at(
            x,
            y,
            self.tile_size as int,
            self.tile_scale as int,
            self.dimensions.x as int,
            self.dimensions.y as int,
        )
    }

    /// The centre of the cell `map_coords`.
    pub open spec fn centre_of(self, map_coords: TileCoordinate) -> (int, int) {
        (
            tile_centre(
                map_coords.x as int,
                self.tile_size as int,
                self.tile_scale as int,
                self.dimensions.x as int,
            ),
            tile_centre(
                map_coords.y as int,
                self.tile_size as int,
                self.tile_scale as int,
                self.dimensions.y as int,
            ),
        )
    }

    /// The cell counted from the top of the grid for the cell counted from
    /// its bottom, and the other way round: the row `y` becomes the row
    /// `dimensions.y - y`. By this crate's convention the rows are counted
    /// from the bottom; this is the way to a count from the top.
    pub fn index_to_tile(&self, map_coords: TileCoordinate) -> (out: TileCoordinate)
        requires
            map_coords.y <= self.dimensions.y,
        ensures
            out.x == map_coords.x,
            out.y == self.dimensions.y - map_coords.y,
    {
        TileCoordinate { x: map_coords.x, y: self.dimensions.y - map_coords.y }
    }

    /// The world position of the centre of the cell `map_coords`, in this
    /// crate's grid: what `tile_to_world` gives for the grid's size and
    /// tiles.
    pub fn to_world_coords(&self, map_coords: &TileCoordinate) -> (out: Point2)
        requires
            self.wf(),
            is_coord(self.centre_of(*map_coords).0),
            is_coord(self.centre_of(*map_coords).1),
        ensures
            out.x == self.centre_of(*map_coords).0,
            out.y == self.centre_of(*map_coords).1,
    {
        tile_to_world(
            map_coords.x,
            map_coords.y,
            self.tile_size,
            self.tile_scale,
            self.dimensions.x,
            self.dimensions.y,
        )
    }

    /// The cell of this crate's grid that holds the world point
    /// `world_coords`, which lies in the grid: what `world_to_tile` gives
    /// for the grid's size and tiles.
    pub fn to_tile_coords(&self, world_coords: &Point2) -> (out: TileCoordinate)
        requires
            self.wf(),
            self.tile_at(world_coords.x as int, world_coords.y as int).is_ok(),
        ensures
            Ok::<TileCoordinate, OutOfBounds>(out) == self.tile_at(
                world_coords.x as int,
                world_coords.y as int,
            ),
    {
        match world_to_tile(
            world_coords.x,
            world_coords.y,
            self.tile_size,
            self.tile_scale,
            self.dimensions.x,
            self.dimensions.y,
        ) {
            Ok(tile) => tile,
            Err(_) => unreached(),
        }
    }
}

/// The cell `index` holds just the coordinates from its start up to, and not
/// including, the start of the next cell.
pub proof fn lemma_tile_span(
    coordinate: int,
    index: int,
    tile_size: int,
    tile_scale: int,
    count: int,
)
    requires
        tile_size > 0,
        tile_scale > 0,
    ensures
        tile_index(coordinate, tile_size, tile_scale, count) == index <==> {
            &&& tile_size * tile_scale * (2 * index - count) <= 2 * SCALE_ONE * coordinate
            &&& 2 * SCALE_ONE * coordinate < tile_size * tile_scale * (2 * index + 2 - count)
        },
{
    let cell = tile_size * tile_scale;
    let unit = 2 * SCALE_ONE;
    assert(cell > 0) by (nonlinear_arith)
        requires
            cell == tile_size * tile_scale,
            tile_size > 0,
            tile_scale > 0,
    ;
    let n = unit * coordinate + count * cell;
    let q = n / (2 * cell);
    let r = n % (2 * cell);
    lemma_fundamental_div_mod(n, 2 * cell);
    lemma_mod_bound(n, 2 * cell);
    let low = cell * (2 * index - count);
    let high = cell * (2 * index + 2 - count);
    assert(low + count * cell == index * (2 * cell)) by (nonlinear_arith)
        requires
            low == cell * (2 * index - count),
    ;
    assert(high == low + 2 * cell) by (nonlinear_arith)
        requires
            low == cell * (2 * index - count),
            high == cell * (2 * index + 2 - count),
    ;
    if low <= unit * coordinate < high {
        lemma_fundamental_div_mod_converse(n, 2 * cell, index, n - index * (2 * cell));
    }
    if q == index {
        assert((2 * cell) * q == index * (2 * cell)) by (nonlinear_arith)
            requires
                q == index,
        ;
    }
}

/// The centre of a cell, rounded down, lies in that cell just where the
/// rounding takes away no more than half the width of a cell.
pub proof fn lemma_centre_in_cell(index: int, tile_size: int, tile_scale: int, count: int)
    requires
        tile_size > 0,
        tile_scale > 0,
    ensures
        tile_index(
            tile_centre(index, tile_size, tile_scale, count),
            tile_size,
            tile_scale,
            count,
        ) == index <==> (tile_size * tile_scale * (2 * index + 1 - count)) % (2 * SCALE_ONE)
            <= tile_size * tile_scale,
{
    let cell = tile_size * tile_scale;
    let unit = 2 * SCALE_ONE;
    let n = cell * (2 * index + 1 - count);
    let centre = n / unit;
    let r = n % unit;
    lemma_fundamental_div_mod(n, unit);
    lemma_mod_bound(n, unit);
    lemma_tile_span(centre, index, tile_size, tile_scale, count);
    assert(cell > 0) by (nonlinear_arith)
        requires
            cell == tile_size * tile_scale,
            tile_size > 0,
            tile_scale > 0,
    ;
    assert(cell * (2 * index - count) == n - cell) by (nonlinear_arith)
        requires
            n == cell * (2 * index + 1 - count),
    ;
    assert(cell * (2 * index + 2 - count) == n + cell) by (nonlinear_arith)
        requires
            n == cell * (2 * index + 1 - count),
    ;
}

/// From a tile of the grid to the world and back is the identity just where
/// the rounding of the centre takes away no more than half the width of a
/// cell, along both axes.
pub proof fn lemma_grid_round_trip(
    tile: TileCoordinate,
    tile_size: int,
    tile_scale: int,
    grid_width: usize,
    grid_height: usize,
)
    requires
        tile_size > 0,
        tile_scale > 0,
        tile.x < grid_width,
        tile.y < grid_height,
    ensures
        tile_at(
            tile_centre(tile.x as int, tile_size, tile_scale, grid_width as int),
            tile_centre(tile.y as int, tile_size, tile_scale, grid_height as int),
            tile_size,
            tile_scale,
            grid_width as int,
            grid_height as int,
        ) == Ok::<TileCoordinate, OutOfBounds>(tile) <==> {
            &&& (tile_size * tile_scale * (2 * tile.x + 1 - grid_width)) % (2 * SCALE_ONE)
                <= tile_size * tile_scale
            &&& (tile_size * tile_scale * (2 * tile.y + 1 - grid_height)) % (2 * SCALE_ONE)
                <= tile_size * tile_scale
        },
{
    lemma_centre_in_cell(tile.x as int, tile_size, tile_scale, grid_width as int);
    lemma_centre_in_cell(tile.y as int, tile_size, tile_scale, grid_height as int);
}

/// In a grid whose cells are at least two units wide, from a tile of the
/// grid to the world and back is the identity.
pub proof fn lemma_grid_round_trip_of_wide_cells(
    tile: TileCoordinate,
    tile_size: int,
    tile_scale: int,
    grid_width: usize,
    grid_height: usize,
)
    requires
        tile_size > 0,
        tile_scale > 0,
        tile_size * tile_scale >= 2 * SCALE_ONE,
        tile.x < grid_width,
        tile.y < grid_height,
    ensures
        tile_at(
            tile_centre(tile.x as int, tile_size, tile_scale, grid_width as int),
            tile_centre(tile.y as int, tile_size, tile_scale, grid_height as int),
            tile_size,
            tile_scale,
            grid_width as int,
            grid_height as int,
        ) == Ok::<TileCoordinate, OutOfBounds>(tile),
{
    let cell = tile_size * tile_scale;
    lemma_mod_bound(cell * (2 * tile.x + 1 - grid_width), 2 * SCALE_ONE);
    lemma_mod_bound(cell * (2 * tile.y + 1 - grid_height), 2 * SCALE_ONE);
    lemma_grid_round_trip(tile, tile_size, tile_scale, grid_width, grid_height);
}

} // verus!
