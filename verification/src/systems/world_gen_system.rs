//! The terrain: where its tiles stand, what they are made of, and which of
//! them lies under a point of the world.
//!
//! The tiles are kept column by column, each column from the bottom up: the
//! tile in column `x` and row `y` is number `x * world_height + y`.

use vstd::prelude::*;
use vstd::arithmetic::div_mod::lemma_fundamental_div_mod_converse;
use crate::components::tiles::{
    create_air,
    create_dirt,
    create_grassy_dirt,
    Tile,
    TileType,
    TILE_SCALE,
};
use crate::math::Point2;
use crate::tile_map::{
    lemma_grid_round_trip_of_wide_cells,
    tile_at,
    tile_centre,
    tile_to_world,
    world_to_tile,
    OutOfBounds,
    TileCoordinate,
};
use crate::units::{is_coord, lemma_product_bound, lemma_quotient_within, PIXEL, SCALE_ONE};

verus! {

/// The width and the height of the picture of a tile: 64 pixels.
pub const TILE_SIZE: i64 = 64_000_000;

/// The most columns and the most rows of a world whose every tile stands in
/// the range of coordinates.
pub const MAX_WORLD_SIDE: usize = 125_000;

/// Lays out the terrain of a world `world_width` tiles wide and
/// `world_height` tiles high.
#[derive(Clone, Copy, Debug, PartialEq, Eq, Structural)]
pub struct WorldGenSystem {
    pub world_width: usize,
    pub world_height: usize,
}

/// What the tile in row `y` is made of, in a column whose top tile is in row
/// `top_tile`: dirt below the top, grass on it, air above.
pub open spec fn tile_type_at(y: int, top_tile: int) -> TileType {
    if y < top_tile {
        TileType::Dirt
    } else if y == top_tile {
        TileType::GrassyDirt
    } else {
        TileType::Air
    }
}

proof fn lemma_cell()
    ensures
        TILE_SIZE * TILE_SCALE == 16_000_000_000,
        TILE_SIZE == 64 * PIXEL,
{
    assert(TILE_SIZE * TILE_SCALE == 16_000_000_000) by (nonlinear_arith)
        requires
            TILE_SIZE == 64_000_000,
            TILE_SCALE == 250,
    ;
}

/// The centre of every tile of a world of no more than `MAX_WORLD_SIDE`
/// tiles along an axis lies in the range of coordinates.
pub proof fn lemma_centre_in_range(index: int, count: int)
    requires
        0 <= index < count <= MAX_WORLD_SIDE,
    ensures
        is_coord(tile_centre(index, TILE_SIZE as int, TILE_SCALE as int, count)),
{
    lemma_cell();
    lemma_product_bound(TILE_SIZE * TILE_SCALE, 2 * index + 1 - count, 16_000_000_000, 125_000);
    lemma_quotient_within(
        TILE_SIZE * TILE_SCALE * (2 * index + 1 - count),
        2 * SCALE_ONE,
        1_000_000_000_000,
    );
}

impl WorldGenSystem {
    /// Whether the world has no more than `MAX_WORLD_SIDE` columns and rows,
    /// and its tiles can be counted.
    pub open spec fn in_range(self) -> bool {
        &&& self.world_width <= MAX_WORLD_SIDE
        &&& self.world_height <= MAX_WORLD_SIDE
        &&& self.world_width * self.world_height <= usize::MAX
    }

    /// Whether the world has no more than `MAX_WORLD_SIDE` columns and rows,
    /// and its tiles can be counted.
    pub fn is_in_range(&self) -> (out: bool)
        ensures
            out == self.in_range(),
    {
        if self.world_width <= MAX_WORLD_SIDE && self.world_height <= MAX_WORLD_SIDE {
            proof {
                lemma_product_bound(
                    self.world_width as int,
                    self.world_height as int,
                    125_000,
                    125_000,
                );
            }
            let count: u64 = (self.world_width as u64) * (self.world_height as u64);
            count <= usize::MAX as u64
        } else {
            false
        }
    }

    /// The world position of the tile in column `x` and row `y`.
    pub open spec fn tile_position(self, x: int, y: int) -> Point2 {
        Point2 {
            x: tile_centre(x, TILE_SIZE as int, TILE_SCALE as int, self.world_width as int) as i64,
            y: tile_centre(y, TILE_SIZE as int, TILE_SCALE as int, self.world_height as int) as i64,
        }
    }

    /// The number of the tile under the world point `(x, y)`, or
    /// `OutOfBounds` where no tile lies there.
    pub open spec fn tile_number_at(self, x: int, y: int) -> Result<usize, OutOfBounds> {
        match tile_at(
            x,
            y,
            TILE_SIZE as int,
            TILE_SCALE as int,
            self.world_width as int,
            self.world_height as int,
        ) {
            Ok(tile) => Ok((tile.x * self.world_height + tile.y) as usize),
            Err(e) => Err(e),
        }
    }

    /// The world position of the tile in column `x` and row `y`: the centre
    /// of its cell.
    pub fn to_world_coords(&self, x: usize, y: usize) -> (out: (i64, i64))
        requires
            is_coord(tile_centre(x as int, TILE_SIZE as int, TILE_SCALE as int, self.world_width as int)),
            is_coord(tile_centre(y as int, TILE_SIZE as int, TILE_SCALE as int, self.world_height as int)),
        ensures
            out.0 == tile_centre(x as int, TILE_SIZE as int, TILE_SCALE as int, self.world_width as int),
            out.1 == tile_centre(y as int, TILE_SIZE as int, TILE_SCALE as int, self.world_height as int),
    {
        let centre = tile_to_world(
            x,
            y,
            TILE_SIZE,
            TILE_SCALE,
            self.world_width,
            self.world_height,
        );
        (centre.x, centre.y)
    }

    /// The number of the tile under the world point `(x, y)`, counted
    /// column by column from the bottom left, or `OutOfBounds` where no tile
    /// lies there.
    pub fn to_tile_coords(&self, x: i64, y: i64) -> (out: Result<usize, OutOfBounds>)
        requires
            self.world_width * self.world_height <= usize::MAX,
        ensures
            out == self.tile_number_at(x as int, y as int),
            out matches Ok(number) ==> number < self.world_width * self.world_height,
    {
        match world_to_tile(x, y, TILE_SIZE, TILE_SCALE, self.world_width, self.world_height) {
            Ok(tile) => {
                proof {
                    lemma_number_in_count(
                        tile.x as int,
                        tile.y as int,
                        self.world_width as int,
                        self.world_height as int,
                    );
                }
                Ok(tile.x * self.world_height + tile.y)
            },
            Err(e) => Err(e),
        }
    }

    /// The tiles of the world, column by column, each column from the bottom
    /// up. `heights` gives for each column the row of its top tile: below it
    /// lies dirt, on it grass, above it air.
    pub fn run(&self, heights: &Vec<usize>) -> (out: Vec<Tile>)
        requires
            self.in_range(),
            heights.len() == self.world_width,
        ensures
            out.len() == self.world_width * self.world_height,
            forall|x: int, y: int|
                0 <= x < self.world_width && 0 <= y < self.world_height ==> (#[trigger] out[x
                    * self.world_height + y]).is_built(
                    tile_type_at(y, heights[x] as int),
                    self.tile_position(x, y),
                ),
    {
        let width = self.world_width;
        let height = self.world_height;
        let mut tile_map: Vec<Tile> = Vec::new();
        let mut x: usize = 0;
        while x < width
            invariant
                self.in_range(),
                width == self.world_width,
                height == self.world_height,
                heights.len() == width,
                x <= width,
                tile_map.len() == x * height,
                forall|k: int|
                    0 <= k < tile_map.len() ==> (#[trigger] tile_map[k]).is_built(
                        tile_type_at(k % (height as int), heights[k / (height as int)] as int),
                        self.tile_position(k / (height as int), k % (height as int)),
                    ),
            decreases width - x,
        {
            let top_tile: usize = heights[x];
            let mut y: usize = 0;
            while y < height
                invariant
                    self.in_range(),
                    width == self.world_width,
                    height == self.world_height,
                    heights.len() == width,
                    x < width,
                    top_tile == heights[x as int],
                    y <= height,
                    tile_map.len() == x * height + y,
                    forall|k: int|
                        0 <= k < tile_map.len() ==> (#[trigger] tile_map[k]).is_built(
                            tile_type_at(k % (height as int), heights[k / (height as int)] as int),
                            self.tile_position(k / (height as int), k % (height as int)),
                        ),
                decreases height - y,
            {
                proof {
                    lemma_centre_in_range(x as int, width as int);
                    lemma_centre_in_range(y as int, height as int);
                    lemma_fundamental_div_mod_converse(
                        x * height + y,
                        height as int,
                        x as int,
                        y as int,
                    );
                    assert(x * height + y == x as int * height as int + y);
                    assert(x as int * height as int == height as int * x as int)
                        by (nonlinear_arith);
                }
                let (x_pos, y_pos) = self.to_world_coords(x, y);
                let position = Point2 { x: x_pos, y: y_pos };
                let tile = if y < top_tile {
                    create_dirt(position)
                } else if y == top_tile {
                    create_grassy_dirt(position)
                } else {
                    create_air(position)
                };
                tile_map.push(tile);
                y = y + 1;
            }
            proof {
                assert(x * height + height == (x + 1) * height) by (nonlinear_arith);
            }
            x = x + 1;
        }
        proof {
            assert forall|x: int, y: int|
                0 <= x < self.world_width && 0 <= y < self.world_height implies (
            #[trigger] tile_map[x * self.world_height + y]).is_built(
                tile_type_at(y, heights[x] as int),
                self.tile_position(x, y),
            ) by {
                lemma_number_in_count(x, y, width as int, height as int);
                lemma_fundamental_div_mod_converse(x * height + y, height as int, x, y);
            }
        }
        tile_map
    }
}

/// The tile that stands at a point of the world is found under that point:
/// for every tile of the world, the number of the tile under its position is
/// its own number.
pub proof fn lemma_tile_found_at_its_position(world: WorldGenSystem, x: usize, y: usize)
    requires
        world.in_range(),
        x < world.world_width,
        y < world.world_height,
    ensures
        world.tile_number_at(
            world.tile_position(x as int, y as int).x as int,
            world.tile_position(x as int, y as int).y as int,
        ) == Ok::<usize, OutOfBounds>((x * world.world_height + y) as usize),
{
    lemma_cell();
    lemma_centre_in_range(x as int, world.world_width as int);
    lemma_centre_in_range(y as int, world.world_height as int);
    lemma_grid_round_trip_of_wide_cells(
        TileCoordinate { x, y },
        TILE_SIZE as int,
        TILE_SCALE as int,
        world.world_width,
        world.world_height,
    );
}

proof fn lemma_number_in_count(x: int, y: int, width: int, height: int)
    by (nonlinear_arith)
    requires
        0 <= x < width,
        0 <= y < height,
    ensures
        0 <= x * height + y < width * height,
{
}

} // verus!
