//! The tiles of the terrain.

use vstd::prelude::*;
use crate::components::Transform;
use crate::math::{Point2, Vector2};

verus! {

/// The scale at which a tile is drawn: a quarter.
pub const TILE_SCALE: i64 = 250;

/// What a tile is made of.
#[derive(Clone, Copy, Debug, PartialEq, Eq, Structural)]
pub enum TileType {
    Air,
    Dirt,
    GrassyDirt,
}

/// Where the picture of a tile starts on the sheet of tiles, in pixels of
/// the sheet.
#[derive(Clone, Copy, Debug, PartialEq, Eq, Structural)]
pub struct TileSpritesheet {
    pub x: u32,
    pub y: u32,
}

/// What a tile entity is built from.
#[derive(Clone, Copy, Debug)]
pub struct Tile {
    pub transform: Transform,
    pub tile_type: TileType,
    pub name: &'static str,
    pub spritesheet: TileSpritesheet,
}

impl TileType {
    /// Whether a tile of this type can be dug away: air cannot.
    pub open spec fn is_solid(self) -> bool {
        self != TileType::Air
    }

    /// The number of the type's picture on the sheet of tiles, whose
    /// pictures are 64 pixels wide: dirt first, grass second, air third.
    pub open spec fn index(self) -> usize {
        match self {
            TileType::Dirt => 0,
            TileType::GrassyDirt => 1,
            TileType::Air => 2,
        }
    }

    /// The number of the type's picture on the sheet of tiles.
    pub fn get_index(&self) -> (out: usize)
        ensures
            out == self.index(),
    {
        match self {
            TileType::Dirt => 0,
            TileType::GrassyDirt => 1,
            TileType::Air => 2,
        }
    }
}

impl Tile {
    /// Whether the tile is a tile of the type `tile_type` at `position`, as
    /// `create_air`, `create_dirt` and `create_grassy_dirt` build them.
    pub open spec fn is_built(self, tile_type: TileType, position: Point2) -> bool {
        &&& self.transform.position == position
        &&& self.transform.scale == (Vector2 { x: TILE_SCALE, y: TILE_SCALE })
        &&& self.tile_type == tile_type
        &&& self.name@ == match tile_type {
            TileType::Air => "Air"@,
            TileType::Dirt => "Dirt"@,
            TileType::GrassyDirt => "Grassy Dirt"@,
        }
        &&& self.spritesheet.y == 0
        &&& self.spritesheet.x == 64 * tile_type.index()
    }
}

/// A tile of air at `position`: the third picture of the sheet.
pub fn create_air(position: Point2) -> (out: Tile)
    ensures
        out.is_built(TileType::Air, position),
{
    Tile {
        transform: Transform { position, scale: Vector2 { x: TILE_SCALE, y: TILE_SCALE } },
        tile_type: TileType::Air,
        name: "Air",
        spritesheet: TileSpritesheet { x: 128, y: 0 },
    }
}

/// A tile of dirt at `position`: the first picture of the sheet.
pub fn create_dirt(position: Point2) -> (out: Tile)
    ensures
        out.is_built(TileType::Dirt, position),
{
    Tile {
        transform: Transform { position, scale: Vector2 { x: TILE_SCALE, y: TILE_SCALE } },
        tile_type: TileType::Dirt,
        name: "Dirt",
        spritesheet: TileSpritesheet { x: 0, y: 0 },
    }
}

/// A tile of dirt with grass on it at `position`: the second picture of the
/// sheet.
pub fn create_grassy_dirt(position: Point2) -> (out: Tile)
    ensures
        out.is_built(TileType::GrassyDirt, position),
{
    Tile {
        transform: Transform { position, scale: Vector2 { x: TILE_SCALE, y: TILE_SCALE } },
        tile_type: TileType::GrassyDirt,
        name: "Grassy Dirt",
        spritesheet: TileSpritesheet { x: 64, y: 0 },
    }
}

} // verus!
