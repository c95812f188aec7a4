//! The view of a tile world: where a tile stands in the world, where a point
//! of the world is drawn on the screen, which point of the world lies under
//! the mouse, and which entities the camera sees.
//!
//! All of it is computed in whole numbers. Positions and lengths count world
//! units, of which a pixel has a million, and scale factors count
//! thousandths (`units`). The maps between the world, the camera and the
//! screen are 3×3 matrices of whole numbers that act on homogeneous
//! coordinates (`math`, `utils::camera_utils`), so a map that divides by the
//! camera's scale is held exactly, and a result is rounded once, downwards,
//! when it is handed out as a point.
//!
//! - `tile_map`: the grid of tiles, both ways between a tile and the world.
//! - `components`: transforms, with the camera's pan and zoom; rectangles,
//!   sprites and tiles.
//! - `resources`: which entity is the camera.
//! - `systems`: the passes over the entities: drawing, culling, the terrain,
//!   the mouse.
//! - `state`: the state of a game and what each event does to it.
//!
//! An entity is known here by a number, and a pass takes the entities as
//! rows of a number and a transform; a set of numbers says which entities
//! are culled.

pub mod components;
pub mod math;
pub mod resources;
pub mod state;
pub mod systems;
pub mod tile_map;
pub mod units;
pub mod utils;
