//! The state of the game between two events, and what each event does to
//! it.

use vstd::prelude::*;
use crate::components::tiles::{create_air, Tile, TileType};
use crate::components::{at_least_floor, Transform, ZOOM_FLOOR};
use crate::math::{Point2, Vector2};
use crate::systems::input_system::MouseButton;
use crate::systems::render_system::{world_x, world_y, RenderSystem, ScreenDimensions};
use crate::systems::world_gen_system::{tile_type_at, WorldGenSystem};
use crate::tile_map::OutOfBounds;
use crate::units::{floor_div, is_coord, SCALE_ONE};

verus! {

/// The number of columns and of rows of the world that a new game lays out.
pub const WORLD_SIDE: usize = 128;

/// Where the mouse was when it last dragged the camera, and whether its
/// middle button is held down.
#[derive(Clone, Copy, Debug, PartialEq, Eq, Structural)]
pub struct InputHandler {
    pub pos_x: i64,
    pub pos_y: i64,
    pub mouse_down: bool,
}

/// The camera, the size of the screen, the mouse, and the terrain.
pub struct State {
    pub camera: Transform,
    pub screen_size: ScreenDimensions,
    pub input_handler: InputHandler,
    pub world_gen_system: WorldGenSystem,
    pub tile_map: Vec<Tile>,
}

impl State {
    /// Whether the camera is in range and the terrain is the size of the
    /// world.
    pub open spec fn wf(self) -> bool {
        &&& self.camera.in_range()
        &&& self.world_gen_system.in_range()
        &&& self.tile_map@.len() == self.world_gen_system.world_width
            * self.world_gen_system.world_height
    }

    /// Whether the camera is in range and the terrain is the size of the
    /// world.
    pub fn is_wf(&self) -> (out: bool)
        ensures
            out == self.wf(),
    {
        if self.camera.is_in_range() && self.world_gen_system.is_in_range() {
            self.tile_map.len() == self.world_gen_system.world_width
                * self.world_gen_system.world_height
        } else {
            false
        }
    }

    /// The number of the tile that a click at `(x, y)` on a screen of the
    /// size `drawable_size` digs away, if it digs any: the right button digs
    /// the tile under the click, unless it is air.
    pub open spec fn dug(self, button: MouseButton, x: int, y: int, drawable_size: Point2) -> Option<
        usize,
    > {
        match self.world_gen_system.tile_number_at(
            world_x(self.camera, drawable_size, x),
            world_y(self.camera, drawable_size, y),
        ) {
            Ok(number) => if button == MouseButton::Right && number < self.tile_map@.len()
                && self.tile_map@[number as int].tile_type.is_solid() {
                Some(number)
            } else {
                None
            },
            Err(_) => None,
        }
    }

    /// Whether the mouse, moved to `(x, y)`, drags the camera: it does during
    /// a drag, unless it is where it last dragged.
    pub open spec fn drags(self, x: i64, y: i64) -> bool {
        self.input_handler.mouse_down && !(self.input_handler.pos_x == x
            && self.input_handler.pos_y == y)
    }

    /// Whether the mouse can move to `(x, y)` by `(xrel, yrel)`: where it
    /// drags the camera, the camera's new position must be one that can be
    /// held.
    pub open spec fn motion_fits(self, x: i64, y: i64, xrel: i64, yrel: i64) -> bool {
        self.drags(x, y) ==> self.camera.pan_fits(-xrel, yrel as int)
    }

    /// Whether the wheel can turn by `y`: the camera's new scale must be one
    /// that can be held.
    pub open spec fn wheel_fits(self, y: i64) -> bool {
        self.camera.zoom_fits(-((y as int) / 10))
    }

    /// Whether the mouse can move to `(x, y)` by `(xrel, yrel)`: what
    /// `mouse_motion_event` asks for.
    pub fn can_move(&self, x: i64, y: i64, xrel: i64, yrel: i64) -> (out: bool)
        ensures
            out == self.motion_fits(x, y, xrel, yrel),
    {
        if self.input_handler.mouse_down && !(self.input_handler.pos_x == x
            && self.input_handler.pos_y == y) {
            self.camera.can_pan_wide(-(xrel as i128), yrel as i128)
        } else {
            true
        }
    }

    /// Whether the wheel can turn by `y`: what `mouse_wheel_event` asks for.
    pub fn can_wheel(&self, y: i64) -> (out: bool)
        ensures
            out == self.wheel_fits(y),
    {
        let delta: i128 = floor_div(y as i128, 10);
        self.camera.can_zoom((-delta) as i64)
    }

    /// A new game: the camera at the origin with the scale one, no screen
    /// yet, the mouse at rest, and a world of `WORLD_SIDE` by `WORLD_SIDE`
    /// tiles whose columns are as high as `heights` says.
    pub fn new(heights: &Vec<usize>) -> (out: State)
        requires
            heights.len() == WORLD_SIDE,
        ensures
            out.wf(),
            out.camera == (Transform {
                position: Point2 { x: 0, y: 0 },
                scale: Vector2 { x: SCALE_ONE, y: SCALE_ONE },
            }),
            out.screen_size == (ScreenDimensions { x: 0, y: 0 }),
            out.input_handler == (InputHandler { pos_x: 0, pos_y: 0, mouse_down: false }),
            out.world_gen_system == (WorldGenSystem {
                world_width: WORLD_SIDE,
                world_height: WORLD_SIDE,
            }),
            forall|x: int, y: int|
                0 <= x < WORLD_SIDE && 0 <= y < WORLD_SIDE ==> (#[trigger] out.tile_map@[x
                    * WORLD_SIDE + y]).is_built(
                    tile_type_at(y, heights[x] as int),
                    out.world_gen_system.tile_position(x, y),
                ),
    {
        let world_gen_system = WorldGenSystem { world_width: WORLD_SIDE, world_height: WORLD_SIDE };
        let tile_map = world_gen_system.run(heights);
        State {
            camera: Transform {
                position: Point2 { x: 0, y: 0 },
                scale: Vector2 { x: SCALE_ONE, y: SCALE_ONE },
            },
            screen_size: ScreenDimensions { x: 0, y: 0 },
            input_handler: InputHandler { pos_x: 0, pos_y: 0, mouse_down: false },
            world_gen_system,
            tile_map,
        }
    }

    /// A button of the mouse went down: the middle button starts a drag.
    pub fn mouse_button_down_event(&mut self, button: MouseButton, x: i64, y: i64)
        ensures
            old(self).wf() ==> final(self).wf(),
            final(self).input_handler == (InputHandler {
                pos_x: old(self).input_handler.pos_x,
                pos_y: old(self).input_handler.pos_y,
                mouse_down: button == MouseButton::Middle || old(self).input_handler.mouse_down,
            }),
            final(self).camera == old(self).camera,
            final(self).screen_size == old(self).screen_size,
            final(self).world_gen_system == old(self).world_gen_system,
            final(self).tile_map == old(self).tile_map,
    {
        if button == MouseButton::Middle {
            self.input_handler.mouse_down = true;
        }
    }

    /// A button of the mouse went up at `(x, y)` on a screen of the size
    /// `drawable_size`: the right button digs away the tile under the
    /// mouse, which becomes air, and the middle button ends a drag. A click
    /// beside the terrain digs nothing. Returns the number of the tile dug
    /// away.
    pub fn mouse_button_up_event(
        &mut self,
        button: MouseButton,
        x: i64,
        y: i64,
        drawable_size: Point2,
    ) -> (out: Option<usize>)
        requires
            old(self).wf(),
            drawable_size.in_range(),
            is_coord(x as int),
            is_coord(y as int),
        ensures
            final(self).wf(),
            out == old(self).dug(button, x as int, y as int, drawable_size),
            final(self).tile_map@.len() == old(self).tile_map@.len(),
            forall|i: int|
                0 <= i < old(self).tile_map@.len() && out != Some(i as usize)
                    ==> final(self).tile_map@[i] == old(self).tile_map@[i],
            out matches Some(number) ==> final(self).tile_map@[number as int].is_built(
                TileType::Air,
                old(self).tile_map@[number as int].transform.position,
            ),
            final(self).input_handler == (InputHandler {
                pos_x: old(self).input_handler.pos_x,
                pos_y: old(self).input_handler.pos_y,
                mouse_down: button != MouseButton::Middle && old(self).input_handler.mouse_down,
            }),
            final(self).camera == old(self).camera,
            final(self).screen_size == old(self).screen_size,
            final(self).world_gen_system == old(self).world_gen_system,
    {
        let point = RenderSystem::screen_to_world_coords(
            drawable_size,
            &self.camera,
            Point2 { x, y },
        );
        let found: Result<usize, OutOfBounds> = self.world_gen_system.to_tile_coords(
            point.x,
            point.y,
        );
        let mut dug: Option<usize> = None;
        if let Ok(indx) = found {
            if indx < self.tile_map.len() {
                if button == MouseButton::Right {
                    let tile: Tile = self.tile_map[indx];
                    if tile.tile_type != TileType::Air {
                        self.tile_map.set(indx, create_air(tile.transform.position));
                        dug = Some(indx);
                    }
                }
            }
        }
        if button == MouseButton::Middle {
            self.input_handler.mouse_down = false;
        }
        dug
    }

    /// The mouse moved to `(x, y)`, by `(xrel, yrel)`: during a drag, and
    /// unless the mouse is where it last dragged, the place is remembered
    /// and the camera pans by `(-xrel, yrel)`.
    pub fn mouse_motion_event(&mut self, x: i64, y: i64, xrel: i64, yrel: i64)
        requires
            old(self).motion_fits(x, y, xrel, yrel),
        ensures
            final(self).input_handler == if old(self).drags(x, y) {
                InputHandler { pos_x: x, pos_y: y, mouse_down: true }
            } else {
                old(self).input_handler
            },
            final(self).camera == if old(self).drags(x, y) {
                old(self).camera.panned(-xrel, yrel as int)
            } else {
                old(self).camera
            },
            final(self).screen_size == old(self).screen_size,
            final(self).world_gen_system == old(self).world_gen_system,
            final(self).tile_map == old(self).tile_map,
    {
        if self.input_handler.mouse_down {
            if !(self.input_handler.pos_x == x && self.input_handler.pos_y == y) {
                self.input_handler.pos_x = x;
                self.input_handler.pos_y = y;
                self.camera.pan_wide(-(xrel as i128), yrel as i128);
            }
        }
    }

    /// The wheel turned by `y`, in thousandths of a notch: a tenth of `y`,
    /// rounded down, is taken from the camera's scale, and a scale that
    /// would fall below the floor of zooming becomes the floor, each axis on
    /// its own. Where the wheel was, `x`, changes nothing.
    pub fn mouse_wheel_event(&mut self, x: i64, y: i64)
        requires
            old(self).wheel_fits(y),
        ensures
            final(self).camera == old(self).camera.zoomed(-((y as int) / 10)),
            final(self).camera.scale.x == at_least_floor(
                old(self).camera.scale.x - (y as int) / 10,
            ),
            final(self).camera.scale.y == at_least_floor(
                old(self).camera.scale.y - (y as int) / 10,
            ),
            final(self).camera.scale.x >= ZOOM_FLOOR,
            final(self).camera.scale.y >= ZOOM_FLOOR,
            final(self).camera.position == old(self).camera.position,
            final(self).input_handler == old(self).input_handler,
            final(self).screen_size == old(self).screen_size,
            final(self).world_gen_system == old(self).world_gen_system,
            final(self).tile_map == old(self).tile_map,
    {
        let delta: i128 = floor_div(y as i128, 10);
        self.camera.zoom((-delta) as i64);
    }

    /// The screen changed its size.
    pub fn resize_event(&mut self, width: i64, height: i64)
        ensures
            old(self).wf() ==> final(self).wf(),
            final(self).screen_size == (ScreenDimensions { x: width, y: height }),
            final(self).camera == old(self).camera,
            final(self).input_handler == old(self).input_handler,
            final(self).world_gen_system == old(self).world_gen_system,
            final(self).tile_map == old(self).tile_map,
    {
        self.screen_size.x = width;
        self.screen_size.y = height;
    }
}

} // verus!
