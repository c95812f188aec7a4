//! What an entity can carry: where it is, how large it is drawn, and from
//! which part of which sheet.

use vstd::prelude::*;
use crate::math::{Point2, Vector2};
use crate::units::{
    floor_div,
    is_scale,
    lemma_product_bound,
    lemma_quotient_within,
    PIXEL,
    SCALE_MAX,
    SCALE_ONE,
};

pub mod tiles;

verus! {

/// The least scale that zooming leaves a camera with: a tenth.
pub const ZOOM_FLOOR: i64 = 100;

/// A part of a sheet of sprites: the sheet's path, and the offset and the
/// size of the part, in pixels of the sheet.
#[derive(Clone, Copy, Debug)]
pub struct Sprite {
    pub spritesheet_dir: &'static str,
    pub x_offset: u32,
    pub y_offset: u32,
    pub width: u32,
    pub height: u32,
}

impl Sprite {
    /// The first 64 by 64 pixels of the sheet `DefaultSpriteSheet`.
    pub fn default() -> (out: Sprite)
        ensures
            out.spritesheet_dir@ == "DefaultSpriteSheet"@,
            out.x_offset == 0,
            out.y_offset == 0,
            out.width == 64,
            out.height == 64,
    {
        Sprite { spritesheet_dir: "DefaultSpriteSheet", x_offset: 0, y_offset: 0, width: 64, height: 64 }
    }

    /// The first 64 by 64 pixels of the sheet of tiles.
    pub fn tile() -> (out: Sprite)
        ensures
            out.spritesheet_dir@ == "/tiles_spritesheet.png"@,
            out.x_offset == 0,
            out.y_offset == 0,
            out.width == 64,
            out.height == 64,
    {
        Sprite {
            spritesheet_dir: "/tiles_spritesheet.png",
            x_offset: 0,
            y_offset: 0,
            width: 64,
            height: 64,
        }
    }

    /// The tile of dirt: the first tile of the sheet of tiles.
    pub fn dirt() -> (out: Sprite)
        ensures
            out.spritesheet_dir@ == "/tiles_spritesheet.png"@,
            out.x_offset == 0,
            out.y_offset == 0,
            out.width == 64,
            out.height == 64,
    {
        Sprite::tile()
    }

    /// The tile of grass: the second tile of the sheet of tiles.
    pub fn grass() -> (out: Sprite)
        ensures
            out.spritesheet_dir@ == "/tiles_spritesheet.png"@,
            out.x_offset == 64,
            out.y_offset == 0,
            out.width == 64,
            out.height == 64,
    {
        let dirt = Sprite::dirt();
        Sprite {
            spritesheet_dir: dirt.spritesheet_dir,
            x_offset: 64,
            y_offset: dirt.y_offset,
            width: dirt.width,
            height: dirt.height,
        }
    }
}

/// A rectangle with its sides along the axes: `x` and `y` are its corner of
/// least coordinates, `w` and `h` its width and its height.
#[derive(Clone, Copy, Debug, PartialEq, Eq, Structural)]
pub struct Rect {
    pub x: i64,
    pub y: i64,
    pub w: i64,
    pub h: i64,
}

impl Rect {
    /// Whether `(x, y)` lies in the rectangle, its border included.
    pub open spec fn holds(self, x: int, y: int) -> bool {
        &&& self.x <= x <= self.x + self.w
        &&& self.y <= y <= self.y + self.h
    }

    pub fn new(x: i64, y: i64, w: i64, h: i64) -> (out: Rect)
        ensures
            out == (Rect { x, y, w, h }),
    {
        Rect { x, y, w, h }
    }

    /// Whether `point` lies in the rectangle, its border included.
    pub fn contains(&self, point: Point2) -> (out: bool)
        ensures
            out == self.holds(point.x as int, point.y as int),
    {
        let right: i128 = self.x as i128 + self.w as i128;
        let bottom: i128 = self.y as i128 + self.h as i128;
        point.x >= self.x && point.x as i128 <= right && point.y >= self.y && point.y as i128
            <= bottom
    }
}

/// Where an entity is, and by how much it is scaled along each axis.
///
/// The transform of the camera is the state of the camera: `position` is the
/// point of the world at the centre of the screen, and `scale` is the length
/// in the world that one unit of the screen shows, in thousandths.
#[derive(Clone, Copy, Debug, PartialEq, Eq, Structural)]
pub struct Transform {
    pub position: Point2,
    pub scale: Vector2,
}

impl Transform {
    /// Whether the position lies in the range of coordinates and both scale
    /// factors are above zero and in the range of scale factors.
    pub open spec fn in_range(self) -> bool {
        &&& self.position.in_range()
        &&& is_scale(self.scale.x as int)
        &&& is_scale(self.scale.y as int)
    }

    /// Whether the position lies in the range of coordinates and both scale
    /// factors are above zero and in the range of scale factors.
    pub fn is_in_range(&self) -> (out: bool)
        ensures
            out == self.in_range(),
    {
        self.position.is_in_range() && 0 < self.scale.x && self.scale.x <= SCALE_MAX && 0
            < self.scale.y && self.scale.y <= SCALE_MAX
    }

    /// The rectangle about the position that is as large as a box of the
    /// width `w` and the height `h` after scaling: its width is `w * scale.x`
    /// and its corner lies half of that before the position, each of the
    /// four numbers rounded down.
    pub open spec fn scaled_box(self, w: int, h: int) -> Rect {
        Rect {
            x: ((2 * SCALE_ONE * self.position.x - w * self.scale.x) / (2 * SCALE_ONE)) as i64,
            y: ((2 * SCALE_ONE * self.position.y - h * self.scale.y) / (2 * SCALE_ONE)) as i64,
            w: ((w * self.scale.x) / (SCALE_ONE as int)) as i64,
            h: ((h * self.scale.y) / (SCALE_ONE as int)) as i64,
        }
    }

    fn scaled_box_exec(&self, w: i128, h: i128) -> (out: Rect)
        requires
            self.in_range(),
            -4_300_000_000_000_000 <= w <= 4_300_000_000_000_000,
            -4_300_000_000_000_000 <= h <= 4_300_000_000_000_000,
        ensures
            out == self.scaled_box(w as int, h as int),
    {
        let sx: i128 = self.scale.x as i128;
        let sy: i128 = self.scale.y as i128;
        let unit: i128 = 2 * (SCALE_ONE as i128);
        proof {
            lemma_product_bound(w as int, sx as int, 4_300_000_000_000_000, 1_000_000);
            lemma_product_bound(h as int, sy as int, 4_300_000_000_000_000, 1_000_000);
            lemma_product_bound(unit as int, self.position.x as int, 2_000, 1_000_000_000_000);
            lemma_product_bound(unit as int, self.position.y as int, 2_000, 1_000_000_000_000);
            lemma_quotient_within(
                unit * self.position.x - w * sx,
                unit as int,
                2_151_000_000_000_000_000,
            );
            lemma_quotient_within(
                unit * self.position.y - h * sy,
                unit as int,
                2_151_000_000_000_000_000,
            );
            lemma_quotient_within(w * sx, SCALE_ONE as int, 4_300_000_000_000_000_000);
            lemma_quotient_within(h * sy, SCALE_ONE as int, 4_300_000_000_000_000_000);
        }
        let x: i128 = floor_div(unit * (self.position.x as i128) - w * sx, unit);
        let y: i128 = floor_div(unit * (self.position.y as i128) - h * sy, unit);
        let width: i128 = floor_div(w * sx, SCALE_ONE as i128);
        let height: i128 = floor_div(h * sy, SCALE_ONE as i128);
        Rect { x: x as i64, y: y as i64, w: width as i64, h: height as i64 }
    }

    /// The rectangle that a sprite covers when it is drawn at this position
    /// with this scale.
    #[allow(dead_code)]
    pub fn get_rect_from_sprite(&self, sprite: &Sprite) -> (out: Rect)
        requires
            self.in_range(),
        ensures
            out == self.scaled_box(sprite.width * PIXEL, sprite.height * PIXEL),
    {
        let w: i128 = (sprite.width as i128) * (PIXEL as i128);
        let h: i128 = (sprite.height as i128) * (PIXEL as i128);
        self.scaled_box_exec(w, h)
    }

    /// The rectangle about this position that a box of the size `point`
    /// covers with this scale: for the transform of the camera and the size
    /// of the screen, what the camera sees.
    pub fn get_rect_from_point(&self, point: Point2) -> (out: Rect)
        requires
            self.in_range(),
            point.in_range(),
        ensures
            out == self.scaled_box(point.x as int, point.y as int),
    {
        self.scaled_box_exec(point.x as i128, point.y as i128)
    }

    /// The transform moved by `(dx, dy)`.
    pub open spec fn panned(self, dx: int, dy: int) -> Transform {
        Transform {
            position: Point2 {
                x: (self.position.x + dx) as i64,
                y: (self.position.y + dy) as i64,
            },
            scale: self.scale,
        }
    }

    /// Whether the position, moved by `(dx, dy)`, can still be held.
    pub open spec fn pan_fits(self, dx: int, dy: int) -> bool {
        &&& i64::MIN <= self.position.x + dx <= i64::MAX
        &&& i64::MIN <= self.position.y + dy <= i64::MAX
    }

    /// The transform with `delta` added to its scale along both axes, and
    /// each scale that would fall below `ZOOM_FLOOR` lifted to it.
    pub open spec fn zoomed(self, delta: int) -> Transform {
        Transform {
            position: self.position,
            scale: Vector2 {
                x: at_least_floor(self.scale.x + delta) as i64,
                y: at_least_floor(self.scale.y + delta) as i64,
            },
        }
    }

    /// Whether the scale, with `delta` added along both axes, can still be
    /// held.
    pub open spec fn zoom_fits(self, delta: int) -> bool {
        &&& self.scale.x + delta <= i64::MAX
        &&& self.scale.y + delta <= i64::MAX
    }

    /// Whether the position can be moved by `(delta_x, delta_y)`: what `pan`
    /// asks for.
    pub fn can_pan(&self, delta_x: i64, delta_y: i64) -> (out: bool)
        ensures
            out == self.pan_fits(delta_x as int, delta_y as int),
    {
        self.can_pan_wide(delta_x as i128, delta_y as i128)
    }

    /// Whether `delta` can be added to the scale: what `zoom` asks for.
    pub fn can_zoom(&self, delta: i64) -> (out: bool)
        ensures
            out == self.zoom_fits(delta as int),
    {
        let x: i128 = self.scale.x as i128 + delta as i128;
        let y: i128 = self.scale.y as i128 + delta as i128;
        x <= i64::MAX as i128 && y <= i64::MAX as i128
    }

    /// Adds `(delta_x, delta_y)` to the position.
    pub fn pan(&mut self, delta_x: i64, delta_y: i64)
        requires
            old(self).pan_fits(delta_x as int, delta_y as int),
        ensures
            *final(self) == old(self).panned(delta_x as int, delta_y as int),
            final(self).position.x == old(self).position.x + delta_x,
            final(self).position.y == old(self).position.y + delta_y,
    {
        self.pan_wide(delta_x as i128, delta_y as i128);
    }

    /// As `can_pan`, for amounts of up to twice what an `i64` holds.
    pub(crate) fn can_pan_wide(&self, delta_x: i128, delta_y: i128) -> (out: bool)
        requires
            2 * i64::MIN <= delta_x <= 2 * i64::MAX,
            2 * i64::MIN <= delta_y <= 2 * i64::MAX,
        ensures
            out == self.pan_fits(delta_x as int, delta_y as int),
    {
        let x: i128 = self.position.x as i128 + delta_x;
        let y: i128 = self.position.y as i128 + delta_y;
        i64::MIN as i128 <= x && x <= i64::MAX as i128 && i64::MIN as i128 <= y && y
            <= i64::MAX as i128
    }

    /// As `pan`, by amounts of up to twice what an `i64` holds.
    pub(crate) fn pan_wide(&mut self, delta_x: i128, delta_y: i128)
        requires
            2 * i64::MIN <= delta_x <= 2 * i64::MAX,
            2 * i64::MIN <= delta_y <= 2 * i64::MAX,
            old(self).pan_fits(delta_x as int, delta_y as int),
        ensures
            *final(self) == old(self).panned(delta_x as int, delta_y as int),
            final(self).position.x == old(self).position.x + delta_x,
            final(self).position.y == old(self).position.y + delta_y,
    {
        let x: i128 = self.position.x as i128 + delta_x;
        let y: i128 = self.position.y as i128 + delta_y;
        self.position = Point2 { x: x as i64, y: y as i64 };
    }

    /// Adds `delta` to the scale along both axes; a scale that would fall
    /// below `ZOOM_FLOOR` becomes `ZOOM_FLOOR`, each axis on its own.
    pub fn zoom(&mut self, delta: i64)
        requires
            old(self).zoom_fits(delta as int),
        ensures
            *final(self) == old(self).zoomed(delta as int),
            final(self).scale.x == at_least_floor(old(self).scale.x + delta),
            final(self).scale.y == at_least_floor(old(self).scale.y + delta),
            final(self).scale.x >= ZOOM_FLOOR,
            final(self).scale.y >= ZOOM_FLOOR,
    {
        let x: i128 = self.scale.x as i128 + delta as i128;
        let y: i128 = self.scale.y as i128 + delta as i128;
        self.scale = Vector2 { x: lift_to_floor(x), y: lift_to_floor(y) };
    }
}

/// The greater of `scale` and `ZOOM_FLOOR`.
pub open spec fn at_least_floor(scale: int) -> int {
    if scale < ZOOM_FLOOR {
        ZOOM_FLOOR as int
    } else {
        scale
    }
}

fn lift_to_floor(scale: i128) -> (out: i64)
    requires
        scale <= i64::MAX,
    ensures
        out == at_least_floor(scale as int),
{
    if scale < ZOOM_FLOOR as i128 {
        ZOOM_FLOOR
    } else {
        scale as i64
    }
}

/// The transform after zooming by each of `deltas`, one after the other.
pub open spec fn zoomed_by_all(transform: Transform, deltas: Seq<int>) -> Transform
    decreases deltas.len(),
{
    if deltas.len() == 0 {
        transform
    } else {
        zoomed_by_all(transform, deltas.drop_last()).zoomed(deltas.last())
    }
}

/// However often and however far a camera is zoomed, its scale stays at or
/// above `ZOOM_FLOOR` along both axes, and so above zero, as long as the
/// last zoom gives a scale that can be held.
pub proof fn lemma_zoom_keeps_floor(transform: Transform, deltas: Seq<int>)
    requires
        deltas.len() > 0,
        zoomed_by_all(transform, deltas.drop_last()).zoom_fits(deltas.last()),
    ensures
        zoomed_by_all(transform, deltas).scale.x >= ZOOM_FLOOR,
        zoomed_by_all(transform, deltas).scale.y >= ZOOM_FLOOR,
{
}

/// Panning leaves the scale as it is, and zooming leaves the position as it
/// is and the scale at or above `ZOOM_FLOOR`: neither takes the scale of a
/// camera to zero or below it.
pub proof fn lemma_moves_keep_floor(transform: Transform, dx: int, dy: int, delta: int)
    requires
        transform.zoom_fits(delta),
    ensures
        transform.panned(dx, dy).scale == transform.scale,
        transform.zoomed(delta).position == transform.position,
        transform.zoomed(delta).scale.x >= ZOOM_FLOOR,
        transform.zoomed(delta).scale.y >= ZOOM_FLOOR,
{
}

} // verus!
