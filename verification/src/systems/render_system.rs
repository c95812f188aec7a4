//! Where on the screen a point of the world is drawn, and which point of the
//! world lies under a point of the screen.

use vstd::prelude::*;
use std::collections::HashSet;
use vstd::arithmetic::div_mod::{lemma_fundamental_div_mod, lemma_mod_bound};
use crate::components::Transform;
use crate::math::{IntPoint3, Point2, Vector2};
use crate::resources::ActiveCamera;
use crate::units::{
    floor_div,
    lemma_cancel_common_factor,
    lemma_product_bound,
    lemma_quotient_bound,
    lemma_unit_product,
    lemma_zero_product,
    PIXEL,
    SCALE_ONE,
};
use crate::utils::camera_utils::{
    lemma_image_in_world,
    lemma_images,
    lemma_matrices_bounded,
    lemma_scale_factor,
    lemma_world_to_screen_entries,
    lemma_world_to_screen_inverse,
    lemma_world_to_screen_inverse_fits,
    screen_to_world_matrix,
    world_to_screen,
    world_to_screen_matrix,
};

verus! {

broadcast use vstd::std_specs::hash::group_hash_axioms;

/// The width and the height of the screen, in units.
#[derive(Clone, Copy, Debug, PartialEq, Eq, Structural)]
pub struct ScreenDimensions {
    pub x: i64,
    pub y: i64,
}

impl Default for ScreenDimensions {
    fn default() -> (out: ScreenDimensions)
        ensures
            out.x == 0,
            out.y == 0,
    {
        ScreenDimensions { x: 0, y: 0 }
    }
}

/// Where and how large an entity is drawn: `dest` is the place on the screen
/// of its centre and `scale` the factor by which its picture is scaled.
#[derive(Clone, Copy, Debug, PartialEq, Eq, Structural)]
pub struct DrawParam {
    pub dest: Point2,
    pub scale: Vector2,
}

/// Turns the world into what is drawn.
pub struct RenderSystem {}

/// Where and how large an entity with the given transform is drawn: at its
/// place on the screen, and with its own scale divided by the camera's, each
/// number rounded down.
pub open spec fn draw_param(screen_size: Point2, camera: Transform, transform: Transform) -> DrawParam {
    DrawParam {
        dest: Point2 {
            x: screen_x(camera, screen_size, transform.position.x as int) as i64,
            y: screen_y(camera, screen_size, transform.position.y as int) as i64,
        },
        scale: Vector2 {
            x: ((transform.scale.x * SCALE_ONE) / (camera.scale.x as int)) as i64,
            y: ((transform.scale.y * SCALE_ONE) / (camera.scale.y as int)) as i64,
        },
    }
}

/// What is drawn of `rows`: every entity that is not culled, in the order of
/// the rows.
pub open spec fn draw_list(
    rows: Seq<(u64, Transform)>,
    culled: Set<u64>,
    screen_size: Point2,
    camera: Transform,
) -> Seq<(u64, DrawParam)>
    decreases rows.len(),
{
    if rows.len() == 0 {
        Seq::empty()
    } else {
        let before = draw_list(rows.drop_last(), culled, screen_size, camera);
        let row = rows.last();
        if culled.contains(row.0) {
            before
        } else {
            before.push((row.0, draw_param(screen_size, camera, row.1)))
        }
    }
}

/// The image of a point of the world under the matrix from the world to the
/// screen.
pub open spec fn image_on_screen(camera: Transform, screen_size: Point2, point: Point2) -> IntPoint3 {
    world_to_screen_matrix(
        camera.position.x as int,
        camera.position.y as int,
        camera.scale.x as int,
        camera.scale.y as int,
        screen_size.x as int,
        screen_size.y as int,
    ).apply(IntPoint3::of_point(point.x as int, point.y as int))
}

/// The image of a point of the screen under the inverse of the matrix from
/// the world to the screen.
pub open spec fn image_in_world(camera: Transform, screen_size: Point2, point: Point2) -> IntPoint3 {
    world_to_screen_matrix(
        camera.position.x as int,
        camera.position.y as int,
        camera.scale.x as int,
        camera.scale.y as int,
        screen_size.x as int,
        screen_size.y as int,
    ).inverse().apply(IntPoint3::of_point(point.x as int, point.y as int))
}

/// The screen's x coordinate of the world's `x`, rounded down:
/// `(x - camera.x) / scale.x + width / 2`.
pub open spec fn screen_x(camera: Transform, screen_size: Point2, x: int) -> int {
    (2 * SCALE_ONE * (x - camera.position.x) + screen_size.x * camera.scale.x) / (2
        * camera.scale.x)
}

/// The screen's y coordinate of the world's `y`, rounded down:
/// `-(y - camera.y) / scale.y + height / 2`.
pub open spec fn screen_y(camera: Transform, screen_size: Point2, y: int) -> int {
    (screen_size.y * camera.scale.y - 2 * SCALE_ONE * (y - camera.position.y)) / (2
        * camera.scale.y)
}

/// The world's x coordinate of the screen's `u`, rounded down:
/// `(u - width / 2) * scale.x + camera.x`.
pub open spec fn world_x(camera: Transform, screen_size: Point2, u: int) -> int {
    ((2 * u - screen_size.x) * camera.scale.x + 2 * SCALE_ONE * camera.position.x) / (2
        * SCALE_ONE)
}

/// The world's y coordinate of the screen's `v`, rounded down:
/// `camera.y - (v - height / 2) * scale.y`.
pub open spec fn world_y(camera: Transform, screen_size: Point2, v: int) -> int {
    (2 * SCALE_ONE * camera.position.y - (2 * v - screen_size.y) * camera.scale.y) / (2
        * SCALE_ONE)
}

/// What to the screen and back does to a point, in terms of the remainders
/// `rx` and `ry` that rounding the place on the screen leaves: along x the
/// way back loses `rx` two-thousandths of a unit and is rounded down, along
/// y it gains `ry` two-thousandths and is rounded down.
proof fn lemma_there_and_back(camera: Transform, screen_size: Point2, x: int, y: int)
    requires
        camera.scale.x > 0,
        camera.scale.y > 0,
    ensures
        ({
            let rx = (2 * SCALE_ONE * (x - camera.position.x) + screen_size.x * camera.scale.x) % (
            2 * camera.scale.x);
            let back = world_x(camera, screen_size, screen_x(camera, screen_size, x));
            0 <= rx < 2 * camera.scale.x && 0 <= 2000 * (x - back) - rx < 2000
        }),
        ({
            let ry = (screen_size.y * camera.scale.y - 2 * SCALE_ONE * (y - camera.position.y)) % (
            2 * camera.scale.y);
            let back = world_y(camera, screen_size, screen_y(camera, screen_size, y));
            0 <= ry < 2 * camera.scale.y && 0 <= ry - 2000 * (back - y) < 2000
        }),
{
    let sx = camera.scale.x as int;
    let sy = camera.scale.y as int;
    let cx = camera.position.x as int;
    let cy = camera.position.y as int;
    let w = screen_size.x as int;
    let h = screen_size.y as int;
    let unit = 2 * SCALE_ONE;

    let nx = unit * (x - cx) + w * sx;
    let u = nx / (2 * sx);
    let rx = nx % (2 * sx);
    lemma_fundamental_div_mod(nx, 2 * sx);
    lemma_mod_bound(nx, 2 * sx);
    let mx = (2 * u - w) * sx + unit * cx;
    assert(mx == unit * x - rx) by (nonlinear_arith)
        requires
            nx == unit * (x - cx) + w * sx,
            nx == (2 * sx) * u + rx,
            mx == (2 * u - w) * sx + unit * cx,
    ;
    let back_x = mx / unit;
    lemma_fundamental_div_mod(mx, unit);
    lemma_mod_bound(mx, unit);
    lemma_unit_product(x);
    lemma_unit_product(back_x);
    assert(screen_x(camera, screen_size, x) == u);
    assert(world_x(camera, screen_size, u) == back_x);
    assert(0 <= 2000 * (x - back_x) - rx < 2000);

    let ny = h * sy - unit * (y - cy);
    let v = ny / (2 * sy);
    let ry = ny % (2 * sy);
    lemma_fundamental_div_mod(ny, 2 * sy);
    lemma_mod_bound(ny, 2 * sy);
    let my = unit * cy - (2 * v - h) * sy;
    assert(my == unit * y + ry) by (nonlinear_arith)
        requires
            ny == h * sy - unit * (y - cy),
            ny == (2 * sy) * v + ry,
            my == unit * cy - (2 * v - h) * sy,
    ;
    let back_y = my / unit;
    lemma_fundamental_div_mod(my, unit);
    lemma_mod_bound(my, unit);
    lemma_unit_product(y);
    lemma_unit_product(back_y);
    assert(screen_y(camera, screen_size, y) == v);
    assert(world_y(camera, screen_size, v) == back_y);
    assert(0 <= ry - 2000 * (back_y - y) < 2000);
}

/// To the screen and back moves no point of the world by more than the
/// rounding of its place on the screen: by less than one unit and the
/// camera's scale along x, towards lesser x, and by less than the camera's
/// scale along y, towards greater y.
pub proof fn lemma_round_trip(camera: Transform, screen_size: Point2, x: int, y: int)
    requires
        camera.scale.x > 0,
        camera.scale.y > 0,
    ensures
        ({
            let back = world_x(camera, screen_size, screen_x(camera, screen_size, x));
            0 <= x - back && SCALE_ONE * (x - back) < camera.scale.x + SCALE_ONE
        }),
        ({
            let back = world_y(camera, screen_size, screen_y(camera, screen_size, y));
            0 <= back - y && SCALE_ONE * (back - y) < camera.scale.y
        }),
{
    lemma_there_and_back(camera, screen_size, x, y);
    lemma_unit_product(x - world_x(camera, screen_size, screen_x(camera, screen_size, x)));
    lemma_unit_product(world_y(camera, screen_size, screen_y(camera, screen_size, y)) - y);
}

/// To the screen and back is the identity along x just where the place on
/// the screen needs no rounding, and along y just where its rounding takes
/// away less than one unit of the world.
pub proof fn lemma_round_trip_exact(camera: Transform, screen_size: Point2, x: int, y: int)
    requires
        camera.scale.x > 0,
        camera.scale.y > 0,
    ensures
        world_x(camera, screen_size, screen_x(camera, screen_size, x)) == x <==> (2 * SCALE_ONE * (
        x - camera.position.x) + screen_size.x * camera.scale.x) % (2 * camera.scale.x) == 0,
        world_y(camera, screen_size, screen_y(camera, screen_size, y)) == y <==> (screen_size.y
            * camera.scale.y - 2 * SCALE_ONE * (y - camera.position.y)) % (2 * camera.scale.y) < 2
            * SCALE_ONE,
{
    lemma_there_and_back(camera, screen_size, x, y);
}

/// With a camera scale of no more than ten, to the screen and back moves no
/// point of the world by more than ten units along either axis: by a
/// hundred-thousandth of a pixel.
pub proof fn lemma_round_trip_tolerance(camera: Transform, screen_size: Point2, x: int, y: int)
    requires
        0 < camera.scale.x <= 10 * SCALE_ONE,
        0 < camera.scale.y <= 10 * SCALE_ONE,
    ensures
        ({
            let back = world_x(camera, screen_size, screen_x(camera, screen_size, x));
            0 <= x - back <= 10 && 100_000 * (x - back) <= PIXEL
        }),
        ({
            let back = world_y(camera, screen_size, screen_y(camera, screen_size, y));
            0 <= back - y <= 10 && 100_000 * (back - y) <= PIXEL
        }),
{
    lemma_round_trip(camera, screen_size, x, y);
}

impl RenderSystem {
    /// The place on the screen of a point of the world, each coordinate
    /// rounded down to a whole unit.
    pub fn world_to_screen_coords(
        &mut self,
        screen_size: Point2,
        camera_transform: &Transform,
        point: Point2,
    ) -> (out: Point2)
        requires
            screen_size.in_range(),
            camera_transform.in_range(),
            point.in_range(),
        ensures
            out.x == screen_x(*camera_transform, screen_size, point.x as int),
            out.y == screen_y(*camera_transform, screen_size, point.y as int),
            out.x == image_on_screen(*camera_transform, screen_size, point).plane_x(),
            out.y == image_on_screen(*camera_transform, screen_size, point).plane_y(),
    {
        let matrix = world_to_screen(camera_transform, screen_size);
        let triple = point.to_homogeneous();
        let ghost cx = camera_transform.position.x as int;
        let ghost cy = camera_transform.position.y as int;
        let ghost sx = camera_transform.scale.x as int;
        let ghost sy = camera_transform.scale.y as int;
        let ghost w = screen_size.x as int;
        let ghost h = screen_size.y as int;
        let ghost x = point.x as int;
        let ghost y = point.y as int;
        proof {
            lemma_world_to_screen_entries(cx, cy, sx, sy, w, h);
            lemma_matrices_bounded(cx, cy, sx, sy, w, h);
            matrix@.lemma_apply_fits(
                triple@,
                2_000_000_000_000_000_000_000_000,
                1_000_000_000_000,
            );
        }
        let image = matrix.transform_point(&triple);
        proof {
            let nx = 2 * SCALE_ONE * (x - cx) + w * sx;
            let ny = h * sy - 2 * SCALE_ONE * (y - cy);
            lemma_images(cx, cy, sx, sy, w, h, x, y);
            lemma_images(cx, cy, sx, sy, w, h, x - cx, cy - y);
            lemma_unit_product(x - cx);
            lemma_unit_product(y - cy);
            lemma_unit_product(cy - y);
            assert(2 * SCALE_ONE * (cy - y) + h * sy == ny);
            assert(image.x == sy * nx);
            assert(image.y == sx * ny);
            assert(2 * sx * sy == sy * (2 * sx)) by (nonlinear_arith);
            assert(2 * sx * sy == sx * (2 * sy)) by (nonlinear_arith);
            lemma_cancel_common_factor(sy, nx, 2 * sx);
            lemma_cancel_common_factor(sx, ny, 2 * sy);
            lemma_product_bound(w, sx, 1_000_000_000_000, 1_000_000);
            lemma_product_bound(h, sy, 1_000_000_000_000, 1_000_000);
            lemma_product_bound(sy, nx, 1_000_000, 2_000_000_000_000_000_000);
            lemma_product_bound(sx, ny, 1_000_000, 2_000_000_000_000_000_000);
            lemma_quotient_bound(nx, 2 * sx, 2_000_000_000_000_000_000);
            lemma_quotient_bound(ny, 2 * sy, 2_000_000_000_000_000_000);
        }
        image.to_point()
    }

    /// The factor by which the picture of an entity is scaled: the entity's
    /// own scale divided by the camera's, rounded down.
    pub fn draw_scale(camera_transform: &Transform, transform: &Transform) -> (out: Vector2)
        requires
            camera_transform.in_range(),
            transform.in_range(),
        ensures
            out.x == (transform.scale.x * SCALE_ONE) / (camera_transform.scale.x as int),
            out.y == (transform.scale.y * SCALE_ONE) / (camera_transform.scale.y as int),
    {
        proof {
            lemma_product_bound(transform.scale.x as int, SCALE_ONE as int, 1_000_000, 1_000);
            lemma_product_bound(transform.scale.y as int, SCALE_ONE as int, 1_000_000, 1_000);
            lemma_quotient_bound(
                transform.scale.x * SCALE_ONE,
                camera_transform.scale.x as int,
                1_000_000_000,
            );
            lemma_quotient_bound(
                transform.scale.y * SCALE_ONE,
                camera_transform.scale.y as int,
                1_000_000_000,
            );
        }
        let x: i128 = floor_div(
            (transform.scale.x as i128) * (SCALE_ONE as i128),
            camera_transform.scale.x as i128,
        );
        let y: i128 = floor_div(
            (transform.scale.y as i128) * (SCALE_ONE as i128),
            camera_transform.scale.y as i128,
        );
        Vector2 { x: x as i64, y: y as i64 }
    }

    /// What one frame draws: for every entity of `transforms` that is not
    /// culled, in the order of `transforms`, where and how large the active
    /// camera shows it. Drawing needs a camera: one must be chosen and have
    /// its row among `transforms`.
    pub fn draw(
        &mut self,
        screen_size: Point2,
        active_camera: &ActiveCamera,
        transforms: &Vec<(u64, Transform)>,
        culled: &HashSet<u64>,
    ) -> (out: Vec<(u64, DrawParam)>)
        requires
            screen_size.in_range(),
            active_camera.is_ready(transforms@),
            forall|i: int|
                0 <= i < transforms@.len() && !culled@.contains(transforms@[i].0)
                    ==> transforms@[i].1.in_range(),
        ensures
            out@ == draw_list(
                transforms@,
                culled@,
                screen_size,
                active_camera.transform_in(transforms@).unwrap(),
            ),
    {
        let camera = active_camera.transform(transforms).unwrap();
        let camera_transform = &camera;
        let mut list: Vec<(u64, DrawParam)> = Vec::new();
        let mut i: usize = 0;
        while i < transforms.len()
            invariant
                i <= transforms.len(),
                screen_size.in_range(),
                camera_transform.in_range(),
                forall|i: int|
                    0 <= i < transforms@.len() && !culled@.contains(transforms@[i].0)
                        ==> transforms@[i].1.in_range(),
                list@ == draw_list(
                    transforms@.subrange(0, i as int),
                    culled@,
                    screen_size,
                    *camera_transform,
                ),
            decreases transforms.len() - i,
        {
            let entity: u64 = transforms[i].0;
            let transform: Transform = transforms[i].1;
            proof {
                let done = transforms@.subrange(0, i + 1);
                assert(done.drop_last() == transforms@.subrange(0, i as int));
                assert(done.last() == transforms@[i as int]);
            }
            if !culled.contains(&entity) {
                let dest = self.world_to_screen_coords(
                    screen_size,
                    camera_transform,
                    transform.position,
                );
                let scale = RenderSystem::draw_scale(camera_transform, &transform);
                list.push((entity, DrawParam { dest, scale }));
            }
            i = i + 1;
        }
        proof {
            assert(transforms@.subrange(0, i as int) == transforms@);
        }
        list
    }

    /// The point of the world under a point of the screen, each coordinate
    /// rounded down to a whole unit: the image of the point under the inverse
    /// of the matrix from the world to the screen, which a camera in range
    /// always has.
    pub fn screen_to_world_coords(
        screen_size: Point2,
        camera_transform: &Transform,
        point: Point2,
    ) -> (out: Point2)
        requires
            screen_size.in_range(),
            camera_transform.in_range(),
            point.in_range(),
        ensures
            out.x == world_x(*camera_transform, screen_size, point.x as int),
            out.y == world_y(*camera_transform, screen_size, point.y as int),
            out.x == image_in_world(*camera_transform, screen_size, point).plane_x(),
            out.y == image_in_world(*camera_transform, screen_size, point).plane_y(),
    {
        let matrix = world_to_screen(camera_transform, screen_size);
        let triple = point.to_homogeneous();
        let ghost cx = camera_transform.position.x as int;
        let ghost cy = camera_transform.position.y as int;
        let ghost sx = camera_transform.scale.x as int;
        let ghost sy = camera_transform.scale.y as int;
        let ghost w = screen_size.x as int;
        let ghost h = screen_size.y as int;
        let ghost u = point.x as int;
        let ghost v = point.y as int;
        let ghost k = 2 * SCALE_ONE * sx * sy;
        let ghost back = screen_to_world_matrix(cx, cy, sx, sy, w, h);
        proof {
            lemma_world_to_screen_inverse_fits(cx, cy, sx, sy, w, h);
            lemma_world_to_screen_inverse(cx, cy, sx, sy, w, h);
        }
        let inverse = matrix.try_inverse().unwrap();
        proof {
            lemma_matrices_bounded(cx, cy, sx, sy, w, h);
            lemma_scale_factor(sx, sy);
            lemma_product_bound(k, back.m11, 2_000_000_000_000_000, 2_000_000);
            lemma_product_bound(k, back.m22, 2_000_000_000_000_000, 2_000_000);
            lemma_product_bound(k, back.m13, 2_000_000_000_000_000, 2_000_000_000_000_000_000);
            lemma_product_bound(k, back.m23, 2_000_000_000_000_000, 2_000_000_000_000_000_000);
            lemma_unit_product(k);
            lemma_zero_product(0, k);
            assert(inverse.m12 == 0 && inverse.m21 == 0 && inverse.m31 == 0 && inverse.m32 == 0);
            assert(inverse.m33 == 2000 * k);
            lemma_product_bound(
                inverse.m11 as int,
                u,
                4_000_000_000_000_000_000_000,
                1_000_000_000_000,
            );
            lemma_product_bound(
                inverse.m22 as int,
                v,
                4_000_000_000_000_000_000_000,
                1_000_000_000_000,
            );
            lemma_zero_product(inverse.m12 as int, v);
            lemma_zero_product(inverse.m21 as int, u);
            lemma_zero_product(inverse.m31 as int, u);
            lemma_zero_product(inverse.m32 as int, v);
        }
        let image = inverse.transform_point(&triple);
        proof {
            let nx = (2 * u - w) * sx + 2 * SCALE_ONE * cx;
            let ny = 2 * SCALE_ONE * cy - (2 * v - h) * sy;
            back.lemma_scaled_apply(k, triple@);
            lemma_image_in_world(cx, cy, sx, sy, w, h, u, v);
            assert(image.x == k * nx);
            assert(image.y == k * ny);
            assert(image.z == k * (2 * SCALE_ONE));
            lemma_unit_product(cx);
            lemma_unit_product(cy);
            lemma_product_bound(2 * u - w, sx, 3_000_000_000_000, 1_000_000);
            lemma_product_bound(2 * v - h, sy, 3_000_000_000_000, 1_000_000);
            lemma_cancel_common_factor(k, nx, 2 * SCALE_ONE);
            lemma_cancel_common_factor(k, ny, 2 * SCALE_ONE);
            lemma_product_bound(k, nx, 2_000_000_000_000_000, 4_000_000_000_000_000_000);
            lemma_product_bound(k, ny, 2_000_000_000_000_000, 4_000_000_000_000_000_000);
            lemma_quotient_bound(nx, 2 * SCALE_ONE, 4_000_000_000_000_000_000);
            lemma_quotient_bound(ny, 2 * SCALE_ONE, 4_000_000_000_000_000_000);
        }
        image.to_point()
    }
}

} // verus!
