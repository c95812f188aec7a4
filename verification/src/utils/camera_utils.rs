//! The matrices that carry the world to the screen and the screen back.
//!
//! The world's y axis points up and the screen's points down: the axis is
//! flipped once, on the way from the world to the camera, and nowhere else.

use vstd::prelude::*;
use crate::components::Transform;
use crate::math::{IntMatrix3, IntPoint3, Matrix3, Point2};
use crate::units::{
    is_coord,
    is_scale,
    lemma_product_bound,
    lemma_unit_product,
    lemma_zero_product,
    SCALE_ONE,
};

verus! {

/// The matrix that moves the camera's position to the origin and flips the
/// y axis.
pub open spec fn world_to_camera_matrix(cx: int, cy: int) -> IntMatrix3 {
    IntMatrix3 { m11: 1, m12: 0, m13: -cx, m21: 0, m22: -1, m23: cy, m31: 0, m32: 0, m33: 1 }
}

/// The matrix that divides by the camera's scale along each axis and moves
/// the origin to the centre of a screen `w` wide and `h` high, over the
/// common denominator `2 * sx * sy`.
pub open spec fn camera_to_screen_matrix(sx: int, sy: int, w: int, h: int) -> IntMatrix3 {
    IntMatrix3 {
        m11: 2 * SCALE_ONE * sy,
        m12: 0,
        m13: w * sx * sy,
        m21: 0,
        m22: 2 * SCALE_ONE * sx,
        m23: h * sx * sy,
        m31: 0,
        m32: 0,
        m33: 2 * sx * sy,
    }
}

/// The matrix that undoes `camera_to_screen_matrix` and then
/// `world_to_camera_matrix`, over the common denominator `2 * SCALE_ONE`.
pub open spec fn screen_to_world_matrix(cx: int, cy: int, sx: int, sy: int, w: int, h: int) -> IntMatrix3 {
    IntMatrix3 {
        m11: 2 * sx,
        m12: 0,
        m13: 2 * SCALE_ONE * cx - w * sx,
        m21: 0,
        m22: -2 * sy,
        m23: 2 * SCALE_ONE * cy + h * sy,
        m31: 0,
        m32: 0,
        m33: 2 * SCALE_ONE,
    }
}

/// From the world to the camera: the camera's position goes to the origin
/// and the y axis is flipped.
pub fn world_to_camera(camera_transform: &Transform) -> (out: Matrix3)
    ensures
        out@ == world_to_camera_matrix(
            camera_transform.position.x as int,
            camera_transform.position.y as int,
        ),
{
    Matrix3::new(
        1,
        0,
        -(camera_transform.position.x as i128),
        0,
        -1,
        camera_transform.position.y as i128,
        0,
        0,
        1,
    )
}

/// From the camera to a screen of the size `screen_size`: each axis is
/// divided by the camera's scale and the origin goes to the screen's centre.
pub fn camera_to_screen(camera_transform: &Transform, screen_size: Point2) -> (out: Matrix3)
    requires
        camera_transform.in_range(),
        screen_size.in_range(),
    ensures
        out@ == camera_to_screen_matrix(
            camera_transform.scale.x as int,
            camera_transform.scale.y as int,
            screen_size.x as int,
            screen_size.y as int,
        ),
{
    let sx: i128 = camera_transform.scale.x as i128;
    let sy: i128 = camera_transform.scale.y as i128;
    let w: i128 = screen_size.x as i128;
    let h: i128 = screen_size.y as i128;
    let unit: i128 = 2 * (SCALE_ONE as i128);
    proof {
        lemma_camera_to_screen_bounded(sx as int, sy as int, w as int, h as int);
        lemma_product_bound(sx as int, sy as int, 1_000_000, 1_000_000);
        lemma_regroup(w as int, sx as int, sy as int);
        lemma_regroup(h as int, sx as int, sy as int);
        lemma_regroup(2, sx as int, sy as int);
    }
    let area: i128 = sx * sy;
    Matrix3::new(unit * sy, 0, w * area, 0, unit * sx, h * area, 0, 0, 2 * area)
}

/// The matrix from the world to the screen: to the camera first, to the
/// screen second.
pub open spec fn world_to_screen_matrix(cx: int, cy: int, sx: int, sy: int, w: int, h: int) -> IntMatrix3 {
    camera_to_screen_matrix(sx, sy, w, h).compose(world_to_camera_matrix(cx, cy))
}

proof fn lemma_regroup(a: int, b: int, c: int)
    by (nonlinear_arith)
    ensures
        a * b * c == a * (b * c),
{
}

proof fn lemma_camera_to_screen_bounded(sx: int, sy: int, w: int, h: int)
    requires
        is_scale(sx),
        is_scale(sy),
        is_coord(w),
        is_coord(h),
    ensures
        camera_to_screen_matrix(sx, sy, w, h).bounded(1_000_000_000_000_000_000_000_000),
{
    lemma_product_bound(sx, sy, 1_000_000, 1_000_000);
    lemma_product_bound(w, sx * sy, 1_000_000_000_000, 1_000_000_000_000);
    lemma_product_bound(h, sx * sy, 1_000_000_000_000, 1_000_000_000_000);
    lemma_regroup(w, sx, sy);
    lemma_regroup(h, sx, sy);
    lemma_regroup(2, sx, sy);
    lemma_unit_product(sx);
    lemma_unit_product(sy);
}

/// From the world to a screen of the size `screen_size`, in one matrix:
/// the product of `camera_to_screen` and `world_to_camera`.
pub fn world_to_screen(camera_transform: &Transform, screen_size: Point2) -> (out: Matrix3)
    requires
        camera_transform.in_range(),
        screen_size.in_range(),
    ensures
        out@ == world_to_screen_matrix(
            camera_transform.position.x as int,
            camera_transform.position.y as int,
            camera_transform.scale.x as int,
            camera_transform.scale.y as int,
            screen_size.x as int,
            screen_size.y as int,
        ),
{
    let to_screen = camera_to_screen(camera_transform, screen_size);
    let to_camera = world_to_camera(camera_transform);
    proof {
        lemma_camera_to_screen_bounded(
            camera_transform.scale.x as int,
            camera_transform.scale.y as int,
            screen_size.x as int,
            screen_size.y as int,
        );
        to_screen@.lemma_compose_fits(
            to_camera@,
            1_000_000_000_000_000_000_000_000,
            1_000_000_000_000,
        );
    }
    to_screen.compose(&to_camera)
}

/// From a screen of the size `screen_size` back to the world, in one
/// matrix: the inverse of `world_to_screen`, written down directly.
pub fn screen_to_world(camera_transform: &Transform, screen_size: Point2) -> (out: Matrix3)
    requires
        camera_transform.in_range(),
        screen_size.in_range(),
    ensures
        out@ == screen_to_world_matrix(
            camera_transform.position.x as int,
            camera_transform.position.y as int,
            camera_transform.scale.x as int,
            camera_transform.scale.y as int,
            screen_size.x as int,
            screen_size.y as int,
        ),
{
    let cx: i128 = camera_transform.position.x as i128;
    let cy: i128 = camera_transform.position.y as i128;
    let sx: i128 = camera_transform.scale.x as i128;
    let sy: i128 = camera_transform.scale.y as i128;
    let w: i128 = screen_size.x as i128;
    let h: i128 = screen_size.y as i128;
    let unit: i128 = 2 * (SCALE_ONE as i128);
    proof {
        lemma_product_bound(w as int, sx as int, 1_000_000_000_000, 1_000_000);
        lemma_product_bound(h as int, sy as int, 1_000_000_000_000, 1_000_000);
        lemma_product_bound(unit as int, cx as int, 2_000, 1_000_000_000_000);
        lemma_product_bound(unit as int, cy as int, 2_000, 1_000_000_000_000);
    }
    Matrix3::new(2 * sx, 0, unit * cx - w * sx, 0, -(2 * sy), unit * cy + h * sy, 0, 0, unit)
}

/// The entries of the matrix from the world to the screen, multiplied out.
pub proof fn lemma_world_to_screen_entries(cx: int, cy: int, sx: int, sy: int, w: int, h: int)
    ensures
        world_to_screen_matrix(cx, cy, sx, sy, w, h) == (IntMatrix3 {
            m11: 2 * SCALE_ONE * sy,
            m12: 0,
            m13: sy * (w * sx - 2 * SCALE_ONE * cx),
            m21: 0,
            m22: -(2 * SCALE_ONE * sx),
            m23: sx * (h * sy + 2 * SCALE_ONE * cy),
            m31: 0,
            m32: 0,
            m33: 2 * sx * sy,
        }),
{
    let m = world_to_screen_matrix(cx, cy, sx, sy, w, h);
    assert(m.m13 == sy * (w * sx - 2 * SCALE_ONE * cx)) by (nonlinear_arith)
        requires
            m.m13 == (2 * SCALE_ONE * sy) * (-cx) + 0 * cy + (w * sx * sy) * 1,
    ;
    assert(m.m23 == sx * (h * sy + 2 * SCALE_ONE * cy)) by (nonlinear_arith)
        requires
            m.m23 == 0 * (-cx) + (2 * SCALE_ONE * sx) * cy + (h * sx * sy) * 1,
    ;
    assert(m.m22 == -(2 * SCALE_ONE * sx)) by (nonlinear_arith)
        requires
            m.m22 == 0 * 0 + (2 * SCALE_ONE * sx) * (-1) + (h * sx * sy) * 0,
    ;
}

/// Where the three matrices take the point `(x, y)`: to the camera, to
/// `(x - cx, cy - y)`; from the camera to the screen, to
/// `(x / sx + w / 2, y / sy + h / 2)`; from the world to the screen, to
/// `((x - cx) / sx + w / 2, (cy - y) / sy + h / 2)`, the scales counted in
/// thousandths.
pub proof fn lemma_images(cx: int, cy: int, sx: int, sy: int, w: int, h: int, x: int, y: int)
    ensures
        world_to_camera_matrix(cx, cy).apply(IntPoint3::of_point(x, y)) == IntPoint3::of_point(
            x - cx,
            cy - y,
        ),
        camera_to_screen_matrix(sx, sy, w, h).apply(IntPoint3::of_point(x, y)) == (IntPoint3 {
            x: sy * (2 * SCALE_ONE * x + w * sx),
            y: sx * (2 * SCALE_ONE * y + h * sy),
            z: 2 * sx * sy,
        }),
        world_to_screen_matrix(cx, cy, sx, sy, w, h).apply(IntPoint3::of_point(x, y))
            == camera_to_screen_matrix(sx, sy, w, h).apply(IntPoint3::of_point(x - cx, cy - y)),
{
    lemma_world_to_screen_entries(cx, cy, sx, sy, w, h);
    let to_camera = world_to_camera_matrix(cx, cy).apply(IntPoint3::of_point(x, y));
    assert(to_camera.x == x - cx);
    assert(to_camera.y == cy - y);
    assert(to_camera.z == 1);
    let to_screen = camera_to_screen_matrix(sx, sy, w, h).apply(IntPoint3::of_point(x, y));
    assert((2 * SCALE_ONE * sy) * x + (w * sx * sy) * 1 == sy * (2 * SCALE_ONE * x + w * sx))
        by (nonlinear_arith);
    assert((2 * SCALE_ONE * sx) * y + (h * sx * sy) * 1 == sx * (2 * SCALE_ONE * y + h * sy))
        by (nonlinear_arith);
    assert(to_screen.x == sy * (2 * SCALE_ONE * x + w * sx));
    assert(to_screen.y == sx * (2 * SCALE_ONE * y + h * sy));
    assert(to_screen.z == 2 * sx * sy);
    let both = world_to_screen_matrix(cx, cy, sx, sy, w, h).apply(IntPoint3::of_point(x, y));
    let after = camera_to_screen_matrix(sx, sy, w, h).apply(IntPoint3::of_point(x - cx, cy - y));
    assert(both.x == after.x) by (nonlinear_arith)
        requires
            both.x == (2 * SCALE_ONE * sy) * x + 0 * y + (sy * (w * sx - 2 * SCALE_ONE * cx)) * 1,
            after.x == (2 * SCALE_ONE * sy) * (x - cx) + 0 * (cy - y) + (w * sx * sy) * 1,
    ;
    assert(both.y == after.y) by (nonlinear_arith)
        requires
            both.y == 0 * x + (-(2 * SCALE_ONE * sx)) * y + (sx * (h * sy + 2 * SCALE_ONE * cy))
                * 1,
            after.y == 0 * (x - cx) + (2 * SCALE_ONE * sx) * (cy - y) + (h * sx * sy) * 1,
    ;
    assert(both.z == after.z) by (nonlinear_arith)
        requires
            both.z == 0 * x + 0 * y + (2 * sx * sy) * 1,
            after.z == 0 * (x - cx) + 0 * (cy - y) + (2 * sx * sy) * 1,
    ;
}

/// Where the matrix from the screen to the world takes the point `(u, v)`:
/// to `((u - w / 2) * sx + cx, cy - (v - h / 2) * sy)`, the scales counted in
/// thousandths.
pub proof fn lemma_image_in_world(
    cx: int,
    cy: int,
    sx: int,
    sy: int,
    w: int,
    h: int,
    u: int,
    v: int,
)
    ensures
        screen_to_world_matrix(cx, cy, sx, sy, w, h).apply(IntPoint3::of_point(u, v)) == (IntPoint3 {
            x: (2 * u - w) * sx + 2 * SCALE_ONE * cx,
            y: 2 * SCALE_ONE * cy - (2 * v - h) * sy,
            z: 2 * SCALE_ONE,
        }),
{
    let image = screen_to_world_matrix(cx, cy, sx, sy, w, h).apply(IntPoint3::of_point(u, v));
    lemma_zero_product(0, u);
    lemma_zero_product(0, v);
    assert((2 * sx) * u + (2 * SCALE_ONE * cx - w * sx) * 1 == (2 * u - w) * sx + 2 * SCALE_ONE
        * cx) by (nonlinear_arith);
    assert((-2 * sy) * v + (2 * SCALE_ONE * cy + h * sy) * 1 == 2 * SCALE_ONE * cy - (2 * v - h)
        * sy) by (nonlinear_arith);
    assert((2 * SCALE_ONE) * 1 == 2 * SCALE_ONE);
}

/// The factor by which the inverse of the matrix from the world to the
/// screen exceeds the matrix from the screen to the world lies above zero
/// and far below what an `i128` holds.
pub proof fn lemma_scale_factor(sx: int, sy: int)
    requires
        is_scale(sx),
        is_scale(sy),
    ensures
        0 < 2 * SCALE_ONE * sx * sy <= 2_000_000_000_000_000,
{
    lemma_product_bound(sx, sy, 1_000_000, 1_000_000);
    assert(sx * sy > 0) by (nonlinear_arith)
        requires
            sx > 0,
            sy > 0,
    ;
    lemma_regroup(2 * SCALE_ONE, sx, sy);
    lemma_unit_product(sx * sy);
}

/// Within the ranges of coordinates and of scale factors, the entries of either
/// matrix stay far below what an `i128` holds.
pub proof fn lemma_matrices_bounded(cx: int, cy: int, sx: int, sy: int, w: int, h: int)
    requires
        is_coord(cx),
        is_coord(cy),
        is_scale(sx),
        is_scale(sy),
        is_coord(w),
        is_coord(h),
    ensures
        world_to_screen_matrix(cx, cy, sx, sy, w, h).bounded(2_000_000_000_000_000_000_000_000),
        screen_to_world_matrix(cx, cy, sx, sy, w, h).bounded(2_000_000_000_000_000_000),
{
    lemma_world_to_screen_entries(cx, cy, sx, sy, w, h);
    lemma_product_bound(w, sx, 1_000_000_000_000, 1_000_000);
    lemma_product_bound(h, sy, 1_000_000_000_000, 1_000_000);
    lemma_product_bound(sx, sy, 1_000_000, 1_000_000);
    lemma_unit_product(cx);
    lemma_unit_product(cy);
    lemma_unit_product(sx);
    lemma_unit_product(sy);
    lemma_regroup(2, sx, sy);
    lemma_product_bound(sy, w * sx - 2 * SCALE_ONE * cx, 1_000_000, 1_002_000_000_000_000_000);
    lemma_product_bound(sx, h * sy + 2 * SCALE_ONE * cy, 1_000_000, 1_002_000_000_000_000_000);
}

/// The matrix from the screen to the world undoes the matrix from the world
/// to the screen, and the other way round: either product is the identity,
/// multiplied by `4 * SCALE_ONE * sx * sy`.
pub proof fn lemma_screen_to_world_inverts(cx: int, cy: int, sx: int, sy: int, w: int, h: int)
    ensures
        screen_to_world_matrix(cx, cy, sx, sy, w, h).compose(
            world_to_screen_matrix(cx, cy, sx, sy, w, h),
        ) == IntMatrix3::identity().scaled(4 * SCALE_ONE * sx * sy),
        world_to_screen_matrix(cx, cy, sx, sy, w, h).compose(
            screen_to_world_matrix(cx, cy, sx, sy, w, h),
        ) == IntMatrix3::identity().scaled(4 * SCALE_ONE * sx * sy),
{
    lemma_world_to_screen_entries(cx, cy, sx, sy, w, h);
    let d = SCALE_ONE as int;
    let k = 4 * d * sx * sy;
    let a = 2 * d * sy;
    let c = sy * (w * sx - 2 * d * cx);
    let e = -(2 * d * sx);
    let f = sx * (h * sy + 2 * d * cy);
    let i = 2 * sx * sy;
    let p = 2 * sx;
    let r = 2 * d * cx - w * sx;
    let t = -2 * sy;
    let u = 2 * d * cy + h * sy;
    let v = 2 * d;
    lemma_zero_product(0, 0);
    lemma_zero_product(0, a);
    lemma_zero_product(0, c);
    lemma_zero_product(0, e);
    lemma_zero_product(0, f);
    lemma_zero_product(0, i);
    lemma_zero_product(0, p);
    lemma_zero_product(0, r);
    lemma_zero_product(0, t);
    lemma_zero_product(0, u);
    lemma_zero_product(0, v);
    assert(p * a == k) by (nonlinear_arith)
        requires
            p == 2 * sx,
            a == 2 * d * sy,
            k == 4 * d * sx * sy,
    ;
    assert(a * p == k) by (nonlinear_arith)
        requires
            p * a == k,
    ;
    assert(t * e == k) by (nonlinear_arith)
        requires
            t == -2 * sy,
            e == -(2 * d * sx),
            k == 4 * d * sx * sy,
    ;
    assert(e * t == k) by (nonlinear_arith)
        requires
            t * e == k,
    ;
    assert(v * i == k) by (nonlinear_arith)
        requires
            v == 2 * d,
            i == 2 * sx * sy,
            k == 4 * d * sx * sy,
    ;
    assert(i * v == k) by (nonlinear_arith)
        requires
            v * i == k,
    ;
    assert(p * c + r * i == 0) by (nonlinear_arith)
        requires
            p == 2 * sx,
            c == sy * (w * sx - 2 * d * cx),
            r == 2 * d * cx - w * sx,
            i == 2 * sx * sy,
    ;
    assert(a * r + c * v == 0) by (nonlinear_arith)
        requires
            a == 2 * d * sy,
            c == sy * (w * sx - 2 * d * cx),
            r == 2 * d * cx - w * sx,
            v == 2 * d,
    ;
    assert(t * f + u * i == 0) by (nonlinear_arith)
        requires
            t == -2 * sy,
            f == sx * (h * sy + 2 * d * cy),
            u == 2 * d * cy + h * sy,
            i == 2 * sx * sy,
    ;
    assert(e * u + f * v == 0) by (nonlinear_arith)
        requires
            e == -(2 * d * sx),
            f == sx * (h * sy + 2 * d * cy),
            u == 2 * d * cy + h * sy,
            v == 2 * d,
    ;
    assert(k * 1 == k) by (nonlinear_arith);
    lemma_zero_product(0, k);
}

/// The matrix from the world to the screen of a camera with scales above
/// zero can be undone: its determinant is below zero, and its inverse is the
/// matrix from the screen to the world, multiplied by
/// `2 * SCALE_ONE * sx * sy`.
pub proof fn lemma_world_to_screen_inverse(cx: int, cy: int, sx: int, sy: int, w: int, h: int)
    requires
        sx > 0,
        sy > 0,
    ensures
        world_to_screen_matrix(cx, cy, sx, sy, w, h).determinant() < 0,
        world_to_screen_matrix(cx, cy, sx, sy, w, h).inverse() == screen_to_world_matrix(
            cx,
            cy,
            sx,
            sy,
            w,
            h,
        ).scaled(2 * SCALE_ONE * sx * sy),
        2 * SCALE_ONE * sx * sy > 0,
{
    lemma_world_to_screen_entries(cx, cy, sx, sy, w, h);
    let m = world_to_screen_matrix(cx, cy, sx, sy, w, h);
    let d = SCALE_ONE as int;
    let a = m.m11;
    let c = m.m13;
    let e = m.m22;
    let f = m.m23;
    let i = m.m33;
    let k = 2 * d * sx * sy;
    let adj = m.adjugate();
    assert(sx * sy > 0) by (nonlinear_arith)
        requires
            sx > 0,
            sy > 0,
    ;
    lemma_regroup(2 * d, sx, sy);
    lemma_unit_product(sx * sy);
    lemma_unit_product(sx);
    lemma_unit_product(sy);
    lemma_regroup(2, sx, sy);
    assert(k > 0 && a > 0 && e < 0 && i > 0);
    lemma_zero_product(0, 0);
    lemma_zero_product(0, a);
    lemma_zero_product(0, c);
    lemma_zero_product(0, e);
    lemma_zero_product(0, f);
    lemma_zero_product(0, i);
    assert(adj.m11 == e * i);
    assert(adj.m12 == 0);
    assert(adj.m13 == -(c * e));
    assert(adj.m21 == 0);
    assert(adj.m22 == a * i);
    assert(adj.m23 == -(a * f));
    assert(adj.m31 == 0);
    assert(adj.m32 == 0);
    assert(adj.m33 == a * e);
    lemma_zero_product(0, adj.m12);
    lemma_zero_product(0, adj.m13);
    assert(m.determinant() == (e * i) * a);
    assert(e * i < 0) by (nonlinear_arith)
        requires
            e < 0,
            i > 0,
    ;
    assert((e * i) * a < 0) by (nonlinear_arith)
        requires
            e * i < 0,
            a > 0,
    ;
    assert(-1 * (e * i) == k * (2 * sx)) by (nonlinear_arith)
        requires
            k == 2 * d * sx * sy,
            e == -(2 * d * sx),
            i == 2 * sx * sy,
    ;
    assert(-1 * (a * i) == k * (-2 * sy)) by (nonlinear_arith)
        requires
            k == 2 * d * sx * sy,
            a == 2 * d * sy,
            i == 2 * sx * sy,
    ;
    assert(-1 * (a * e) == k * (2 * d)) by (nonlinear_arith)
        requires
            k == 2 * d * sx * sy,
            a == 2 * d * sy,
            e == -(2 * d * sx),
    ;
    assert(-1 * (-(c * e)) == k * (2 * d * cx - w * sx)) by (nonlinear_arith)
        requires
            k == 2 * d * sx * sy,
            c == sy * (w * sx - 2 * d * cx),
            e == -(2 * d * sx),
    ;
    assert(-1 * (-(a * f)) == k * (2 * d * cy + h * sy)) by (nonlinear_arith)
        requires
            k == 2 * d * sx * sy,
            a == 2 * d * sy,
            f == sx * (h * sy + 2 * d * cy),
    ;
    lemma_zero_product(0, -1);
    lemma_zero_product(0, k);
}

/// Within the ranges of coordinates and of scale factors, the inverse of the
/// matrix from the world to the screen can be computed in `i128`.
pub proof fn lemma_world_to_screen_inverse_fits(
    cx: int,
    cy: int,
    sx: int,
    sy: int,
    w: int,
    h: int,
)
    requires
        is_coord(cx),
        is_coord(cy),
        is_scale(sx),
        is_scale(sy),
        is_coord(w),
        is_coord(h),
    ensures
        world_to_screen_matrix(cx, cy, sx, sy, w, h).inverse_fits(),
{
    lemma_world_to_screen_entries(cx, cy, sx, sy, w, h);
    lemma_matrices_bounded(cx, cy, sx, sy, w, h);
    let m = world_to_screen_matrix(cx, cy, sx, sy, w, h);
    let l = 2_000_000_000_000_000_000_000_000int;
    let s = 2_000_000_000_000int;
    lemma_product_bound(sx, sy, 1_000_000, 1_000_000);
    lemma_unit_product(sx);
    lemma_unit_product(sy);
    lemma_regroup(2, sx, sy);
    assert(-s <= m.m11 <= s && -s <= m.m22 <= s && -s <= m.m33 <= s);
    lemma_product_bound(m.m22, m.m33, s, s);
    lemma_product_bound(m.m13, m.m22, l, s);
    lemma_product_bound(m.m11, m.m33, s, s);
    lemma_product_bound(m.m11, m.m23, s, l);
    lemma_product_bound(m.m11, m.m22, s, s);
    lemma_zero_product(m.m12, m.m11);
    lemma_zero_product(m.m12, m.m13);
    lemma_zero_product(m.m12, m.m21);
    lemma_zero_product(m.m12, m.m23);
    lemma_zero_product(m.m12, m.m31);
    lemma_zero_product(m.m12, m.m33);
    lemma_zero_product(m.m21, m.m13);
    lemma_zero_product(m.m21, m.m32);
    lemma_zero_product(m.m21, m.m33);
    lemma_zero_product(m.m31, m.m13);
    lemma_zero_product(m.m31, m.m22);
    lemma_zero_product(m.m31, m.m23);
    lemma_zero_product(m.m32, m.m11);
    lemma_zero_product(m.m32, m.m13);
    lemma_zero_product(m.m32, m.m23);
    let adj = m.adjugate();
    assert(adj.m11 == m.m22 * m.m33);
    assert(adj.m12 == 0);
    assert(adj.m13 == -(m.m13 * m.m22));
    lemma_product_bound(adj.m11, m.m11, s * s, s);
    lemma_zero_product(m.m21, adj.m12);
    lemma_zero_product(m.m31, adj.m13);
}

} // verus!
