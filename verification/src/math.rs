//! Points, vectors and 3×3 matrices over whole numbers.
//!
//! A `Matrix3` acts on the plane through homogeneous coordinates: the point
//! `(x, y)` is the triple `(x, y, 1)`, and a triple `(x, y, z)` with `z > 0`
//! is the point `(x / z, y / z)`. A map that divides by a scale factor is
//! therefore held exactly, as whole numbers over a common denominator, and a
//! matrix and its multiples by a whole number above zero are the same map.

use vstd::prelude::*;
use crate::units::{
    fits_i128,
    floor_div,
    is_coord,
    lemma_product_bound,
    lemma_zero_product,
    COORD_MAX,
};

verus! {

/// A point of the plane, in world units.
#[derive(Clone, Copy, Debug, PartialEq, Eq, Structural)]
pub struct Point2 {
    pub x: i64,
    pub y: i64,
}

/// A pair of factors or of lengths, one for each axis.
#[derive(Clone, Copy, Debug, PartialEq, Eq, Structural)]
pub struct Vector2 {
    pub x: i64,
    pub y: i64,
}

/// A triple of homogeneous coordinates.
#[derive(Clone, Copy, Debug, PartialEq, Eq, Structural)]
pub struct Point3 {
    pub x: i128,
    pub y: i128,
    pub z: i128,
}

/// A 3×3 matrix, named by row and column.
#[derive(Clone, Copy, Debug, PartialEq, Eq, Structural)]
pub struct Matrix3 {
    pub m11: i128,
    pub m12: i128,
    pub m13: i128,
    pub m21: i128,
    pub m22: i128,
    pub m23: i128,
    pub m31: i128,
    pub m32: i128,
    pub m33: i128,
}

/// A triple of homogeneous coordinates over the mathematical integers.
pub struct IntPoint3 {
    pub x: int,
    pub y: int,
    pub z: int,
}

/// A 3×3 matrix over the mathematical integers: what a `Matrix3` stands for.
pub struct IntMatrix3 {
    pub m11: int,
    pub m12: int,
    pub m13: int,
    pub m21: int,
    pub m22: int,
    pub m23: int,
    pub m31: int,
    pub m32: int,
    pub m33: int,
}

/// The sum of the three products `a1 * b1`, `a2 * b2` and `a3 * b3`.
pub open spec fn dot3(a1: int, a2: int, a3: int, b1: int, b2: int, b3: int) -> int {
    a1 * b1 + a2 * b2 + a3 * b3
}

/// Whether `dot3` can be computed in `i128`, term by term from the left.
pub open spec fn dot3_fits(a1: int, a2: int, a3: int, b1: int, b2: int, b3: int) -> bool {
    &&& fits_i128(a1 * b1)
    &&& fits_i128(a2 * b2)
    &&& fits_i128(a3 * b3)
    &&& fits_i128(a1 * b1 + a2 * b2)
    &&& fits_i128(a1 * b1 + a2 * b2 + a3 * b3)
}

fn dot3_exec(a1: i128, a2: i128, a3: i128, b1: i128, b2: i128, b3: i128) -> (out: i128)
    requires
        dot3_fits(a1 as int, a2 as int, a3 as int, b1 as int, b2 as int, b3 as int),
    ensures
        out == dot3(a1 as int, a2 as int, a3 as int, b1 as int, b2 as int, b3 as int),
{
    let first: i128 = a1 * b1;
    let second: i128 = a2 * b2;
    let third: i128 = a3 * b3;
    first + second + third
}

/// Three products of numbers within `la` and within `lb` of zero can be
/// summed in `i128` if three times `la * lb` can be held there.
pub proof fn lemma_dot3_fits(a1: int, a2: int, a3: int, b1: int, b2: int, b3: int, la: int, lb: int)
    requires
        -la <= a1 <= la,
        -la <= a2 <= la,
        -la <= a3 <= la,
        -lb <= b1 <= lb,
        -lb <= b2 <= lb,
        -lb <= b3 <= lb,
        3 * (la * lb) <= i128::MAX,
    ensures
        dot3_fits(a1, a2, a3, b1, b2, b3),
        -(3 * (la * lb)) <= dot3(a1, a2, a3, b1, b2, b3) <= 3 * (la * lb),
{
    lemma_product_bound(a1, b1, la, lb);
    lemma_product_bound(a2, b2, la, lb);
    lemma_product_bound(a3, b3, la, lb);
}

/// The determinant of the 2×2 matrix with the rows `(a, c)` and `(d, b)`:
/// `a * b - c * d`.
pub open spec fn minor(a: int, b: int, c: int, d: int) -> int {
    a * b - c * d
}

/// Whether `minor` can be computed in `i128`, and its sign turned.
pub open spec fn minor_fits(a: int, b: int, c: int, d: int) -> bool {
    &&& fits_i128(a * b)
    &&& fits_i128(c * d)
    &&& fits_i128(a * b - c * d)
    &&& fits_i128(c * d - a * b)
}

fn minor_exec(a: i128, b: i128, c: i128, d: i128) -> (out: i128)
    requires
        minor_fits(a as int, b as int, c as int, d as int),
    ensures
        out == minor(a as int, b as int, c as int, d as int),
{
    let p: i128 = a * b;
    let q: i128 = c * d;
    p - q
}

proof fn lemma_dot3_scaled(k: int, a1: int, a2: int, a3: int, b1: int, b2: int, b3: int)
    ensures
        dot3(k * a1, k * a2, k * a3, b1, b2, b3) == k * dot3(a1, a2, a3, b1, b2, b3),
{
    assert((k * a1) * b1 == k * (a1 * b1)) by (nonlinear_arith);
    assert((k * a2) * b2 == k * (a2 * b2)) by (nonlinear_arith);
    assert((k * a3) * b3 == k * (a3 * b3)) by (nonlinear_arith);
    let t1 = a1 * b1;
    let t2 = a2 * b2;
    let t3 = a3 * b3;
    assert(k * t1 + k * t2 + k * t3 == k * (t1 + t2 + t3)) by (nonlinear_arith);
}

proof fn lemma_expand(x: int, y: int, z: int, w: int, k: int)
    by (nonlinear_arith)
    ensures
        (x * y - z * w) * k == x * y * k - z * w * k,
        k * (x * y - z * w) == x * y * k - z * w * k,
{
}

proof fn lemma_orders(x: int, y: int, z: int)
    by (nonlinear_arith)
    ensures
        x * z * y == x * y * z,
        y * x * z == x * y * z,
        y * z * x == x * y * z,
        z * x * y == x * y * z,
        z * y * x == x * y * z,
{
}

/// The determinant of the matrix with the rows `(a, b, c)`, `(d, e, f)` and
/// `(g, h, i)`, expanded along the first column.
pub open spec fn det3(a: int, b: int, c: int, d: int, e: int, f: int, g: int, h: int, i: int) -> int {
    (e * i - f * h) * a + (c * h - b * i) * d + (b * f - c * e) * g
}

proof fn lemma_determinant_forms(
    a: int,
    b: int,
    c: int,
    d: int,
    e: int,
    f: int,
    g: int,
    h: int,
    i: int,
)
    ensures
        (f * g - d * i) * b + (a * i - c * g) * e + (c * d - a * f) * h == det3(
            a,
            b,
            c,
            d,
            e,
            f,
            g,
            h,
            i,
        ),
        (d * h - e * g) * c + (b * g - a * h) * f + (a * e - b * d) * i == det3(
            a,
            b,
            c,
            d,
            e,
            f,
            g,
            h,
            i,
        ),
        a * (e * i - f * h) + b * (f * g - d * i) + c * (d * h - e * g) == det3(
            a,
            b,
            c,
            d,
            e,
            f,
            g,
            h,
            i,
        ),
        d * (c * h - b * i) + e * (a * i - c * g) + f * (b * g - a * h) == det3(
            a,
            b,
            c,
            d,
            e,
            f,
            g,
            h,
            i,
        ),
        g * (b * f - c * e) + h * (c * d - a * f) + i * (a * e - b * d) == det3(
            a,
            b,
            c,
            d,
            e,
            f,
            g,
            h,
            i,
        ),
{
    lemma_expand(e, i, f, h, a);
    lemma_expand(c, h, b, i, d);
    lemma_expand(b, f, c, e, g);
    lemma_expand(f, g, d, i, b);
    lemma_expand(a, i, c, g, e);
    lemma_expand(c, d, a, f, h);
    lemma_expand(d, h, e, g, c);
    lemma_expand(b, g, a, h, f);
    lemma_expand(a, e, b, d, i);
    lemma_orders(a, e, i);
    lemma_orders(b, f, g);
    lemma_orders(c, d, h);
    lemma_orders(c, e, g);
    lemma_orders(b, d, i);
    lemma_orders(a, f, h);
}

proof fn lemma_cofactors_left(
    a: int,
    b: int,
    c: int,
    d: int,
    e: int,
    f: int,
    g: int,
    h: int,
    i: int,
)
    ensures
        (e * i - f * h) * b + (c * h - b * i) * e + (b * f - c * e) * h == 0,
        (e * i - f * h) * c + (c * h - b * i) * f + (b * f - c * e) * i == 0,
        (f * g - d * i) * a + (a * i - c * g) * d + (c * d - a * f) * g == 0,
        (f * g - d * i) * c + (a * i - c * g) * f + (c * d - a * f) * i == 0,
        (d * h - e * g) * a + (b * g - a * h) * d + (a * e - b * d) * g == 0,
        (d * h - e * g) * b + (b * g - a * h) * e + (a * e - b * d) * h == 0,
{
    lemma_expand(e, i, f, h, b);
    lemma_orders(b, e, i);
    lemma_orders(b, f, h);
    lemma_expand(c, h, b, i, e);
    lemma_orders(c, e, h);
    lemma_expand(b, f, c, e, h);
    lemma_expand(e, i, f, h, c);
    lemma_orders(c, e, i);
    lemma_orders(c, f, h);
    lemma_expand(c, h, b, i, f);
    lemma_orders(b, f, i);
    lemma_expand(b, f, c, e, i);
    lemma_expand(f, g, d, i, a);
    lemma_orders(a, f, g);
    lemma_orders(a, d, i);
    lemma_expand(a, i, c, g, d);
    lemma_orders(c, d, g);
    lemma_expand(c, d, a, f, g);
    lemma_expand(f, g, d, i, c);
    lemma_orders(c, f, g);
    lemma_orders(c, d, i);
    lemma_expand(a, i, c, g, f);
    lemma_orders(a, f, i);
    lemma_expand(c, d, a, f, i);
    lemma_expand(d, h, e, g, a);
    lemma_orders(a, d, h);
    lemma_orders(a, e, g);
    lemma_expand(b, g, a, h, d);
    lemma_orders(b, d, g);
    lemma_expand(a, e, b, d, g);
    lemma_expand(d, h, e, g, b);
    lemma_orders(b, d, h);
    lemma_orders(b, e, g);
    lemma_expand(b, g, a, h, e);
    lemma_orders(a, e, h);
    lemma_expand(a, e, b, d, h);
}

proof fn lemma_cofactors_right(
    a: int,
    b: int,
    c: int,
    d: int,
    e: int,
    f: int,
    g: int,
    h: int,
    i: int,
)
    ensures
        a * (c * h - b * i) + b * (a * i - c * g) + c * (b * g - a * h) == 0,
        a * (b * f - c * e) + b * (c * d - a * f) + c * (a * e - b * d) == 0,
        d * (e * i - f * h) + e * (f * g - d * i) + f * (d * h - e * g) == 0,
        d * (b * f - c * e) + e * (c * d - a * f) + f * (a * e - b * d) == 0,
        g * (e * i - f * h) + h * (f * g - d * i) + i * (d * h - e * g) == 0,
        g * (c * h - b * i) + h * (a * i - c * g) + i * (b * g - a * h) == 0,
{
    lemma_expand(c, h, b, i, a);
    lemma_orders(a, c, h);
    lemma_orders(a, b, i);
    lemma_expand(a, i, c, g, b);
    lemma_orders(b, c, g);
    lemma_expand(b, g, a, h, c);
    lemma_expand(b, f, c, e, a);
    lemma_orders(a, b, f);
    lemma_orders(a, c, e);
    lemma_expand(c, d, a, f, b);
    lemma_orders(b, c, d);
    lemma_expand(a, e, b, d, c);
    lemma_expand(e, i, f, h, d);
    lemma_orders(d, e, i);
    lemma_orders(d, f, h);
    lemma_expand(f, g, d, i, e);
    lemma_orders(e, f, g);
    lemma_expand(d, h, e, g, f);
    lemma_expand(b, f, c, e, d);
    lemma_orders(b, d, f);
    lemma_orders(c, d, e);
    lemma_expand(c, d, a, f, e);
    lemma_orders(a, e, f);
    lemma_expand(a, e, b, d, f);
    lemma_expand(e, i, f, h, g);
    lemma_orders(e, g, i);
    lemma_orders(f, g, h);
    lemma_expand(f, g, d, i, h);
    lemma_orders(d, h, i);
    lemma_expand(d, h, e, g, i);
    lemma_expand(c, h, b, i, g);
    lemma_orders(c, g, h);
    lemma_orders(b, g, i);
    lemma_expand(a, i, c, g, h);
    lemma_orders(a, h, i);
    lemma_expand(b, g, a, h, i);
}

impl IntPoint3 {
    /// The point `(x, y)` as a triple.
    pub open spec fn of_point(x: int, y: int) -> IntPoint3 {
        IntPoint3 { x, y, z: 1 }
    }

    /// The x coordinate of the point of the plane that the triple is,
    /// rounded down.
    pub open spec fn plane_x(self) -> int {
        self.x / self.z
    }

    /// The y coordinate of the point of the plane that the triple is,
    /// rounded down.
    pub open spec fn plane_y(self) -> int {
        self.y / self.z
    }
}

impl IntMatrix3 {
    /// The matrix that maps every triple to itself.
    pub open spec fn identity() -> IntMatrix3 {
        IntMatrix3 { m11: 1, m12: 0, m13: 0, m21: 0, m22: 1, m23: 0, m31: 0, m32: 0, m33: 1 }
    }

    /// Every entry multiplied by `k`.
    pub open spec fn scaled(self, k: int) -> IntMatrix3 {
        IntMatrix3 {
            m11: k * self.m11,
            m12: k * self.m12,
            m13: k * self.m13,
            m21: k * self.m21,
            m22: k * self.m22,
            m23: k * self.m23,
            m31: k * self.m31,
            m32: k * self.m32,
            m33: k * self.m33,
        }
    }

    /// The matrix product `self · rhs`: the map that applies `rhs` first and
    /// `self` second.
    pub open spec fn compose(self, rhs: IntMatrix3) -> IntMatrix3 {
        IntMatrix3 {
            m11: dot3(self.m11, self.m12, self.m13, rhs.m11, rhs.m21, rhs.m31),
            m12: dot3(self.m11, self.m12, self.m13, rhs.m12, rhs.m22, rhs.m32),
            m13: dot3(self.m11, self.m12, self.m13, rhs.m13, rhs.m23, rhs.m33),
            m21: dot3(self.m21, self.m22, self.m23, rhs.m11, rhs.m21, rhs.m31),
            m22: dot3(self.m21, self.m22, self.m23, rhs.m12, rhs.m22, rhs.m32),
            m23: dot3(self.m21, self.m22, self.m23, rhs.m13, rhs.m23, rhs.m33),
            m31: dot3(self.m31, self.m32, self.m33, rhs.m11, rhs.m21, rhs.m31),
            m32: dot3(self.m31, self.m32, self.m33, rhs.m12, rhs.m22, rhs.m32),
            m33: dot3(self.m31, self.m32, self.m33, rhs.m13, rhs.m23, rhs.m33),
        }
    }

    /// Whether `compose` can be computed in `i128`.
    pub open spec fn compose_fits(self, rhs: IntMatrix3) -> bool {
        &&& dot3_fits(self.m11, self.m12, self.m13, rhs.m11, rhs.m21, rhs.m31)
        &&& dot3_fits(self.m11, self.m12, self.m13, rhs.m12, rhs.m22, rhs.m32)
        &&& dot3_fits(self.m11, self.m12, self.m13, rhs.m13, rhs.m23, rhs.m33)
        &&& dot3_fits(self.m21, self.m22, self.m23, rhs.m11, rhs.m21, rhs.m31)
        &&& dot3_fits(self.m21, self.m22, self.m23, rhs.m12, rhs.m22, rhs.m32)
        &&& dot3_fits(self.m21, self.m22, self.m23, rhs.m13, rhs.m23, rhs.m33)
        &&& dot3_fits(self.m31, self.m32, self.m33, rhs.m11, rhs.m21, rhs.m31)
        &&& dot3_fits(self.m31, self.m32, self.m33, rhs.m12, rhs.m22, rhs.m32)
        &&& dot3_fits(self.m31, self.m32, self.m33, rhs.m13, rhs.m23, rhs.m33)
    }

    /// The matrix product `self · p`.
    pub open spec fn apply(self, p: IntPoint3) -> IntPoint3 {
        IntPoint3 {
            x: dot3(self.m11, self.m12, self.m13, p.x, p.y, p.z),
            y: dot3(self.m21, self.m22, self.m23, p.x, p.y, p.z),
            z: dot3(self.m31, self.m32, self.m33, p.x, p.y, p.z),
        }
    }

    /// Whether `apply` can be computed in `i128`.
    pub open spec fn apply_fits(self, p: IntPoint3) -> bool {
        &&& dot3_fits(self.m11, self.m12, self.m13, p.x, p.y, p.z)
        &&& dot3_fits(self.m21, self.m22, self.m23, p.x, p.y, p.z)
        &&& dot3_fits(self.m31, self.m32, self.m33, p.x, p.y, p.z)
    }

    /// The matrix of cofactors, transposed: its product with `self`, in
    /// either order, is the identity multiplied by the determinant.
    pub open spec fn adjugate(self) -> IntMatrix3 {
        IntMatrix3 {
            m11: minor(self.m22, self.m33, self.m23, self.m32),
            m12: minor(self.m13, self.m32, self.m12, self.m33),
            m13: minor(self.m12, self.m23, self.m13, self.m22),
            m21: minor(self.m23, self.m31, self.m21, self.m33),
            m22: minor(self.m11, self.m33, self.m13, self.m31),
            m23: minor(self.m13, self.m21, self.m11, self.m23),
            m31: minor(self.m21, self.m32, self.m22, self.m31),
            m32: minor(self.m12, self.m31, self.m11, self.m32),
            m33: minor(self.m11, self.m22, self.m12, self.m21),
        }
    }

    /// The determinant, expanded along the first column.
    pub open spec fn determinant(self) -> int {
        dot3(
            self.adjugate().m11,
            self.adjugate().m12,
            self.adjugate().m13,
            self.m11,
            self.m21,
            self.m31,
        )
    }

    /// The matrix that undoes `self`, where the determinant is not zero: the
    /// adjugate, with its sign turned where the determinant is below zero,
    /// so that its product with `self` is the identity multiplied by a
    /// number above zero.
    pub open spec fn inverse(self) -> IntMatrix3 {
        if self.determinant() < 0 {
            self.adjugate().scaled(-1)
        } else {
            self.adjugate()
        }
    }

    /// Whether the adjugate and the determinant can be computed in `i128`,
    /// and the sign of the adjugate turned.
    pub open spec fn inverse_fits(self) -> bool {
        &&& minor_fits(self.m22, self.m33, self.m23, self.m32)
        &&& minor_fits(self.m13, self.m32, self.m12, self.m33)
        &&& minor_fits(self.m12, self.m23, self.m13, self.m22)
        &&& minor_fits(self.m23, self.m31, self.m21, self.m33)
        &&& minor_fits(self.m11, self.m33, self.m13, self.m31)
        &&& minor_fits(self.m13, self.m21, self.m11, self.m23)
        &&& minor_fits(self.m21, self.m32, self.m22, self.m31)
        &&& minor_fits(self.m12, self.m31, self.m11, self.m32)
        &&& minor_fits(self.m11, self.m22, self.m12, self.m21)
        &&& dot3_fits(
            self.adjugate().m11,
            self.adjugate().m12,
            self.adjugate().m13,
            self.m11,
            self.m21,
            self.m31,
        )
    }
}

impl IntMatrix3 {
    /// Whether every entry lies within `l` of zero.
    pub open spec fn bounded(self, l: int) -> bool {
        &&& -l <= self.m11 <= l
        &&& -l <= self.m12 <= l
        &&& -l <= self.m13 <= l
        &&& -l <= self.m21 <= l
        &&& -l <= self.m22 <= l
        &&& -l <= self.m23 <= l
        &&& -l <= self.m31 <= l
        &&& -l <= self.m32 <= l
        &&& -l <= self.m33 <= l
    }

    /// A matrix multiplied by `k` takes every triple to `k` times where the
    /// matrix takes it: to the same point of the plane, where `k` is not
    /// zero.
    pub proof fn lemma_scaled_apply(self, k: int, p: IntPoint3)
        ensures
            self.scaled(k).apply(p) == (IntPoint3 {
                x: k * self.apply(p).x,
                y: k * self.apply(p).y,
                z: k * self.apply(p).z,
            }),
    {
        lemma_dot3_scaled(k, self.m11, self.m12, self.m13, p.x, p.y, p.z);
        lemma_dot3_scaled(k, self.m21, self.m22, self.m23, p.x, p.y, p.z);
        lemma_dot3_scaled(k, self.m31, self.m32, self.m33, p.x, p.y, p.z);
    }

    /// The adjugate undoes the matrix up to the determinant: either product
    /// is the identity multiplied by the determinant.
    pub proof fn lemma_adjugate_inverts(self)
        ensures
            self.adjugate().compose(self) == IntMatrix3::identity().scaled(self.determinant()),
            self.compose(self.adjugate()) == IntMatrix3::identity().scaled(self.determinant()),
    {
        let a = self.m11;
        let b = self.m12;
        let c = self.m13;
        let d = self.m21;
        let e = self.m22;
        let f = self.m23;
        let g = self.m31;
        let h = self.m32;
        let i = self.m33;
        let det = self.determinant();
        lemma_determinant_forms(a, b, c, d, e, f, g, h, i);
        lemma_cofactors_left(a, b, c, d, e, f, g, h, i);
        lemma_cofactors_right(a, b, c, d, e, f, g, h, i);
        lemma_zero_product(0, det);
        assert(det * 1 == det) by (nonlinear_arith);
        let left = self.adjugate().compose(self);
        assert(left.m11 == det && left.m12 == 0 && left.m13 == 0);
        assert(left.m21 == 0 && left.m22 == det && left.m23 == 0);
        assert(left.m31 == 0 && left.m32 == 0 && left.m33 == det);
        let right = self.compose(self.adjugate());
        assert(right.m11 == det && right.m12 == 0 && right.m13 == 0);
        assert(right.m21 == 0 && right.m22 == det && right.m23 == 0);
        assert(right.m31 == 0 && right.m32 == 0 && right.m33 == det);
    }

    /// The product of two matrices with entries within `la` and within `lb`
    /// of zero can be computed in `i128` if three times `la * lb` can be held
    /// there, and its entries lie within that bound.
    pub proof fn lemma_compose_fits(self, rhs: IntMatrix3, la: int, lb: int)
        requires
            self.bounded(la),
            rhs.bounded(lb),
            3 * (la * lb) <= i128::MAX,
        ensures
            self.compose_fits(rhs),
            self.compose(rhs).bounded(3 * (la * lb)),
    {
        lemma_dot3_fits(self.m11, self.m12, self.m13, rhs.m11, rhs.m21, rhs.m31, la, lb);
        lemma_dot3_fits(self.m11, self.m12, self.m13, rhs.m12, rhs.m22, rhs.m32, la, lb);
        lemma_dot3_fits(self.m11, self.m12, self.m13, rhs.m13, rhs.m23, rhs.m33, la, lb);
        lemma_dot3_fits(self.m21, self.m22, self.m23, rhs.m11, rhs.m21, rhs.m31, la, lb);
        lemma_dot3_fits(self.m21, self.m22, self.m23, rhs.m12, rhs.m22, rhs.m32, la, lb);
        lemma_dot3_fits(self.m21, self.m22, self.m23, rhs.m13, rhs.m23, rhs.m33, la, lb);
        lemma_dot3_fits(self.m31, self.m32, self.m33, rhs.m11, rhs.m21, rhs.m31, la, lb);
        lemma_dot3_fits(self.m31, self.m32, self.m33, rhs.m12, rhs.m22, rhs.m32, la, lb);
        lemma_dot3_fits(self.m31, self.m32, self.m33, rhs.m13, rhs.m23, rhs.m33, la, lb);
    }

    /// The product of a matrix with entries within `la` of zero and a triple
    /// with coordinates within `lb` of zero can be computed in `i128` if
    /// three times `la * lb` can be held there.
    pub proof fn lemma_apply_fits(self, p: IntPoint3, la: int, lb: int)
        requires
            self.bounded(la),
            -lb <= p.x <= lb,
            -lb <= p.y <= lb,
            -lb <= p.z <= lb,
            3 * (la * lb) <= i128::MAX,
        ensures
            self.apply_fits(p),
    {
        lemma_dot3_fits(self.m11, self.m12, self.m13, p.x, p.y, p.z, la, lb);
        lemma_dot3_fits(self.m21, self.m22, self.m23, p.x, p.y, p.z, la, lb);
        lemma_dot3_fits(self.m31, self.m32, self.m33, p.x, p.y, p.z, la, lb);
    }
}

impl Point2 {
    pub fn new(x: i64, y: i64) -> (out: Point2)
        ensures
            out.x == x,
            out.y == y,
    {
        Point2 { x, y }
    }

    /// Whether both coordinates lie within `COORD_MAX` of zero.
    pub open spec fn in_range(self) -> bool {
        is_coord(self.x as int) && is_coord(self.y as int)
    }

    /// Whether both coordinates lie within `COORD_MAX` of zero.
    pub fn is_in_range(&self) -> (out: bool)
        ensures
            out == self.in_range(),
    {
        -COORD_MAX <= self.x && self.x <= COORD_MAX && -COORD_MAX <= self.y && self.y <= COORD_MAX
    }

    /// The triple `(x, y, 1)`.
    pub fn to_homogeneous(&self) -> (out: Point3)
        ensures
            out@ == IntPoint3::of_point(self.x as int, self.y as int),
    {
        Point3 { x: self.x as i128, y: self.y as i128, z: 1 }
    }
}

impl Vector2 {
    pub fn new(x: i64, y: i64) -> (out: Vector2)
        ensures
            out.x == x,
            out.y == y,
    {
        Vector2 { x, y }
    }
}

impl View for Point3 {
    type V = IntPoint3;

    open spec fn view(&self) -> IntPoint3 {
        IntPoint3 { x: self.x as int, y: self.y as int, z: self.z as int }
    }
}

impl Point3 {
    pub fn new(x: i128, y: i128, z: i128) -> (out: Point3)
        ensures
            out.x == x,
            out.y == y,
            out.z == z,
    {
        Point3 { x, y, z }
    }

    /// Whether the triple is a point of the plane whose coordinates, rounded
    /// down, can be held in a `Point2`.
    pub open spec fn is_point(self) -> bool {
        &&& self.z > 0
        &&& self.x > i128::MIN
        &&& self.y > i128::MIN
        &&& i64::MIN <= self@.plane_x() <= i64::MAX
        &&& i64::MIN <= self@.plane_y() <= i64::MAX
    }

    /// The point of the plane that the triple is, each coordinate rounded
    /// down to a whole number of units.
    pub fn to_point(&self) -> (out: Point2)
        requires
            self.is_point(),
        ensures
            out.x == self@.plane_x(),
            out.y == self@.plane_y(),
    {
        let x: i128 = floor_div(self.x, self.z);
        let y: i128 = floor_div(self.y, self.z);
        Point2 { x: x as i64, y: y as i64 }
    }
}

impl View for Matrix3 {
    type V = IntMatrix3;

    open spec fn view(&self) -> IntMatrix3 {
        IntMatrix3 {
            m11: self.m11 as int,
            m12: self.m12 as int,
            m13: self.m13 as int,
            m21: self.m21 as int,
            m22: self.m22 as int,
            m23: self.m23 as int,
            m31: self.m31 as int,
            m32: self.m32 as int,
            m33: self.m33 as int,
        }
    }
}

impl Matrix3 {
    /// The matrix with the given entries, listed row by row.
    pub fn new(
        m11: i128,
        m12: i128,
        m13: i128,
        m21: i128,
        m22: i128,
        m23: i128,
        m31: i128,
        m32: i128,
        m33: i128,
    ) -> (out: Matrix3)
        ensures
            out == (Matrix3 { m11, m12, m13, m21, m22, m23, m31, m32, m33 }),
    {
        Matrix3 { m11, m12, m13, m21, m22, m23, m31, m32, m33 }
    }

    /// The matrix that maps every triple to itself.
    pub fn identity() -> (out: Matrix3)
        ensures
            out@ == IntMatrix3::identity(),
    {
        Matrix3 { m11: 1, m12: 0, m13: 0, m21: 0, m22: 1, m23: 0, m31: 0, m32: 0, m33: 1 }
    }

    /// The matrix product `self · rhs`.
    pub fn compose(&self, rhs: &Matrix3) -> (out: Matrix3)
        requires
            self@.compose_fits(rhs@),
        ensures
            out@ == self@.compose(rhs@),
    {
        Matrix3 {
            m11: dot3_exec(self.m11, self.m12, self.m13, rhs.m11, rhs.m21, rhs.m31),
            m12: dot3_exec(self.m11, self.m12, self.m13, rhs.m12, rhs.m22, rhs.m32),
            m13: dot3_exec(self.m11, self.m12, self.m13, rhs.m13, rhs.m23, rhs.m33),
            m21: dot3_exec(self.m21, self.m22, self.m23, rhs.m11, rhs.m21, rhs.m31),
            m22: dot3_exec(self.m21, self.m22, self.m23, rhs.m12, rhs.m22, rhs.m32),
            m23: dot3_exec(self.m21, self.m22, self.m23, rhs.m13, rhs.m23, rhs.m33),
            m31: dot3_exec(self.m31, self.m32, self.m33, rhs.m11, rhs.m21, rhs.m31),
            m32: dot3_exec(self.m31, self.m32, self.m33, rhs.m12, rhs.m22, rhs.m32),
            m33: dot3_exec(self.m31, self.m32, self.m33, rhs.m13, rhs.m23, rhs.m33),
        }
    }

    /// The matrix product `self · p`.
    pub fn transform_point(&self, p: &Point3) -> (out: Point3)
        requires
            self@.apply_fits(p@),
        ensures
            out@ == self@.apply(p@),
    {
        Point3 {
            x: dot3_exec(self.m11, self.m12, self.m13, p.x, p.y, p.z),
            y: dot3_exec(self.m21, self.m22, self.m23, p.x, p.y, p.z),
            z: dot3_exec(self.m31, self.m32, self.m33, p.x, p.y, p.z),
        }
    }
    /// The matrix that undoes `self`, or `None` where there is none: where
    /// the determinant is zero.
    pub fn try_inverse(&self) -> (out: Option<Matrix3>)
        requires
            self@.inverse_fits(),
        ensures
            out.is_none() <==> self@.determinant() == 0,
            out matches Some(inverse) ==> inverse@ == self@.inverse(),
    {
        let c11: i128 = minor_exec(self.m22, self.m33, self.m23, self.m32);
        let c12: i128 = minor_exec(self.m13, self.m32, self.m12, self.m33);
        let c13: i128 = minor_exec(self.m12, self.m23, self.m13, self.m22);
        let c21: i128 = minor_exec(self.m23, self.m31, self.m21, self.m33);
        let c22: i128 = minor_exec(self.m11, self.m33, self.m13, self.m31);
        let c23: i128 = minor_exec(self.m13, self.m21, self.m11, self.m23);
        let c31: i128 = minor_exec(self.m21, self.m32, self.m22, self.m31);
        let c32: i128 = minor_exec(self.m12, self.m31, self.m11, self.m32);
        let c33: i128 = minor_exec(self.m11, self.m22, self.m12, self.m21);
        let det: i128 = dot3_exec(c11, c12, c13, self.m11, self.m21, self.m31);
        if det == 0 {
            None
        } else if det < 0 {
            Some(
                Matrix3 {
                    m11: -c11,
                    m12: -c12,
                    m13: -c13,
                    m21: -c21,
                    m22: -c22,
                    m23: -c23,
                    m31: -c31,
                    m32: -c32,
                    m33: -c33,
                },
            )
        } else {
            Some(
                Matrix3 {
                    m11: c11,
                    m12: c12,
                    m13: c13,
                    m21: c21,
                    m22: c22,
                    m23: c23,
                    m31: c31,
                    m32: c32,
                    m33: c33,
                },
            )
        }
    }
}

} // verus!
