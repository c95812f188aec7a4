//! Whole-number units.
//!
//! Every length and position is a whole number of world units, and every
//! scale factor a whole number of thousandths. Nothing is rounded until a
//! quotient has to be handed out as a whole number, and then it is rounded
//! down, once.

use vstd::prelude::*;
use vstd::arithmetic::div_mod::{
    lemma_div_is_ordered,
    lemma_div_multiples_vanish,
    lemma_fundamental_div_mod,
    lemma_fundamental_div_mod_converse,
    lemma_mod_bound,
};

verus! {

/// The length of one pixel, in world units.
pub const PIXEL: i64 = 1_000_000;

/// The scale factor one: scale factors count thousandths.
pub const SCALE_ONE: i64 = 1_000;

/// The largest magnitude of a coordinate or of a length with which the
/// matrices, the rectangles and the view of this crate compute: a million
/// pixels either way. A position may lie beyond it; what computes with it
/// asks for the range.
pub const COORD_MAX: i64 = 1_000_000_000_000;

/// The largest scale factor with which the matrices, the rectangles and the
/// view of this crate compute: a thousandfold. A scale may lie beyond it;
/// what computes with it asks for the range.
pub const SCALE_MAX: i64 = 1_000_000;

/// Whether `v` can be held in an `i128`.
pub open spec fn fits_i128(v: int) -> bool {
    i128::MIN <= v <= i128::MAX
}

/// Whether `v` lies within `COORD_MAX` of zero.
pub open spec fn is_coord(v: int) -> bool {
    -COORD_MAX <= v <= COORD_MAX
}

/// Whether `v` is a scale factor above zero and not above `SCALE_MAX`.
pub open spec fn is_scale(v: int) -> bool {
    0 < v <= SCALE_MAX
}

proof fn lemma_floor_of_negative(m: int, d: int)
    by (nonlinear_arith)
    requires
        d > 0,
        m > 0,
    ensures
        (-m) / d == -((m - 1) / d) - 1,
{
}

/// A product lies no further from zero than the product of the bounds of
/// its factors.
pub proof fn lemma_product_bound(a: int, b: int, la: int, lb: int)
    by (nonlinear_arith)
    requires
        -la <= a <= la,
        -lb <= b <= lb,
    ensures
        -(la * lb) <= a * b <= la * lb,
{
}

/// A product with a factor zero is zero.
pub proof fn lemma_zero_product(a: int, b: int)
    by (nonlinear_arith)
    requires
        a == 0,
    ensures
        a * b == 0,
        b * a == 0,
{
}

/// Twice the scale factor one, times `a`, is two thousand times `a`.
pub proof fn lemma_unit_product(a: int)
    by (nonlinear_arith)
    requires
        SCALE_ONE == 1000,
    ensures
        2 * SCALE_ONE * a == 2000 * a,
        SCALE_ONE * a == 1000 * a,
        a * SCALE_ONE == 1000 * a,
{
}

/// A factor above zero that the two sides of a quotient share can be left
/// out.
pub proof fn lemma_cancel_common_factor(k: int, a: int, d: int)
    requires
        k > 0,
        d > 0,
    ensures
        k * d > 0,
        (k * a) / (k * d) == a / d,
{
    let q = a / d;
    let r = a % d;
    lemma_fundamental_div_mod(a, d);
    lemma_mod_bound(a, d);
    assert(k * d > 0) by (nonlinear_arith)
        requires
            k > 0,
            d > 0,
    ;
    assert(k * a == q * (k * d) + k * r) by (nonlinear_arith)
        requires
            a == d * q + r,
    ;
    assert(0 <= k * r < k * d) by (nonlinear_arith)
        requires
            0 <= r < d,
            k > 0,
    ;
    lemma_fundamental_div_mod_converse(k * a, k * d, q, k * r);
}

/// A quotient by `d` lies within `l` of zero if what was divided lies within
/// `d * l` of zero.
pub proof fn lemma_quotient_within(a: int, d: int, l: int)
    requires
        d > 0,
        -(d * l) <= a <= d * l,
    ensures
        -l <= a / d <= l,
{
    lemma_div_is_ordered(a, d * l, d);
    lemma_div_multiples_vanish(l, d);
    assert(d * (-l) == -(d * l)) by (nonlinear_arith);
    lemma_div_is_ordered(d * (-l), a, d);
    lemma_div_multiples_vanish(-l, d);
}

/// A quotient by a whole number above zero lies no further from zero than
/// what was divided.
pub proof fn lemma_quotient_bound(a: int, d: int, l: int)
    requires
        d > 0,
        -l <= a <= l,
    ensures
        -l <= a / d <= l,
{
    assert(d * l >= l) by (nonlinear_arith)
        requires
            d >= 1,
            l >= 0,
    ;
    lemma_quotient_within(a, d, l);
}

/// The quotient of `n` by `d`, rounded down.
pub fn floor_div(n: i128, d: i128) -> (q: i128)
    requires
        d > 0,
        n > i128::MIN,
    ensures
        q == (n as int) / (d as int),
{
    if n >= 0 {
        n / d
    } else {
        let m: i128 = -n;
        let t: i128 = (m - 1) / d;
        proof {
            lemma_floor_of_negative(m as int, d as int);
        }
        -t - 1
    }
}

} // verus!
