//! Pure grid-to-surface coordinate mapping.
//!
//! A grid of `grid_width` columns is laid out on a surface of width
//! `surface_width` by cutting the surface into `grid_width + 1` equal
//! spacings; column `c` sits at `spacing * (c + 1)`, which leaves a
//! one-spacing margin at both edges. Rows are laid out the same way along the
//! surface height. Spacings and coordinates are kept as exact fractions of
//! the surface dimensions, never rounded here.

use vstd::prelude::*;

verus! {

/// The distance between two adjacent grid columns (or rows), as the exact
/// fraction `num / den` of drawing units.
#[derive(Clone, Copy, PartialEq, Eq, Structural, Debug)]
pub struct Spacing {
    pub num: u32,
    pub den: u32,
}

/// An exact surface coordinate, `num / den` drawing units from the origin.
#[derive(Clone, Copy, PartialEq, Eq, Structural, Debug)]
pub struct Coord {
    pub num: i64,
    pub den: u32,
}

/// Numerator of the coordinate of grid index `c` under a spacing whose
/// numerator is `spacing_num`: the mapped coordinate is
/// `spacing_num * (c + 1)` over the spacing's denominator.
pub open spec fn point_num(spacing_num: int, c: int) -> int {
    spacing_num * (c + 1)
}

/// Maps a grid cell `(col, row)` to its exact surface position under the
/// given column and row spacings.
pub fn cell_to_point(cell: (i16, i16), x_spacing: Spacing, y_spacing: Spacing) -> (p: (
    Coord,
    Coord,
))
    ensures
        p.0.num == point_num(x_spacing.num as int, cell.0 as int),
        p.0.den == x_spacing.den,
        p.1.num == point_num(y_spacing.num as int, cell.1 as int),
        p.1.den == y_spacing.den,
{
    proof {
        lemma_spacing_product_fits(x_spacing.num as int, cell.0 as int);
        lemma_spacing_product_fits(y_spacing.num as int, cell.1 as int);
    }
    let x_num: i64 = (x_spacing.num as i64) * ((cell.0 as i64) + 1);
    let y_num: i64 = (y_spacing.num as i64) * ((cell.1 as i64) + 1);
    (Coord { num: x_num, den: x_spacing.den }, Coord { num: y_num, den: y_spacing.den })
}

/// A spacing numerator (at most `u32::MAX`) times a grid index offset (a
/// 16-bit-range value plus one) stays far inside the 64-bit range.
pub(crate) proof fn lemma_spacing_product_fits(num: int, c: int)
    requires
        0 <= num <= 0xffff_ffff,
        -0x8000 <= c <= 0xffff,
    ensures
        -0x8000_0000_0000_0000 <= num * (c + 1) <= 0x7fff_ffff_ffff_ffff,
{
    assert(-0x8000_0000_0000_0000 <= num * (c + 1) <= 0x7fff_ffff_ffff_ffff)
        by (nonlinear_arith)
        requires
            0 <= num <= 0xffff_ffff,
            -0x8000 <= c <= 0xffff,
    ;
}

/// On a surface of width `w`, a grid `gw` columns wide has its first and its
/// last column mapped strictly inside `(0, w)`, with at least one spacing
/// unit of margin at both edges. Coordinates carry the denominator `gw + 1`,
/// so `x` lies strictly inside `(0, w)` exactly when its numerator lies
/// strictly inside `(0, w * (gw + 1))`, and one spacing unit is `w` in
/// numerator terms.
pub proof fn lemma_first_last_column_inside(w: int, gw: int, col: int)
    requires
        w >= 1,
        gw >= 1,
        col == 0 || col == gw - 1,
    ensures
        point_num(w, col) >= w,
        w * (gw + 1) - point_num(w, col) >= w,
        0 < point_num(w, col) < w * (gw + 1),
{
    assert(w * (col + 1) >= w && w * (gw + 1) - w * (col + 1) >= w && 0 < w * (col + 1) && w * (
    col + 1) < w * (gw + 1)) by (nonlinear_arith)
        requires
            w >= 1,
            gw >= 1,
            col == 0 || col == gw - 1,
    ;
}

} // verus!
