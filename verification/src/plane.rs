//! Mapping pixels of the image grid to points of the complex plane.
//!
//! A pixel `(x, y)` of a `width x height` image is mapped to the centre of
//! its cell in a rectangular viewport: the real part grows with the column,
//! while the imaginary part shrinks with the row (row 0 is the top of the
//! image and carries the maximum imaginary value).

use crate::complex::{Complex, COORD_MAX};
use vstd::arithmetic::div_mod::lemma_fundamental_div_mod;
use vstd::arithmetic::mul::lemma_mul_inequality;
use vstd::prelude::*;

verus! {

/// A rectangular region of the complex plane, in fixed-point coordinates,
/// constant for a single render.
#[derive(Clone, Copy, Debug, PartialEq, Eq, Structural)]
pub struct Viewport {
    pub re_lower: i64,
    pub re_upper: i64,
    pub im_lower: i64,
    pub im_upper: i64,
}

impl Viewport {
    /// The bounds are ordered on both axes and lie within the working
    /// coordinate range of the library.
    pub open spec fn wf(self) -> bool {
        &&& -COORD_MAX <= self.re_lower <= self.re_upper <= COORD_MAX
        &&& -COORD_MAX <= self.im_lower <= self.im_upper <= COORD_MAX
    }

    pub fn new(re_lower: i64, re_upper: i64, im_lower: i64, im_upper: i64) -> (v: Viewport)
        requires
            -COORD_MAX <= re_lower <= re_upper <= COORD_MAX,
            -COORD_MAX <= im_lower <= im_upper <= COORD_MAX,
        ensures
            v == (Viewport {
                re_lower: re_lower,
                re_upper: re_upper,
                im_lower: im_lower,
                im_upper: im_upper,
            }),
            v.wf(),
    {
        Viewport { re_lower: re_lower, re_upper: re_upper, im_lower: im_lower, im_upper: im_upper }
    }
}

/// Width of one pixel cell in fixed-point plane units (rounded down).
pub open spec fn cell_width(vp: Viewport, width: nat) -> int {
    (vp.re_upper - vp.re_lower) / width as int
}

/// Height of one pixel cell in fixed-point plane units (rounded down).
pub open spec fn cell_height(vp: Viewport, height: nat) -> int {
    (vp.im_upper - vp.im_lower) / height as int
}

/// Real part of the centre of the cell of column `x`: columns run
/// left-to-right towards the upper real bound.
pub open spec fn mapped_re(vp: Viewport, width: nat, x: nat) -> int {
    vp.re_lower + x * cell_width(vp, width) + cell_width(vp, width) / 2
}

/// Imaginary part of the centre of the cell of row `y`: rows run
/// top-to-bottom, and the imaginary value decreases with the row, so row 0
/// sits just under the upper imaginary bound.
pub open spec fn mapped_im(vp: Viewport, height: nat, y: nat) -> int {
    vp.im_upper - y * cell_height(vp, height) - cell_height(vp, height) / 2
}

/// A pixel offset of `steps` cells plus half a cell never leaves the span
/// the cells were cut from.
proof fn lemma_offset_in_span(span: int, count: int, steps: int)
    requires
        0 <= span,
        1 <= count,
        0 <= steps < count,
    ensures
        0 <= steps * (span / count) + (span / count) / 2 <= span,
{
    let cell: int = span / count;
    lemma_fundamental_div_mod(span, count);
    lemma_fundamental_div_mod(cell, 2);
    assert(cell >= 0) by (nonlinear_arith)
        requires
            span == count * cell + span % count,
            0 <= span % count < count,
            0 <= span,
            1 <= count,
    ;
    lemma_mul_inequality(steps + 1, count, cell);
    assert(steps * cell + cell == (steps + 1) * cell) by (nonlinear_arith);
    assert(count * cell == cell * count) by (nonlinear_arith);
    assert(steps * cell >= 0) by (nonlinear_arith)
        requires
            steps >= 0,
            cell >= 0,
    ;
}

/// Map pixel `(x, y)` of a `width x height` image onto the centre of its
/// cell in the viewport. The result always lies inside the viewport box.
pub fn map_pixel_to_complex(
    x: usize,
    y: usize,
    width: usize,
    height: usize,
    viewport: &Viewport,
) -> (c: Complex)
    requires
        viewport.wf(),
        1 <= width,
        1 <= height,
        x < width,
        y < height,
    ensures
        c@.0 == mapped_re(*viewport, width as nat, x as nat),
        c@.1 == mapped_im(*viewport, height as nat, y as nat),
        viewport.re_lower <= c@.0 <= viewport.re_upper,
        viewport.im_lower <= c@.1 <= viewport.im_upper,
        c.wf(),
{
    let span_re: u64 = (viewport.re_upper - viewport.re_lower) as u64;
    let span_im: u64 = (viewport.im_upper - viewport.im_lower) as u64;
    let dx: u64 = span_re / (width as u64);
    let dy: u64 = span_im / (height as u64);
    proof {
        lemma_offset_in_span(span_re as int, width as int, x as int);
        lemma_offset_in_span(span_im as int, height as int, y as int);
    }
    let off_x: u64 = (x as u64) * dx + dx / 2;
    let off_y: u64 = (y as u64) * dy + dy / 2;
    let re: i64 = viewport.re_lower + (off_x as i64);
    let im: i64 = viewport.im_upper - (off_y as i64);
    Complex::new(re, im)
}

} // verus!
