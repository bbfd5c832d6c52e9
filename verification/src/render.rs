//! The render driver: run the escape-time evaluation for every pixel of the
//! grid and colour the ones that diverge.
//!
//! A diverging pixel receives the palette intensity for its iteration count
//! on the red channel; a non-diverging pixel is left exactly as the canvas
//! had it (by convention its default, "inside the set" value).

use crate::canvas::{Canvas, Pixel};
use crate::complex::Complex;
use crate::escape::{iterate, lemma_run_bounds, outcome, IterationResult};
use crate::palette::{build_palette, palette_intensity};
use crate::plane::{map_pixel_to_complex, mapped_im, mapped_re, Viewport};
use vstd::prelude::*;

verus! {

/// The colour of a pixel that diverged at step `count` under a budget of
/// `max_iterations`: the palette intensity on the red channel.
pub open spec fn divergence_color(count: nat, max_iterations: nat) -> Pixel {
    Pixel { red: palette_intensity(count + 1, max_iterations) as u8, green: 0, blue: 0 }
}

/// What one render pass leaves at pixel `(x, y)` of a `width x height`
/// canvas whose pixel held `base` before: the divergence colour if the
/// mapped point diverges, the old value otherwise.
pub open spec fn rendered_pixel(
    vp: Viewport,
    width: nat,
    height: nat,
    max_iterations: nat,
    x: int,
    y: int,
    base: Pixel,
) -> Pixel {
    let c = (mapped_re(vp, width, x as nat), mapped_im(vp, height, y as nat));
    let o = outcome(c, max_iterations);
    if o.0 {
        divergence_color(o.1, max_iterations)
    } else {
        base
    }
}

/// Render the viewport onto the canvas: every pixel of the grid is mapped
/// to the centre of its cell, evaluated for escape under `max_iterations`,
/// and overwritten with the palette colour exactly when it diverges.
pub fn render(canvas: &mut Canvas, viewport: &Viewport, max_iterations: usize)
    requires
        old(canvas).wf(),
        1 <= old(canvas).width,
        1 <= old(canvas).height,
        viewport.wf(),
        1 <= max_iterations,
    ensures
        final(canvas).wf(),
        final(canvas).width == old(canvas).width,
        final(canvas).height == old(canvas).height,
        forall|x: int, y: int|
            0 <= x < old(canvas).width && 0 <= y < old(canvas).height
                ==> #[trigger] final(canvas).pixel_at(x, y) == rendered_pixel(
                *viewport,
                old(canvas).width as nat,
                old(canvas).height as nat,
                max_iterations as nat,
                x,
                y,
                old(canvas).pixel_at(x, y),
            ),
{
    let palette: Vec<u8> = build_palette(max_iterations);
    let width: usize = canvas.width;
    let height: usize = canvas.height;
    let ghost canvas0: Canvas = *canvas;
    let mut row: usize = 0;
    while row < height
        invariant
            canvas.wf(),
            canvas.width == width,
            canvas.height == height,
            canvas0.wf(),
            canvas0.width == width,
            canvas0.height == height,
            viewport.wf(),
            1 <= width,
            1 <= height,
            1 <= max_iterations,
            palette@.len() == max_iterations,
            forall|i: int|
                0 <= i < max_iterations ==> palette@[i] as nat == palette_intensity(
                    (i + 1) as nat,
                    max_iterations as nat,
                ),
            row <= height,
            forall|x: int, y: int|
                0 <= x < width && 0 <= y < height ==> #[trigger] canvas.pixel_at(x, y) == (if y
                    < row {
                    rendered_pixel(
                        *viewport,
                        width as nat,
                        height as nat,
                        max_iterations as nat,
                        x,
                        y,
                        canvas0.pixel_at(x, y),
                    )
                } else {
                    canvas0.pixel_at(x, y)
                }),
        decreases height - row,
    {
        let mut col: usize = 0;
        while col < width
            invariant
                canvas.wf(),
                canvas.width == width,
                canvas.height == height,
                canvas0.wf(),
                canvas0.width == width,
                canvas0.height == height,
                viewport.wf(),
                1 <= width,
                1 <= height,
                1 <= max_iterations,
                palette@.len() == max_iterations,
                forall|i: int|
                    0 <= i < max_iterations ==> palette@[i] as nat == palette_intensity(
                        (i + 1) as nat,
                        max_iterations as nat,
                    ),
                row < height,
                col <= width,
                forall|x: int, y: int|
                    0 <= x < width && 0 <= y < height ==> #[trigger] canvas.pixel_at(x, y) == (if y
                        < row || (y == row && x < col) {
                        rendered_pixel(
                            *viewport,
                            width as nat,
                            height as nat,
                            max_iterations as nat,
                            x,
                            y,
                            canvas0.pixel_at(x, y),
                        )
                    } else {
                        canvas0.pixel_at(x, y)
                    }),
            decreases width - col,
        {
            let c: Complex = map_pixel_to_complex(col, row, width, height, viewport);
            let result: IterationResult = iterate(c, max_iterations);
            if result.diverge {
                proof {
                    lemma_run_bounds((0, 0), c@, max_iterations as nat);
                }
                let intensity: u8 = palette[result.iterations];
                canvas.set_pixel(col, row, Pixel::new(intensity, 0, 0));
            }
            col = col + 1;
        }
        row = row + 1;
    }
}

} // verus!
