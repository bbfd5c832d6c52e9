use mandelbrot::canvas::{Canvas, Pixel};
use mandelbrot::complex::SCALE;
use mandelbrot::plane::{map_pixel_to_complex, Viewport};
use mandelbrot::render::render;

// The standard viewport [-2, 0.5] x [-1.25, 1.25] in fixed point.
fn standard_viewport() -> Viewport {
    Viewport::new(-2 * SCALE, SCALE / 2, -5 * SCALE / 4, 5 * SCALE / 4)
}

#[test]
fn test_map_top_left_cell_center() {
    // On a 4x4 grid the cell of pixel (0, 0) is centred at
    // (-1.6875, 0.9375): dx = dy = 0.625, centre = lower + dx / 2 on the
    // real axis and upper - dy / 2 on the imaginary axis.
    let vp = standard_viewport();
    let c = map_pixel_to_complex(0, 0, 4, 4, &vp);
    assert_eq!(c.re(), -7247757312); // -1.6875 * SCALE
    assert_eq!(c.im(), 4026531840); // 0.9375 * SCALE
}

#[test]
fn test_map_bottom_right_cell_center() {
    let vp = standard_viewport();
    let c = map_pixel_to_complex(3, 3, 4, 4, &vp);
    assert_eq!(c.re(), 805306368); // 0.1875 * SCALE
    assert_eq!(c.im(), -4026531840); // -0.9375 * SCALE
}

#[test]
fn test_map_row_zero_has_maximum_imaginary_part() {
    // The vertical flip: row 0 is the top of the image, and the top of the
    // plane is the maximum imaginary value.
    let vp = standard_viewport();
    let top = map_pixel_to_complex(0, 0, 4, 4, &vp);
    let bottom = map_pixel_to_complex(0, 3, 4, 4, &vp);
    assert!(top.im() > bottom.im());
    assert_eq!(top.im(), -bottom.im());
}

#[test]
fn test_render_three_pixel_scenario() {
    // A 3x1 image whose cell centres are exactly c = -2, -0.75 and 0.5 on
    // the real axis: the first two belong to the set, the third escapes
    // (at step 5), so exactly one pixel is coloured.
    let mut canvas = Canvas::new(3, 1);
    let vp = Viewport::new(
        -21 * SCALE / 8, // -2.625
        9 * SCALE / 8,   // 1.125
        -5 * SCALE / 4,  // -1.25
        5 * SCALE / 4,   // 1.25
    );
    render(&mut canvas, &vp, 50);

    let black = Pixel::new(0, 0, 0);
    assert_eq!(canvas.get_pixel(0, 0), black);
    assert_eq!(canvas.get_pixel(1, 0), black);

    let colored = canvas.get_pixel(2, 0);
    // Divergence at step 5 of 50: round(255 * sqrt(6 / 50)) = 88 on the
    // red channel.
    assert_eq!(colored, Pixel::new(88, 0, 0));

    let mut colored_count = 0;
    for x in 0..3 {
        if canvas.get_pixel(x, 0) != black {
            colored_count += 1;
        }
    }
    assert_eq!(colored_count, 1);
}

#[test]
fn test_render_preserves_default_inside_set() {
    // A 1x1 image whose single cell centre is the origin: the pixel never
    // diverges and keeps whatever the canvas held before.
    let mut canvas = Canvas::new(1, 1);
    canvas.set_pixel(0, 0, Pixel::new(9, 9, 9));
    let vp = Viewport::new(-SCALE, SCALE, -SCALE, SCALE);
    render(&mut canvas, &vp, 25);
    assert_eq!(canvas.get_pixel(0, 0), Pixel::new(9, 9, 9));
}
