use mandelbrot::canvas::{Canvas, Pixel};

#[test]
fn test_get_set_pixel() {
    let mut canvas = Canvas::new(2, 2);
    let expected_pixel = Pixel::new(1, 2, 3);
    canvas.set_pixel(0, 0, expected_pixel);

    let actual_pixel = canvas.get_pixel(0, 0);
    assert_eq!(actual_pixel, expected_pixel);
}

#[test]
fn test_to_ppm() {
    let mut canvas = Canvas::new(2, 1);
    canvas.set_pixel(0, 0, Pixel::new(255, 0, 0));
    canvas.set_pixel(1, 0, Pixel::new(255, 255, 255));
    let actual_string = canvas.to_ppm();
    let expected_string = String::from("P3\n2 1\n255\n255 0 0\n255 255 255\n");

    assert_eq!(actual_string, expected_string);
}

#[test]
fn test_pixel_to_string() {
    assert_eq!(Pixel::new(255, 0, 10).to_string(), "255 0 10");
    assert_eq!(Pixel::new(0, 0, 0).to_string(), "0 0 0");
    assert_eq!(Pixel::new(7, 42, 199).to_string(), "7 42 199");
}

#[test]
fn test_canvas_new_is_black() {
    let canvas = Canvas::new(3, 2);
    for y in 0..2 {
        for x in 0..3 {
            assert_eq!(canvas.get_pixel(x, y), Pixel::new(0, 0, 0));
        }
    }
}
