use mandelbrot::palette::build_palette;

#[test]
fn test_palette_ramp() {
    // round(255 * sqrt((i + 1) / 4)) for i = 0..4, halves rounding up:
    // 127.5 -> 128, 180.3 -> 180, 220.8 -> 221, 255 -> 255.
    let palette = build_palette(4);
    assert_eq!(palette, vec![128u8, 180, 221, 255]);
}

#[test]
fn test_palette_single_entry() {
    assert_eq!(build_palette(1), vec![255u8]);
}

#[test]
fn test_palette_length_and_top() {
    let palette = build_palette(50);
    assert_eq!(palette.len(), 50);
    // The last entry is always round(255 * sqrt(1)) = 255.
    assert_eq!(palette[49], 255);
    // round(255 * sqrt(1/50)) = round(36.06) = 36.
    assert_eq!(palette[0], 36);
    // The ramp never decreases.
    for i in 1..50 {
        assert!(palette[i - 1] <= palette[i]);
    }
}
