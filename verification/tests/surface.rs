use spe::surface::RenderedCanvas;

/// A 2 x 3 frame whose pixel (x, y) has red x, green y and blue 10 * x + y.
fn sample() -> RenderedCanvas {
    let mut rgba = Vec::new();
    for y in 0..3u8 {
        for x in 0..2u8 {
            rgba.extend_from_slice(&[x, y, 10 * x + y, 255]);
        }
    }
    RenderedCanvas { width: 2, rgba }
}

#[test]
fn the_height_counts_complete_rows() {
    assert_eq!(sample().height(), 3);
    let mut partial = sample();
    partial.rgba.extend_from_slice(&[1, 2, 3, 4]);
    assert_eq!(partial.height(), 3);
}

#[test]
fn a_pixel_is_read_from_its_row_and_column() {
    let canvas = sample();
    assert_eq!(canvas.pixel(0, 0), (0, 0, 0));
    assert_eq!(canvas.pixel(1, 0), (1, 0, 10));
    assert_eq!(canvas.pixel(1, 2), (1, 2, 12));
    assert_eq!(canvas.pixel(0, 1), (0, 1, 1));
}
