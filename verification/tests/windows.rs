use img_dice::window::{resolve, PixelWindow};

// Mirrors the affine pixel mapping the application performs before calling
// the library: pixel = round((coord - origin) / pixel_size).
fn px(transform: [f64; 6], x: f64, y: f64) -> (i32, i32) {
    (
        ((x - transform[0]) / transform[1]).round() as i32,
        ((y - transform[3]) / transform[5]).round() as i32,
    )
}

const T: [f64; 6] = [0.0, 1.0, 0.0, 1000.0, 0.0, -1.0];

#[test]
fn inner_tile_window() {
    // 1000x1000 raster, origin at (0, 1000), one unit per pixel, row 0 on top;
    // tile ll=(100,100), ur=(300,300).
    let ll = px(T, 100.0, 100.0);
    let ur = px(T, 300.0, 300.0);
    assert_eq!(ll, (100, 900));
    assert_eq!(ur, (300, 700));
    let w: PixelWindow = resolve(1000, 1000, ll, ur).expect("tile lies inside the raster");
    assert_eq!(w.x_off, 100);
    assert_eq!(w.y_off, 700);
    assert_eq!(w.width, 200);
    assert_eq!(w.height, 200);
}

#[test]
fn fully_negative_tile_has_no_window() {
    // Tile bbox entirely at negative coordinates: no window at all.
    let ll = px(T, -500.0, -500.0);
    let ur = px(T, -100.0, -100.0);
    assert!(resolve(1000, 1000, ll, ur).is_none());
}

#[test]
fn tile_right_of_raster_has_no_window() {
    let ll = px(T, 1200.0, 100.0);
    let ur = px(T, 1400.0, 300.0);
    assert!(resolve(1000, 1000, ll, ur).is_none());
}

#[test]
fn tile_above_raster_has_no_window() {
    let ll = px(T, 100.0, 1100.0);
    let ur = px(T, 300.0, 1300.0);
    assert!(resolve(1000, 1000, ll, ur).is_none());
}

#[test]
fn tile_touching_edge_has_no_window() {
    // The tile's right edge coincides with the raster's left edge.
    let ll = px(T, -200.0, 100.0);
    let ur = px(T, 0.0, 300.0);
    assert!(resolve(1000, 1000, ll, ur).is_none());
}

#[test]
fn partially_overlapping_tile_is_clipped() {
    // Tile hangs off the left and top of the raster.
    let ll = px(T, -100.0, 800.0);
    let ur = px(T, 200.0, 1100.0);
    let w = resolve(1000, 1000, ll, ur).expect("tile overlaps the raster");
    assert_eq!(w.x_off, 0);
    assert_eq!(w.y_off, 0);
    assert_eq!(w.width, 200);
    assert_eq!(w.height, 200);
    assert!(w.x_off + w.width <= 1000);
    assert!(w.y_off + w.height <= 1000);
}

#[test]
fn clipped_window_stays_inside_raster() {
    // Tile hangs off the right and bottom.
    let ll = px(T, 900.0, -50.0);
    let ur = px(T, 1100.0, 150.0);
    let w = resolve(1000, 1000, ll, ur).expect("tile overlaps the raster");
    assert_eq!(w.x_off, 900);
    assert_eq!(w.y_off, 850);
    assert_eq!(w.width, 100);
    assert_eq!(w.height, 150);
    assert!(w.x_off + w.width <= 1000);
    assert!(w.y_off + w.height <= 1000);
}

#[test]
fn inner_tile_keeps_exact_pixel_size() {
    // A fully inside tile keeps the pixel extent of its bounding box.
    let ll = px(T, 250.0, 400.0);
    let ur = px(T, 310.0, 470.0);
    let w = resolve(1000, 1000, ll, ur).expect("tile lies inside the raster");
    assert_eq!(w.width as i32, ur.0 - ll.0);
    assert_eq!(w.height as i32, ll.1 - ur.1);
}
