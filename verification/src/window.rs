//! Resolving a tile's pixel-space bounding box against the source raster:
//! clipping to the raster's extent and rejecting tiles that do not overlap
//! it.  All arithmetic here is on integer pixel indices; converting a
//! geographic coordinate to a pixel index through the raster's affine
//! transform happens outside the library.

use vstd::prelude::*;

verus! {

/// An integer rectangle in source-raster pixel space.  A resolved window is
/// always contained in `[0, raster_width) x [0, raster_height)` and has a
/// positive extent in both axes.
pub struct PixelWindow {
    pub x_off: usize,
    pub y_off: usize,
    pub width: usize,
    pub height: usize,
}

/// Horizontal origin of the clipped window: the tile's lower-left pixel
/// column, clamped to the raster's left edge.
pub open spec fn win_x_off(ll_x: int) -> int {
    if ll_x > 0 {
        ll_x
    } else {
        0
    }
}

/// Vertical origin of the clipped window.  Pixel rows grow downward while
/// geographic y grows upward, so the upper-right corner holds the smaller
/// pixel row; it is clamped to the raster's top edge.
pub open spec fn win_y_off(ur_y: int) -> int {
    if ur_y > 0 {
        ur_y
    } else {
        0
    }
}

/// Width of the clipped window: from the clamped origin to the tile's
/// right pixel column, itself clamped to the raster's right edge.  A value
/// of zero or less means the tile lies outside the raster horizontally.
pub open spec fn win_width(img_w: int, ll_x: int, ur_x: int) -> int {
    (if ur_x < img_w {
        ur_x
    } else {
        img_w
    }) - win_x_off(ll_x)
}

/// Height of the clipped window: from the clamped origin down to the tile's
/// bottom pixel row (the lower-left corner), clamped to the raster's bottom
/// edge.
pub open spec fn win_height(img_h: int, ll_y: int, ur_y: int) -> int {
    (if ll_y < img_h {
        ll_y
    } else {
        img_h
    }) - win_y_off(ur_y)
}

/// Whether a tile with pixel-space corners `ll` (lower-left) and `ur`
/// (upper-right) overlaps a raster of `img_w` by `img_h` pixels in a
/// window of positive extent.
pub open spec fn has_window(img_w: int, img_h: int, ll: (int, int), ur: (int, int)) -> bool {
    win_width(img_w, ll.0, ur.0) > 0 && win_height(img_h, ll.1, ur.1) > 0
}

/// Compute the clipped pixel window for a tile, or `None` when the tile
/// does not overlap the raster.  `ll_px` and `ur_px` are the tile's
/// lower-left and upper-right corners already mapped to pixel indices;
/// because pixel rows grow downward, `ll_px.1 >= ur_px.1` for any tile
/// whose geographic extent is upright.
pub fn resolve(img_width: usize, img_height: usize, ll_px: (i32, i32), ur_px: (i32, i32)) -> (r:
    Option<PixelWindow>)
    requires
        img_width <= i32::MAX,
        img_height <= i32::MAX,
    ensures
        r is Some <==> has_window(
            img_width as int,
            img_height as int,
            (ll_px.0 as int, ll_px.1 as int),
            (ur_px.0 as int, ur_px.1 as int),
        ),
        r matches Some(w) ==> {
            &&& w.x_off == win_x_off(ll_px.0 as int)
            &&& w.y_off == win_y_off(ur_px.1 as int)
            &&& w.width == win_width(img_width as int, ll_px.0 as int, ur_px.0 as int)
            &&& w.height == win_height(img_height as int, ll_px.1 as int, ur_px.1 as int)
            &&& w.x_off + w.width <= img_width
            &&& w.y_off + w.height <= img_height
        },
{
    let iw = img_width as i64;
    let ih = img_height as i64;
    let llx = ll_px.0 as i64;
    let lly = ll_px.1 as i64;
    let urx = ur_px.0 as i64;
    let ury = ur_px.1 as i64;
    let x_off: i64 = if llx > 0 {
        llx
    } else {
        0
    };
    let y_off: i64 = if ury > 0 {
        ury
    } else {
        0
    };
    let x_end: i64 = if urx < iw {
        urx
    } else {
        iw
    };
    let y_end: i64 = if lly < ih {
        lly
    } else {
        ih
    };
    let width = x_end - x_off;
    let height = y_end - y_off;
    if width <= 0 || height <= 0 {
        None
    } else {
        Some(
            PixelWindow {
                x_off: x_off as usize,
                y_off: y_off as usize,
                width: width as usize,
                height: height as usize,
            },
        )
    }
}

/// A tile whose pixel-space bounding box lies fully inside the raster is
/// not clipped: the window keeps the tile's exact pixel extent and origin.
pub proof fn lemma_inside_exact(img_w: int, img_h: int, ll: (int, int), ur: (int, int))
    requires
        0 <= ll.0,
        ur.0 <= img_w,
        0 <= ur.1,
        ll.1 <= img_h,
    ensures
        win_x_off(ll.0) == ll.0,
        win_y_off(ur.1) == ur.1,
        win_width(img_w, ll.0, ur.0) == ur.0 - ll.0,
        win_height(img_h, ll.1, ur.1) == ll.1 - ur.1,
{
}

/// A tile whose pixel-space bounding box lies entirely outside the raster
/// resolves to no window at all.
pub proof fn lemma_outside_no_window(img_w: int, img_h: int, ll: (int, int), ur: (int, int))
    requires
        ur.0 <= 0 || ll.0 >= img_w || ll.1 <= 0 || ur.1 >= img_h,
    ensures
        !has_window(img_w, img_h, ll, ur),
{
}

/// Every resolved window, clipped or not, is contained in
/// `[0, img_w) x [0, img_h)`.
pub proof fn lemma_window_in_bounds(img_w: int, img_h: int, ll: (int, int), ur: (int, int))
    requires
        has_window(img_w, img_h, ll, ur),
    ensures
        0 <= win_x_off(ll.0),
        0 <= win_y_off(ur.1),
        win_x_off(ll.0) + win_width(img_w, ll.0, ur.0) <= img_w,
        win_y_off(ur.1) + win_height(img_h, ll.1, ur.1) <= img_h,
{
}

} // verus!
