//! Dices a large georeferenced raster into smaller tiles whose boundaries
//! come from an external tile index.
//!
//! The verified core covers the pixel-window arithmetic (mapping a tile's
//! pixel-space bounding box onto the source raster and clipping it to the
//! raster's extent), the in-memory extraction of a window from every band of
//! a raster, and the derivation of each tile's output file name.  Opening and
//! decoding the raster and vector file formats, the floating-point affine
//! transform arithmetic, and the worker pool are left to the surrounding
//! application.

use vstd::prelude::*;

pub mod config;
pub mod naming;
pub mod raster;
pub mod window;

use crate::config::Opt;
use crate::config::TilePoint;
use crate::naming::ext_of;
use crate::naming::has_stem_ext;
use crate::naming::stem_of;
use crate::naming::tile_name;
use crate::window::PixelWindow;
use crate::window::has_window;
use crate::window::resolve;
use crate::window::win_height;
use crate::window::win_width;
use crate::window::win_x_off;
use crate::window::win_y_off;

verus! {

/// One unit of dicing work, ready to execute: where the tile's raster goes
/// and which pixel window of the source it covers.
pub struct TilePlan {
    pub path: String,
    pub window: PixelWindow,
}

/// Decide one tile of a run: name its output file and resolve its pixel
/// window against the source raster.  `ll_px` and `ur_px` are the tile's
/// bounding-box corners mapped to pixel indices, `ll` its lower-left corner
/// rounded to integers.  Returns `None`, and so skips the tile without an
/// output file, exactly when the tile does not overlap the raster.
pub fn plan_tile(
    opt: &Opt,
    img_width: usize,
    img_height: usize,
    ll_px: (i32, i32),
    ur_px: (i32, i32),
    ll: &TilePoint,
) -> (r: Option<TilePlan>)
    requires
        has_stem_ext(opt.img_path@),
        img_width <= i32::MAX,
        img_height <= i32::MAX,
    ensures
        r is Some <==> has_window(
            img_width as int,
            img_height as int,
            (ll_px.0 as int, ll_px.1 as int),
            (ur_px.0 as int, ur_px.1 as int),
        ),
        r matches Some(p) ==> {
            &&& p.window.x_off == win_x_off(ll_px.0 as int)
            &&& p.window.y_off == win_y_off(ur_px.1 as int)
            &&& p.window.width == win_width(img_width as int, ll_px.0 as int, ur_px.0 as int)
            &&& p.window.height == win_height(img_height as int, ll_px.1 as int, ur_px.1 as int)
            &&& p.window.x_off + p.window.width <= img_width
            &&& p.window.y_off + p.window.height <= img_height
            &&& p.path@ == tile_name(
                opt.out_dir@,
                stem_of(opt.img_path@),
                ext_of(opt.img_path@),
                ll.x as int,
                ll.y as int,
            )
        },
{
    match resolve(img_width, img_height, ll_px, ur_px) {
        Some(w) => Some(TilePlan { path: opt.get_output_tile_path(ll), window: w }),
        None => None,
    }
}

/// A tile's output path and window are functions of the configuration, the
/// raster's dimensions and the tile's corners alone: any two plans that
/// satisfy `plan_tile`'s contract for the same inputs agree on both.
/// Together with `raster::lemma_extraction_deterministic`, this is why runs
/// that schedule the same tiles differently produce the same outputs.
pub proof fn lemma_plan_deterministic(
    opt: Opt,
    img_w: int,
    img_h: int,
    ll_px: (int, int),
    ur_px: (int, int),
    ll: TilePoint,
    p1: TilePlan,
    p2: TilePlan,
)
    requires
        p1.path@ == tile_name(
            opt.out_dir@,
            stem_of(opt.img_path@),
            ext_of(opt.img_path@),
            ll.x as int,
            ll.y as int,
        ),
        p1.window.x_off == win_x_off(ll_px.0),
        p1.window.y_off == win_y_off(ur_px.1),
        p1.window.width == win_width(img_w, ll_px.0, ur_px.0),
        p1.window.height == win_height(img_h, ll_px.1, ur_px.1),
        p2.path@ == tile_name(
            opt.out_dir@,
            stem_of(opt.img_path@),
            ext_of(opt.img_path@),
            ll.x as int,
            ll.y as int,
        ),
        p2.window.x_off == win_x_off(ll_px.0),
        p2.window.y_off == win_y_off(ur_px.1),
        p2.window.width == win_width(img_w, ll_px.0, ur_px.0),
        p2.window.height == win_height(img_h, ll_px.1, ur_px.1),
    ensures
        p1.path@ == p2.path@,
        p1.window == p2.window,
{
}

} // verus!
