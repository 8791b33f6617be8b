//! The run configuration and the naming of each tile's output file.

use vstd::prelude::*;
use vstd::pervasive::unreached;
use crate::naming::ext_of;
use crate::naming::has_stem_ext;
use crate::naming::split_stem_ext;
use crate::naming::stem_of;
use crate::naming::tile_file_name;
use crate::naming::tile_name;

verus! {

/// A tile-index coordinate with each component already rounded to the
/// nearest integer.  Tile geometries carry three-dimensional points; only
/// `x` and `y` take part in naming and windowing.
pub struct TilePoint {
    pub x: i64,
    pub y: i64,
    pub z: i64,
}

/// The configuration of one dicing run: the source image, the tile index,
/// the output directory, and how many tile tasks may run at once.
pub struct Opt {
    /// Path to the source image to dice up.
    pub img_path: String,
    /// Path to the tile index whose polygons bound the tiles.
    pub tile_index: String,
    /// Directory that receives the diced images.
    pub out_dir: String,
    /// Number of tile tasks allowed to run at once.
    pub threads: usize,
}

impl Opt {
    /// The output path for the tile whose lower-left corner rounds to `ll`:
    /// `{out_dir}/{image stem}_{ll.x}_{ll.y}.{image extension}`.  The source
    /// image path must have an extension for the stem and extension to be
    /// taken from.
    pub fn get_output_tile_path(&self, ll: &TilePoint) -> (r: String)
        requires
            has_stem_ext(self.img_path@),
        ensures
            r@ == tile_name(
                self.out_dir@,
                stem_of(self.img_path@),
                ext_of(self.img_path@),
                ll.x as int,
                ll.y as int,
            ),
    {
        match split_stem_ext(self.img_path.as_str()) {
            Some((stem, ext)) => tile_file_name(
                self.out_dir.as_str(),
                stem.as_str(),
                ext.as_str(),
                ll.x,
                ll.y,
            ),
            None => unreached(),
        }
    }
}

} // verus!
