use img_dice::config::{Opt, TilePoint};
use img_dice::naming::{i64_dec, split_stem_ext, tile_file_name, u64_dec};
use img_dice::{plan_tile, TilePlan};

#[test]
fn decimal_digits() {
    assert_eq!(u64_dec(0), "0");
    assert_eq!(u64_dec(7), "7");
    assert_eq!(u64_dec(10), "10");
    assert_eq!(u64_dec(123456789), "123456789");
    assert_eq!(u64_dec(u64::MAX), "18446744073709551615");
}

#[test]
fn signed_decimal_digits() {
    assert_eq!(i64_dec(0), "0");
    assert_eq!(i64_dec(42), "42");
    assert_eq!(i64_dec(-1), "-1");
    assert_eq!(i64_dec(-500), "-500");
    assert_eq!(i64_dec(i64::MAX), "9223372036854775807");
    assert_eq!(i64_dec(i64::MIN), "-9223372036854775808");
}

#[test]
fn tile_file_name_layout() {
    assert_eq!(tile_file_name("out", "img", "tif", 100, 200), "out/img_100_200.tif");
    assert_eq!(
        tile_file_name("/data/tiles", "scene", "tiff", -500, -100),
        "/data/tiles/scene_-500_-100.tiff"
    );
}

#[test]
fn stem_and_extension_of_plain_name() {
    let (stem, ext) = split_stem_ext("img.tif").expect("name has an extension");
    assert_eq!(stem, "img");
    assert_eq!(ext, "tif");
}

#[test]
fn stem_and_extension_of_nested_path() {
    let (stem, ext) = split_stem_ext("/data/in/scene.tar.gz").expect("name has an extension");
    assert_eq!(stem, "scene.tar");
    assert_eq!(ext, "gz");
}

#[test]
fn hidden_file_with_extension() {
    let (stem, ext) = split_stem_ext("a/.hidden.txt").expect("name has an extension");
    assert_eq!(stem, ".hidden");
    assert_eq!(ext, "txt");
}

#[test]
fn names_without_extension_are_rejected() {
    assert!(split_stem_ext("noext").is_none());
    assert!(split_stem_ext(".bashrc").is_none());
    assert!(split_stem_ext("dir.d/file").is_none());
    assert!(split_stem_ext("ends/with/slash/").is_none());
}

fn opt() -> Opt {
    Opt {
        img_path: String::from("data/img.tif"),
        tile_index: String::from("data/tile_index.shp"),
        out_dir: String::from("out"),
        threads: 1,
    }
}

#[test]
fn output_tile_path_encodes_lower_left_corner() {
    let p = opt().get_output_tile_path(&TilePoint { x: 100, y: 200, z: 0 });
    assert_eq!(p, "out/img_100_200.tif");
}

#[test]
fn output_tile_path_with_negative_corner() {
    let p = opt().get_output_tile_path(&TilePoint { x: -500, y: -100, z: 0 });
    assert_eq!(p, "out/img_-500_-100.tif");
}

#[test]
fn plan_names_overlapping_tile() {
    let plan: TilePlan = plan_tile(
        &opt(),
        1000,
        1000,
        (100, 900),
        (300, 700),
        &TilePoint { x: 100, y: 100, z: 0 },
    )
    .expect("tile overlaps the raster");
    assert_eq!(plan.path, "out/img_100_100.tif");
    assert_eq!(plan.window.x_off, 100);
    assert_eq!(plan.window.y_off, 700);
    assert_eq!(plan.window.width, 200);
    assert_eq!(plan.window.height, 200);
}

#[test]
fn plan_skips_tile_outside_raster() {
    // A tile at entirely negative coordinates gets no plan, so no file is
    // ever named for it.
    let plan = plan_tile(
        &opt(),
        1000,
        1000,
        (-500, 1500),
        (-100, 1100),
        &TilePoint { x: -500, y: -500, z: 0 },
    );
    assert!(plan.is_none());
}
