use bevy_slippy_tiles::{
    get_tile_filename, get_tile_url, max_pixels_in_dimension, max_tiles_in_dimension, TileSize,
    ZoomLevel,
};

#[test]
fn tile_filename_layout() {
    assert_eq!(
        get_tile_filename("tiles/".into(), ZoomLevel::L10, 100, 50, TileSize::Normal),
        "tiles/10.100.50.256.tile.png"
    );
    assert_eq!(
        get_tile_filename("tiles".into(), ZoomLevel::L10, 512, 512, TileSize::Normal),
        "tiles/10.512.512.256.tile.png"
    );
    assert_eq!(
        get_tile_filename("".into(), ZoomLevel::L0, 0, 0, TileSize::Large),
        "/0.0.0.512.tile.png"
    );
    assert_eq!(
        get_tile_filename(
            "cache".into(),
            ZoomLevel::L25,
            u32::MAX,
            1_000_000_007,
            TileSize::VeryLarge
        ),
        "cache/25.4294967295.1000000007.768.tile.png"
    );
}

#[test]
fn tile_filename_matches_formatting() {
    for (zoom, x, y, size) in [
        (ZoomLevel::L1, 9u32, 10u32, TileSize::Normal),
        (ZoomLevel::L9, 99, 100, TileSize::Large),
        (ZoomLevel::L19, 367846, 221525, TileSize::VeryLarge),
        (ZoomLevel::L17, 66362, 45115, TileSize::Normal),
    ] {
        assert_eq!(
            get_tile_filename("tiles/".into(), zoom, x, y, size),
            format!("tiles/{}.{}.{}.{}.tile.png", zoom.to_u8(), x, y, size.to_pixels())
        );
    }
}

#[test]
fn tile_url_layout() {
    assert_eq!(
        get_tile_url(
            "https://tile.openstreetmap.org".into(),
            TileSize::Normal,
            ZoomLevel::L17,
            66362,
            45115
        ),
        "https://tile.openstreetmap.org/17/66362/45115.png"
    );
    assert_eq!(
        get_tile_url("endpoint".into(), TileSize::Large, ZoomLevel::L0, 0, 0),
        "endpoint/0/0/0@2x.png"
    );
    assert_eq!(
        get_tile_url("endpoint".into(), TileSize::VeryLarge, ZoomLevel::L3, 7, 4294967295),
        "endpoint/3/7/4294967295@3x.png"
    );
}

#[test]
fn tiles_and_pixels_in_dimension() {
    assert_eq!(max_tiles_in_dimension(ZoomLevel::L0), 1);
    assert_eq!(max_tiles_in_dimension(ZoomLevel::L1), 2);
    assert_eq!(max_tiles_in_dimension(ZoomLevel::L10), 1024);
    assert_eq!(max_tiles_in_dimension(ZoomLevel::L18), 262_144);
    assert_eq!(max_tiles_in_dimension(ZoomLevel::L25), 33_554_432);
    assert_eq!(max_pixels_in_dimension(ZoomLevel::L0, TileSize::Normal), 256);
    assert_eq!(max_pixels_in_dimension(ZoomLevel::L18, TileSize::Normal), 67_108_864);
    assert_eq!(max_pixels_in_dimension(ZoomLevel::L10, TileSize::Large), 524_288);
    assert_eq!(
        max_pixels_in_dimension(ZoomLevel::L25, TileSize::VeryLarge),
        25_769_803_776
    );
}

#[test]
fn tile_filename_has_one_separator_after_the_directory() {
    let with = get_tile_filename("a/b/".into(), ZoomLevel::L3, 1, 2, TileSize::Normal);
    let without = get_tile_filename("a/b".into(), ZoomLevel::L3, 1, 2, TileSize::Normal);
    assert_eq!(with, "a/b/3.1.2.256.tile.png");
    assert_eq!(without, with);
    // Only one separator is looked at: a second one is the directory's own.
    assert_eq!(
        get_tile_filename("a//".into(), ZoomLevel::L3, 1, 2, TileSize::Normal),
        "a//3.1.2.256.tile.png"
    );
    assert_eq!(
        get_tile_filename("/".into(), ZoomLevel::L3, 1, 2, TileSize::Normal),
        "/3.1.2.256.tile.png"
    );
    assert_eq!(
        get_tile_filename("kacheln\u{fc}".into(), ZoomLevel::L3, 1, 2, TileSize::Normal),
        "kacheln\u{fc}/3.1.2.256.tile.png"
    );
}
