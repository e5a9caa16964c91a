use bevy_slippy_tiles::{SlippyTilesSettings, TileSize, ZoomLevel};

#[test]
fn test_zoom_level_try_from() {
    assert_eq!(ZoomLevel::try_from(0), Ok(ZoomLevel::L0));
    assert_eq!(ZoomLevel::try_from(25), Ok(ZoomLevel::L25));
    assert_eq!(ZoomLevel::try_from(26), Err(()));
}

#[test]
fn test_tile_size_new() {
    assert_eq!(TileSize::new(256), TileSize::Normal);
    assert_eq!(TileSize::new(512), TileSize::Large);
    assert_eq!(TileSize::new(768), TileSize::VeryLarge);
    assert_eq!(TileSize::new(1024), TileSize::Normal);
}

#[test]
fn test_slippy_tile_settings() {
    let sts = SlippyTilesSettings {
        endpoint: "endpoint".into(),
        tiles_directory: "tiles_directory".into(),
        ..Default::default()
    };
    assert_eq!(sts.endpoint, "endpoint");
    assert_eq!(
        sts.tiles_directory,
        std::path::PathBuf::from("tiles_directory")
    );
    assert_eq!(sts.get_tiles_directory_string(), "tiles_directory");
    assert!(std::path::Path::try_exists("assets/tiles_directory".as_ref()).is_ok());
}

#[test]
fn zoom_level_numbers_round_trip() {
    for v in 0u8..=25 {
        let zoom = ZoomLevel::try_from(v).unwrap();
        assert_eq!(zoom.to_u8(), v);
    }
    for v in 26u8..=255 {
        assert_eq!(ZoomLevel::try_from(v), Err(()));
    }
    assert_eq!(ZoomLevel::L17.to_u8(), 17);
}

#[test]
fn tile_size_pixels_and_postfix() {
    assert_eq!(TileSize::Normal.to_pixels(), 256);
    assert_eq!(TileSize::Large.to_pixels(), 512);
    assert_eq!(TileSize::VeryLarge.to_pixels(), 768);
    assert_eq!(TileSize::Normal.get_url_postfix(), "");
    assert_eq!(TileSize::Large.get_url_postfix(), "@2x");
    assert_eq!(TileSize::VeryLarge.get_url_postfix(), "@3x");
    assert_eq!(TileSize::new(TileSize::VeryLarge.to_pixels()), TileSize::VeryLarge);
    assert_eq!(TileSize::new(0), TileSize::Normal);
}

#[test]
fn default_settings() {
    let settings = SlippyTilesSettings::default();
    assert_eq!(settings.endpoint, "https://tile.openstreetmap.org");
    assert_eq!(settings.tiles_directory, "tiles/");
    assert_eq!(settings.get_tiles_directory_string(), "tiles/");
    assert_eq!(settings.max_concurrent_downloads, 4);
    assert_eq!(settings.max_retries, 3);
    assert_eq!(settings.rate_limit_requests, 10);
    assert_eq!(settings.rate_limit_window, 1_000_000_000);
}
