use bevy_slippy_tiles::{
    DownloadSlippyTilesEvent, DownloadStatus, Radius, SlippyTileCoordinates,
    SlippyTileDownloadStatus, SlippyTileDownloadTaskKey, SlippyTileDownloadTasks,
    SlippyTileDownloadedEvent, TileDownloadStatus, TileSize, ZoomLevel,
};

#[test]
fn test_slippy_tile_download_status() {
    let mut stds = SlippyTileDownloadStatus::default();
    stds.insert(
        100,
        50,
        ZoomLevel::L10,
        TileSize::Normal,
        "filename".into(),
        DownloadStatus::Downloading,
    );
    assert!(!stds.contains_key(100, 50, ZoomLevel::L1, TileSize::Normal));
    assert!(!stds.contains_key(100, 50, ZoomLevel::L10, TileSize::Large));
    assert!(!stds.contains_key(100, 100, ZoomLevel::L10, TileSize::Normal));
    assert!(stds.contains_key(100, 50, ZoomLevel::L10, TileSize::Normal));
    stds.insert(
        50,
        100,
        ZoomLevel::L18,
        TileSize::Large,
        "filename".into(),
        DownloadStatus::Downloaded,
    );
    assert!(!stds.contains_key(50, 100, ZoomLevel::L1, TileSize::Large));
    assert!(!stds.contains_key(50, 100, ZoomLevel::L18, TileSize::Normal));
    assert!(!stds.contains_key(100, 50, ZoomLevel::L18, TileSize::Large));
    assert!(stds.contains_key(50, 100, ZoomLevel::L18, TileSize::Large));
}

#[test]
fn download_status_records_path_and_status() {
    let mut stds = SlippyTileDownloadStatus::new();
    let key = SlippyTileDownloadTaskKey {
        slippy_tile_coordinates: SlippyTileCoordinates { x: 7, y: 8 },
        zoom_level: ZoomLevel::L4,
        tile_size: TileSize::VeryLarge,
    };
    assert!(stds.get(&key).is_none());
    stds.insert_with_coords(
        key.slippy_tile_coordinates,
        key.zoom_level,
        key.tile_size,
        "one".into(),
        DownloadStatus::Downloading,
    );
    let record = stds.get(&key).unwrap();
    assert_eq!(record.path, "one");
    assert_eq!(record.load_status, DownloadStatus::Downloading);
    // A second insert overwrites.
    stds.insert(7, 8, ZoomLevel::L4, TileSize::VeryLarge, "two".into(), DownloadStatus::Downloaded);
    let record = stds.get(&key).unwrap();
    assert_eq!(record.path, "two");
    assert_eq!(record.load_status, DownloadStatus::Downloaded);
    assert!(stds.contains_key_with_coords(
        SlippyTileCoordinates { x: 7, y: 8 },
        ZoomLevel::L4,
        TileSize::VeryLarge
    ));
    assert!(!stds.contains_key_with_coords(
        SlippyTileCoordinates { x: 8, y: 7 },
        ZoomLevel::L4,
        TileSize::VeryLarge
    ));
}

#[test]
fn download_tasks_insert_replace_and_remove() {
    let mut tasks = SlippyTileDownloadTasks::default();
    let key = SlippyTileDownloadTaskKey {
        slippy_tile_coordinates: SlippyTileCoordinates { x: 1, y: 2 },
        zoom_level: ZoomLevel::L3,
        tile_size: TileSize::Normal,
    };
    let other = SlippyTileDownloadTaskKey { tile_size: TileSize::Large, ..key };
    assert!(!tasks.contains_key(&key));
    assert!(tasks.remove(&key).is_none());
    let replaced = tasks.insert(
        1,
        2,
        ZoomLevel::L3,
        TileSize::Normal,
        TileDownloadStatus { path: "a".into(), load_status: DownloadStatus::Downloading },
    );
    assert!(replaced.is_none());
    assert!(tasks.contains_key(&key));
    assert!(!tasks.contains_key(&other));
    let replaced = tasks
        .insert_with_coords(
            key.slippy_tile_coordinates,
            key.zoom_level,
            key.tile_size,
            TileDownloadStatus { path: "b".into(), load_status: DownloadStatus::Downloaded },
        )
        .unwrap();
    assert_eq!(replaced.path, "a");
    assert_eq!(replaced.load_status, DownloadStatus::Downloading);
    assert_eq!(tasks.get(&key).unwrap().path, "b");
    assert!(tasks.get(&other).is_none());
    let removed = tasks.remove(&key).unwrap();
    assert_eq!(removed.path, "b");
    assert_eq!(removed.load_status, DownloadStatus::Downloaded);
    assert!(!tasks.contains_key(&key));
    assert!(tasks.remove(&key).is_none());
}

#[test]
fn key_code_is_made_of_the_four_numbers() {
    let key = SlippyTileDownloadTaskKey {
        slippy_tile_coordinates: SlippyTileCoordinates { x: 66362, y: 45115 },
        zoom_level: ZoomLevel::L17,
        tile_size: TileSize::Large,
    };
    assert_eq!(key.code(), (66362, 45115, 17, 512));
}

#[test]
fn events_give_their_coordinates() {
    let request = DownloadSlippyTilesEvent {
        tile_size: TileSize::Normal,
        zoom_level: ZoomLevel::L10,
        coordinates: SlippyTileCoordinates { x: 512, y: 512 },
        radius: Radius(1),
        use_cache: true,
    };
    assert_eq!(
        request.get_slippy_tile_coordinates(),
        SlippyTileCoordinates { x: 512, y: 512 }
    );
    let downloaded = SlippyTileDownloadedEvent {
        tile_size: TileSize::Normal,
        zoom_level: ZoomLevel::L10,
        coordinates: SlippyTileCoordinates { x: 3, y: 4 },
        path: "p".into(),
    };
    assert_eq!(
        downloaded.get_slippy_tile_coordinates(),
        SlippyTileCoordinates { x: 3, y: 4 }
    );
}
