use bevy_slippy_tiles::{
    download_slippy_tiles, download_slippy_tiles_completed, is_downloading, is_on_disk,
    region_filenames, request_slippy_tile,
    ActiveDownloads, DownloadRateLimiter, DownloadSlippyTilesEvent, DownloadStatus, DownloadTask,
    Radius, SlippyTileCoordinates, SlippyTileDownloadStatus, SlippyTileDownloadTaskKey,
    SlippyTileDownloadTaskResult, SlippyTileDownloadTasks, SlippyTilesSettings, TileSize,
    ZoomLevel,
};

const SECOND: u64 = 1_000_000_000;

struct World {
    settings: SlippyTilesSettings,
    status: SlippyTileDownloadStatus,
    tasks: SlippyTileDownloadTasks,
    limiter: DownloadRateLimiter,
    active: ActiveDownloads,
}

fn world(max_concurrent_downloads: usize, rate_limit_requests: usize) -> World {
    World {
        settings: SlippyTilesSettings {
            endpoint: "https://tiles.example".into(),
            tiles_directory: "tiles/".into(),
            max_concurrent_downloads,
            max_retries: 3,
            rate_limit_requests,
            rate_limit_window: SECOND,
        },
        status: SlippyTileDownloadStatus::new(),
        tasks: SlippyTileDownloadTasks::new(),
        limiter: DownloadRateLimiter::new(),
        active: ActiveDownloads::new(),
    }
}

fn event(x: u32, y: u32, radius: u8, use_cache: bool) -> DownloadSlippyTilesEvent {
    DownloadSlippyTilesEvent {
        tile_size: TileSize::Normal,
        zoom_level: ZoomLevel::L10,
        coordinates: SlippyTileCoordinates { x, y },
        radius: Radius(radius),
        use_cache,
    }
}

fn key(x: u32, y: u32) -> SlippyTileDownloadTaskKey {
    SlippyTileDownloadTaskKey {
        slippy_tile_coordinates: SlippyTileCoordinates { x, y },
        zoom_level: ZoomLevel::L10,
        tile_size: TileSize::Normal,
    }
}

fn tick(
    w: &mut World,
    events: Vec<DownloadSlippyTilesEvent>,
    files: Vec<String>,
    now: u64,
) -> Vec<DownloadTask> {
    download_slippy_tiles(
        &events,
        &files,
        now,
        &w.settings,
        &mut w.status,
        &mut w.tasks,
        &mut w.limiter,
        &mut w.active,
    )
}

fn fetched_keys(started: &[DownloadTask]) -> Vec<SlippyTileDownloadTaskKey> {
    started
        .iter()
        .filter_map(|task| match task {
            DownloadTask::Fetch { key, .. } => Some(*key),
            DownloadTask::LoadFromDisk { .. } => None,
        })
        .collect()
}

#[test]
fn is_on_disk_looks_for_the_exact_path() {
    let files: Vec<String> = vec!["tiles/a".into(), "tiles/b".into()];
    assert!(is_on_disk(&files, &"tiles/a".to_string()));
    assert!(is_on_disk(&files, &"tiles/b".to_string()));
    assert!(!is_on_disk(&files, &"tiles/".to_string()));
    assert!(!is_on_disk(&files, &"tiles/c".to_string()));
    assert!(!is_on_disk(&Vec::new(), &"tiles/a".to_string()));
}

#[test]
fn request_fetches_an_unknown_tile() {
    let mut w = world(4, 10);
    let started = tick(&mut w, vec![event(100, 50, 0, true)], vec![], 0);
    assert_eq!(started.len(), 1);
    match &started[0] {
        DownloadTask::Fetch { key: k, url, path, max_retries } => {
            assert_eq!(*k, key(100, 50));
            assert_eq!(url, "https://tiles.example/10/100/50.png");
            assert_eq!(path, "tiles/10.100.50.256.tile.png");
            assert_eq!(*max_retries, 3);
        }
        other => panic!("expected a fetch, got {:?}", other),
    }
    let record = w.status.get(&key(100, 50)).unwrap();
    assert_eq!(record.path, "tiles/10.100.50.256.tile.png");
    assert_eq!(record.load_status, DownloadStatus::Downloading);
    assert_eq!(
        w.tasks.get(&key(100, 50)).unwrap().load_status,
        DownloadStatus::Downloading
    );
    assert_eq!(w.active.count(), 1);
    assert_eq!(w.limiter.buffered_len(), 0);
}

#[test]
fn request_with_cache_and_file_on_disk_never_fetches() {
    let mut w = world(4, 10);
    let files = vec!["tiles/10.100.50.256.tile.png".to_string()];
    let started = tick(&mut w, vec![event(100, 50, 0, true)], files, 0);
    assert_eq!(started.len(), 1);
    match &started[0] {
        DownloadTask::LoadFromDisk { key: k, path } => {
            assert_eq!(*k, key(100, 50));
            assert_eq!(path, "tiles/10.100.50.256.tile.png");
        }
        other => panic!("expected a load from disk, got {:?}", other),
    }
    assert_eq!(
        w.status.get(&key(100, 50)).unwrap().load_status,
        DownloadStatus::Downloaded
    );
    assert_eq!(
        w.tasks.get(&key(100, 50)).unwrap().load_status,
        DownloadStatus::Downloaded
    );
    // A load from disk holds no slot.
    assert_eq!(w.active.count(), 0);
}

#[test]
fn request_without_cache_fetches_although_the_file_is_on_disk() {
    let mut w = world(4, 10);
    let files = vec!["tiles/10.100.50.256.tile.png".to_string()];
    let started = tick(&mut w, vec![event(100, 50, 0, false)], files, 0);
    assert_eq!(fetched_keys(&started), vec![key(100, 50)]);
    assert_eq!(w.active.count(), 1);
}

#[test]
fn second_request_while_downloading_starts_no_second_fetch() {
    let mut w = world(4, 10);
    let first = tick(&mut w, vec![event(100, 50, 0, true)], vec![], 0);
    assert_eq!(fetched_keys(&first), vec![key(100, 50)]);
    let second = tick(&mut w, vec![event(100, 50, 0, true)], vec![], 1);
    assert!(second.is_empty());
    let third = tick(&mut w, vec![event(100, 50, 0, false)], vec![], 2);
    assert!(third.is_empty());
    assert_eq!(w.active.count(), 1);
    assert_eq!(w.limiter.buffered_len(), 0);

    // The one download ends: one event, and only one.
    let finished = vec![(
        key(100, 50),
        SlippyTileDownloadTaskResult { path: "tiles/10.100.50.256.tile.png".into() },
    )];
    let events =
        download_slippy_tiles_completed(&finished, &mut w.status, &mut w.tasks, &mut w.active);
    assert_eq!(events.len(), 1);
    assert_eq!(events[0].coordinates, SlippyTileCoordinates { x: 100, y: 50 });
    assert_eq!(events[0].zoom_level, ZoomLevel::L10);
    assert_eq!(events[0].tile_size, TileSize::Normal);
    assert_eq!(events[0].path, "tiles/10.100.50.256.tile.png");
    assert_eq!(
        w.status.get(&key(100, 50)).unwrap().load_status,
        DownloadStatus::Downloaded
    );
    assert!(!w.tasks.contains_key(&key(100, 50)));
    assert_eq!(w.active.count(), 0);
    let again =
        download_slippy_tiles_completed(&finished, &mut w.status, &mut w.tasks, &mut w.active);
    assert!(again.is_empty());
    assert_eq!(w.active.count(), 0);
}

#[test]
fn two_requests_for_one_tile_in_one_tick_fetch_once() {
    let mut w = world(4, 10);
    let started = tick(
        &mut w,
        vec![event(100, 50, 0, true), event(100, 50, 0, true)],
        vec![],
        0,
    );
    assert_eq!(fetched_keys(&started), vec![key(100, 50)]);
    assert_eq!(w.active.count(), 1);
}

#[test]
fn region_request_derives_all_tiles_of_the_square() {
    let mut w = world(100, 100);
    let started = tick(&mut w, vec![event(100, 50, 2, true)], vec![], 0);
    let keys = fetched_keys(&started);
    assert_eq!(keys.len(), 25);
    for x in 98..=102 {
        for y in 48..=52 {
            assert_eq!(keys.iter().filter(|k| **k == key(x, y)).count(), 1);
            assert!(w.status.contains_key(x, y, ZoomLevel::L10, TileSize::Normal));
        }
    }
    assert_eq!(keys[0], key(98, 48));
    assert_eq!(keys[24], key(102, 52));
    assert_eq!(w.active.count(), 25);
}

#[test]
fn concurrency_bound_puts_requests_off_and_nothing_is_lost() {
    let mut w = world(2, 100);
    // Nine tiles, two slots: two fetches, seven wait.
    let started = tick(&mut w, vec![event(100, 50, 1, true)], vec![], 0);
    assert_eq!(fetched_keys(&started), vec![key(99, 49), key(99, 50)]);
    assert_eq!(w.active.count(), 2);
    assert_eq!(w.limiter.buffered_len(), 7);

    // Nothing ends: nothing is started, nothing is lost.
    let started = tick(&mut w, vec![], vec![], 1);
    assert!(started.is_empty());
    assert_eq!(w.limiter.buffered_len(), 7);

    // One download ends: the request that waited longest is taken up.
    let finished = vec![(key(99, 49), SlippyTileDownloadTaskResult { path: "p".into() })];
    let events =
        download_slippy_tiles_completed(&finished, &mut w.status, &mut w.tasks, &mut w.active);
    assert_eq!(events.len(), 1);
    assert_eq!(w.active.count(), 1);
    let started = tick(&mut w, vec![], vec![], 2);
    assert_eq!(fetched_keys(&started), vec![key(99, 51)]);
    assert_eq!(w.limiter.buffered_len(), 6);
    assert_eq!(w.active.count(), 2);
}

#[test]
fn rate_limit_puts_requests_off_until_the_window_has_passed() {
    let mut w = world(100, 3);
    let started = tick(&mut w, vec![event(100, 50, 1, true)], vec![], 10);
    assert_eq!(
        fetched_keys(&started),
        vec![key(99, 49), key(99, 50), key(99, 51)]
    );
    assert_eq!(w.limiter.buffered_len(), 6);
    // Within the window nothing more is admitted.
    let started = tick(&mut w, vec![], vec![], 10 + SECOND);
    assert!(started.is_empty());
    assert_eq!(w.limiter.buffered_len(), 6);
    // After the window the next three leave the queue, oldest first.
    let started = tick(&mut w, vec![], vec![], 11 + SECOND);
    assert_eq!(
        fetched_keys(&started),
        vec![key(100, 49), key(100, 50), key(100, 51)]
    );
    assert_eq!(w.limiter.buffered_len(), 3);
    let started = tick(&mut w, vec![], vec![], 12 + 2 * SECOND);
    assert_eq!(
        fetched_keys(&started),
        vec![key(101, 49), key(101, 50), key(101, 51)]
    );
    assert_eq!(w.limiter.buffered_len(), 0);
}

#[test]
fn buffered_requests_keep_the_endpoint_they_came_with() {
    let mut w = world(0, 100);
    let started = tick(&mut w, vec![event(7, 8, 0, true)], vec![], 0);
    assert!(started.is_empty());
    assert_eq!(w.limiter.buffered_len(), 1);
    w.settings.endpoint = "https://other.example".into();
    w.settings.max_concurrent_downloads = 1;
    let started = tick(&mut w, vec![], vec![], 1);
    assert_eq!(started.len(), 1);
    match &started[0] {
        DownloadTask::Fetch { url, path, .. } => {
            assert_eq!(url, "https://tiles.example/10/7/8.png");
            assert_eq!(path, "tiles/10.7.8.256.tile.png");
        }
        other => panic!("expected a fetch, got {:?}", other),
    }
}

#[test]
fn load_from_disk_replaces_a_transfer_and_frees_its_slot() {
    let mut w = world(4, 10);
    let started = tick(&mut w, vec![event(1, 1, 0, true)], vec![], 0);
    assert_eq!(fetched_keys(&started), vec![key(1, 1)]);
    assert_eq!(w.active.count(), 1);
    // The file has appeared meanwhile: the tile is loaded from disk.
    let files = vec!["tiles/10.1.1.256.tile.png".to_string()];
    let started = tick(&mut w, vec![event(1, 1, 0, true)], files, 1);
    assert_eq!(started.len(), 1);
    assert!(matches!(started[0], DownloadTask::LoadFromDisk { .. }));
    assert_eq!(w.active.count(), 0);
    assert_eq!(
        w.status.get(&key(1, 1)).unwrap().load_status,
        DownloadStatus::Downloaded
    );
}

#[test]
fn request_slippy_tile_handles_one_tile() {
    let mut w = world(1, 10);
    let request = event(5, 6, 3, true);
    let task = request_slippy_tile(
        SlippyTileCoordinates { x: 5, y: 6 },
        &request,
        &Vec::new(),
        0,
        &w.settings,
        &mut w.status,
        &mut w.tasks,
        &mut w.limiter,
        &mut w.active,
    );
    assert!(matches!(task, Some(DownloadTask::Fetch { .. })));
    // The one slot is taken: the next tile waits.
    let task = request_slippy_tile(
        SlippyTileCoordinates { x: 5, y: 7 },
        &request,
        &Vec::new(),
        0,
        &w.settings,
        &mut w.status,
        &mut w.tasks,
        &mut w.limiter,
        &mut w.active,
    );
    assert!(task.is_none());
    assert_eq!(w.limiter.buffered_len(), 1);
    let waiting = w.limiter.next_buffered().unwrap();
    assert_eq!(waiting.coords, (5, 7));
    assert_eq!(waiting.endpoint, "https://tiles.example");
    assert_eq!(waiting.filename, "tiles/10.5.7.256.tile.png");
}

#[test]
fn completion_of_an_unknown_tile_changes_nothing() {
    let mut w = world(4, 10);
    let finished = vec![(key(1, 2), SlippyTileDownloadTaskResult { path: "p".into() })];
    let events =
        download_slippy_tiles_completed(&finished, &mut w.status, &mut w.tasks, &mut w.active);
    assert!(events.is_empty());
    assert!(w.status.get(&key(1, 2)).is_none());
    assert_eq!(w.active.count(), 0);
}

#[test]
fn completion_records_the_reported_path() {
    let mut w = world(4, 10);
    tick(&mut w, vec![event(1, 2, 0, true), event(3, 4, 0, true)], vec![], 0);
    let finished = vec![
        (key(3, 4), SlippyTileDownloadTaskResult { path: "elsewhere".into() }),
        (key(1, 2), SlippyTileDownloadTaskResult { path: "tiles/10.1.2.256.tile.png".into() }),
    ];
    let events =
        download_slippy_tiles_completed(&finished, &mut w.status, &mut w.tasks, &mut w.active);
    assert_eq!(events.len(), 2);
    assert_eq!(events[0].coordinates, SlippyTileCoordinates { x: 3, y: 4 });
    assert_eq!(events[0].path, "elsewhere");
    assert_eq!(events[1].coordinates, SlippyTileCoordinates { x: 1, y: 2 });
    assert_eq!(w.status.get(&key(3, 4)).unwrap().path, "elsewhere");
    assert_eq!(w.active.count(), 0);
}

#[test]
fn downloaded_tile_whose_file_is_gone_is_fetched_again() {
    let mut w = world(4, 10);
    w.status.insert(
        1,
        2,
        ZoomLevel::L10,
        TileSize::Normal,
        "tiles/10.1.2.256.tile.png".into(),
        DownloadStatus::Downloaded,
    );
    assert!(!is_downloading(&w.status, &key(1, 2)));
    let started = tick(&mut w, vec![event(1, 2, 0, true)], vec![], 0);
    assert_eq!(fetched_keys(&started), vec![key(1, 2)]);
    assert!(is_downloading(&w.status, &key(1, 2)));
    assert!(!is_downloading(&w.status, &key(2, 1)));
}

#[test]
fn region_filenames_follow_the_region() {
    let settings = SlippyTilesSettings {
        tiles_directory: "t/".into(),
        ..Default::default()
    };
    let names = region_filenames(&event(1, 0, 1, true), &settings);
    assert_eq!(
        names,
        vec![
            "t/10.0.0.256.tile.png",
            "t/10.0.1.256.tile.png",
            "t/10.1.0.256.tile.png",
            "t/10.1.1.256.tile.png",
            "t/10.2.0.256.tile.png",
            "t/10.2.1.256.tile.png",
        ]
    );
}

#[test]
fn tile_that_was_put_off_is_loaded_from_disk_when_it_is_taken_up() {
    // No slot is free when the request comes, so the tile waits. When it is
    // taken up it is decided like a new request: its file is on disk and the
    // cache may be used, so nothing is transferred.
    let mut w = world(0, 10);
    let files = vec!["tiles/10.1.1.256.tile.png".to_string()];
    let started = tick(&mut w, vec![event(1, 1, 0, true)], files.clone(), 0);
    assert!(started.is_empty());
    assert_eq!(w.limiter.buffered_len(), 1);
    assert_eq!(w.limiter.buffered_filenames(), files);
    w.settings.max_concurrent_downloads = 1;
    let started = tick(&mut w, vec![], files, 1);
    assert!(fetched_keys(&started).is_empty());
    assert_eq!(started.len(), 1);
    match &started[0] {
        DownloadTask::LoadFromDisk { key: k, path } => {
            assert_eq!(*k, key(1, 1));
            assert_eq!(path, "tiles/10.1.1.256.tile.png");
        }
        other => panic!("expected a load from disk, got {:?}", other),
    }
    assert_eq!(w.limiter.buffered_len(), 0);
    assert_eq!(w.active.count(), 0);
    assert_eq!(
        w.status.get(&key(1, 1)).unwrap().load_status,
        DownloadStatus::Downloaded
    );
}

#[test]
fn tile_that_was_put_off_without_cache_is_transferred_when_it_is_taken_up() {
    let mut w = world(0, 10);
    let files = vec!["tiles/10.1.1.256.tile.png".to_string()];
    let started = tick(&mut w, vec![event(1, 1, 0, false)], files.clone(), 0);
    assert!(started.is_empty());
    w.settings.max_concurrent_downloads = 1;
    let started = tick(&mut w, vec![], files, 1);
    assert_eq!(fetched_keys(&started), vec![key(1, 1)]);
    assert_eq!(w.active.count(), 1);
}

#[test]
fn tile_that_waits_twice_is_transferred_once() {
    let mut w = world(0, 10);
    let started = tick(
        &mut w,
        vec![event(1, 1, 0, true), event(1, 1, 0, true)],
        vec![],
        0,
    );
    assert!(started.is_empty());
    assert_eq!(w.limiter.buffered_len(), 2);
    w.settings.max_concurrent_downloads = 4;
    let started = tick(&mut w, vec![], vec![], 1);
    assert_eq!(fetched_keys(&started), vec![key(1, 1)]);
    assert_eq!(w.limiter.buffered_len(), 0);
    assert_eq!(w.active.count(), 1);
    // One download, one event.
    let finished = vec![(
        key(1, 1),
        SlippyTileDownloadTaskResult { path: "tiles/10.1.1.256.tile.png".into() },
    )];
    let events =
        download_slippy_tiles_completed(&finished, &mut w.status, &mut w.tasks, &mut w.active);
    assert_eq!(events.len(), 1);
    assert_eq!(w.active.count(), 0);
}

#[test]
fn request_for_a_directory_without_separator() {
    let mut w = world(4, 10);
    w.settings.tiles_directory = "tiles".into();
    let files = vec!["tiles/10.3.4.256.tile.png".to_string()];
    let started = tick(&mut w, vec![event(3, 4, 0, true)], files, 0);
    assert!(matches!(started[0], DownloadTask::LoadFromDisk { .. }));
}
