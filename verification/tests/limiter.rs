use bevy_slippy_tiles::{
    ActiveDownloads, DownloadRateLimiter, SlippyTilesSettings, TileSize, ZoomLevel,
};

const MILLISECOND: u64 = 1_000_000;
const SECOND: u64 = 1_000_000_000;

fn settings(limit: usize, window: u64) -> SlippyTilesSettings {
    SlippyTilesSettings {
        rate_limit_requests: limit,
        rate_limit_window: window,
        ..Default::default()
    }
}

#[test]
fn rate_limiter_admits_up_to_the_limit_within_the_window() {
    let settings = settings(2, SECOND);
    let mut limiter = DownloadRateLimiter::default();
    let start = 5 * SECOND;
    assert!(limiter.can_make_request(start, &settings));
    assert!(limiter.can_make_request(start + 5 * MILLISECOND, &settings));
    assert!(!limiter.can_make_request(start + 10 * MILLISECOND, &settings));
    // Past the window of the first two admissions.
    assert!(limiter.can_make_request(start + SECOND + 6 * MILLISECOND, &settings));
}

#[test]
fn rate_limiter_window_edge_is_still_counted() {
    let settings = settings(1, SECOND);
    let mut limiter = DownloadRateLimiter::new();
    assert!(limiter.can_make_request(100, &settings));
    // Exactly one window later the admission has not left the window yet.
    assert!(!limiter.can_make_request(100 + SECOND, &settings));
    assert!(limiter.can_make_request(100 + SECOND + 1, &settings));
}

#[test]
fn rate_limiter_denial_records_nothing() {
    let settings = settings(1, SECOND);
    let mut limiter = DownloadRateLimiter::new();
    assert!(limiter.can_make_request(0, &settings));
    assert!(!limiter.can_make_request(SECOND / 2, &settings));
    // Had the denied request been recorded, this one would be denied too.
    assert!(limiter.can_make_request(SECOND + 1, &settings));
}

#[test]
fn rate_limiter_with_limit_zero_admits_nothing() {
    let settings = settings(0, SECOND);
    let mut limiter = DownloadRateLimiter::new();
    assert!(!limiter.can_make_request(0, &settings));
    assert!(!limiter.can_make_request(10 * SECOND, &settings));
}

#[test]
fn rate_limiter_time_that_goes_back_expires_nothing() {
    let settings = settings(1, SECOND);
    let mut limiter = DownloadRateLimiter::new();
    assert!(limiter.can_make_request(10 * SECOND, &settings));
    assert!(!limiter.can_make_request(SECOND, &settings));
}

#[test]
fn buffered_requests_leave_in_the_order_they_came() {
    let mut limiter = DownloadRateLimiter::new();
    assert_eq!(limiter.buffered_len(), 0);
    assert!(limiter.next_buffered().is_none());
    limiter.buffer_request(
        (1, 2),
        ZoomLevel::L3,
        TileSize::Normal,
        "a".into(),
        "first".into(),
        true,
    );
    limiter.buffer_request(
        (4, 5),
        ZoomLevel::L6,
        TileSize::Large,
        "b".into(),
        "second".into(),
        false,
    );
    assert_eq!(limiter.buffered_len(), 2);
    assert_eq!(limiter.buffered_filenames(), vec!["first", "second"]);
    let first = limiter.next_buffered().unwrap();
    assert_eq!(first.coords, (1, 2));
    assert_eq!(first.zoom_level, ZoomLevel::L3);
    assert_eq!(first.tile_size, TileSize::Normal);
    assert_eq!(first.endpoint, "a");
    assert_eq!(first.filename, "first");
    assert!(first.use_cache);
    assert_eq!(limiter.buffered_filenames(), vec!["second"]);
    let second = limiter.next_buffered().unwrap();
    assert_eq!(second.coords, (4, 5));
    assert_eq!(second.filename, "second");
    assert!(!second.use_cache);
    assert!(limiter.next_buffered().is_none());
}

#[test]
fn active_downloads_with_bound_one() {
    let mut slots = ActiveDownloads::default();
    assert!(slots.try_acquire(1));
    assert!(!slots.try_acquire(1));
    slots.release();
    assert!(slots.try_acquire(1));
}

#[test]
fn active_downloads_count_slots() {
    let mut slots = ActiveDownloads::new();
    assert_eq!(slots.count(), 0);
    assert!(!slots.try_acquire(0));
    assert!(slots.try_acquire(3));
    assert!(slots.try_acquire(3));
    assert!(slots.try_acquire(3));
    assert!(!slots.try_acquire(3));
    assert_eq!(slots.count(), 3);
    slots.release();
    assert_eq!(slots.count(), 2);
    slots.release();
    slots.release();
    assert_eq!(slots.count(), 0);
    slots.release();
    assert_eq!(slots.count(), 0);
}
