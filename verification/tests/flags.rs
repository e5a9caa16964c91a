use bevy_slippy_tiles::{
    decide, AlreadyDownloaded, FileExists, TileAction, UseCache,
};

fn action(use_cache: bool, already_downloaded: bool, file_exists: bool) -> TileAction {
    decide(
        UseCache::new(use_cache),
        AlreadyDownloaded::new(already_downloaded),
        FileExists::new(file_exists),
    )
}

#[test]
fn flags_from_bool() {
    assert!(matches!(UseCache::new(true), UseCache::Yes));
    assert!(matches!(UseCache::new(false), UseCache::No));
    assert!(matches!(AlreadyDownloaded::new(true), AlreadyDownloaded::Yes));
    assert!(matches!(AlreadyDownloaded::new(false), AlreadyDownloaded::No));
    assert!(matches!(FileExists::new(true), FileExists::Yes));
    assert!(matches!(FileExists::new(false), FileExists::No));
}

#[test]
fn cache_policy_table() {
    // Known and no file: a download is awaited, whatever the cache flag.
    assert_eq!(action(true, true, false), TileAction::Leave);
    assert_eq!(action(false, true, false), TileAction::Leave);
    // The cache may not be used.
    assert_eq!(action(false, false, false), TileAction::Fetch);
    assert_eq!(action(false, false, true), TileAction::Fetch);
    assert_eq!(action(false, true, true), TileAction::Fetch);
    // Not known and no file.
    assert_eq!(action(true, false, false), TileAction::Fetch);
    // The cache may be used and the file is there.
    assert_eq!(action(true, false, true), TileAction::LoadFromDisk);
    assert_eq!(action(true, true, true), TileAction::LoadFromDisk);
}
