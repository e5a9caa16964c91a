//! The settings that steer downloads.
use vstd::prelude::*;

verus! {

/// Type used to dictate various settings for this crate.
///
/// - `endpoint` - Tile server endpoint (example: <https://tile.openstreetmap.org>)
/// - `tiles_directory` - The folder that all tiles will be stored in, with or
///   without a `/` at its end
/// - `max_concurrent_downloads` - Maximum number of concurrent tile downloads
/// - `max_retries` - Maximum number of attempts for a tile download
/// - `rate_limit_requests` - Maximum number of requests allowed within the rate limit window
/// - `rate_limit_window` - Duration of the rate limit window, in nanoseconds
#[derive(Clone, Debug)]
pub struct SlippyTilesSettings {
    pub endpoint: String,
    pub tiles_directory: String,
    pub max_concurrent_downloads: usize,
    pub max_retries: u32,
    pub rate_limit_requests: usize,
    pub rate_limit_window: u64,
}

/// One second, in the unit of `rate_limit_window`.
pub const NANOSECONDS_PER_SECOND: u64 = 1_000_000_000;

impl SlippyTilesSettings {
    /// The folder that all tiles are stored in, as it is put in front of each
    /// tile's file name.
    pub fn get_tiles_directory_string(&self) -> (directory: String)
        ensures
            directory@ == self.tiles_directory@,
    {
        self.tiles_directory.clone()
    }
}

impl Default for SlippyTilesSettings {
    /// The OpenStreetMap tile server, tiles under `tiles/`, at most 4 downloads
    /// at a time, 3 attempts for each, and 10 requests in any one second.
    fn default() -> (settings: Self)
        ensures
            settings.endpoint@ == "https://tile.openstreetmap.org"@,
            settings.tiles_directory@ == "tiles/"@,
            settings.max_concurrent_downloads == 4,
            settings.max_retries == 3,
            settings.rate_limit_requests == 10,
            settings.rate_limit_window == NANOSECONDS_PER_SECOND,
    {
        Self {
            endpoint: String::from_str("https://tile.openstreetmap.org"),
            tiles_directory: String::from_str("tiles/"),
            max_concurrent_downloads: 4,
            max_retries: 3,
            rate_limit_requests: 10,
            rate_limit_window: NANOSECONDS_PER_SECOND,
        }
    }
}

} // verus!
