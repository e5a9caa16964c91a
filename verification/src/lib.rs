//! Slippy map tiles: tile identities, the names under which tiles are stored
//! and fetched, and the bookkeeping that decides when a tile is downloaded.
//!
//! The library decides and keeps books; it touches neither storage nor the
//! network. Each tick its caller hands it the requests, the tile files that are
//! in storage and the time, and is handed back the tasks to start. The caller
//! runs the tasks, each as a [`TileFetch`], and reports the ones that have
//! ended, for which the library returns the events to send.
//!
//! - [`types`], [`coordinates`], [`settings`]: the values the rest works on.
//! - [`naming`]: the file and the URL of a tile.
//! - [`region`]: the tiles of a request.
//! - [`tile_map`], [`download`]: the registry of tiles and the tasks under way.
//! - [`limiter`]: the rate limit, the queue of requests put off, and the count
//!   of transfers under way.
//! - [`fetch`]: one transfer with its attempts.
//! - [`model`]: the state of all downloads as a plain value, its steps, and
//!   what holds of them.
//! - [`systems`]: the steps as executable functions.
pub mod coordinates;
pub mod download;
pub mod fetch;
pub mod limiter;
pub mod model;
pub mod naming;
pub mod region;
pub mod settings;
pub mod systems;
pub mod tile_map;
pub mod types;

pub use coordinates::{max_pixels_in_dimension, max_tiles_in_dimension, SlippyTileCoordinates};
pub use download::{
    DownloadSlippyTilesEvent, SlippyTileDownloadStatus, SlippyTileDownloadTaskKey,
    SlippyTileDownloadTaskResult, SlippyTileDownloadTasks, SlippyTileDownloadedEvent,
};
pub use fetch::{FetchAction, FetchEvent, FetchPhase, TileFetch, TileRequest};
pub use model::TileAction;
pub use limiter::{ActiveDownloads, BufferedRequest, DownloadRateLimiter};
pub use naming::{get_tile_filename, get_tile_url};
pub use region::region_tiles;
pub use settings::SlippyTilesSettings;
pub use systems::{
    decide, download_slippy_tiles, download_slippy_tiles_completed, is_downloading, is_on_disk,
    region_filenames, request_slippy_tile, DownloadTask,
};
pub use tile_map::TileDownloadStatus;
pub use types::{
    AlreadyDownloaded, DownloadStatus, FileExists, Radius, TileSize, UseCache, ZoomLevel,
};
