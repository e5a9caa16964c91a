//! The identity of a tile download, the registry of what is known of each tile
//! and the set of downloads that have not reported yet.
use vstd::prelude::*;
use crate::coordinates::SlippyTileCoordinates;
use crate::tile_map::{
    tile_map_contains_key, tile_map_entries, tile_map_get, tile_map_insert, tile_map_new,
    tile_map_remove, TileCode, TileDownloadStatus, TileMap, TileRecord,
};
use crate::types::{DownloadStatus, Radius, TileSize, ZoomLevel};

verus! {

/// Unique representation of a slippy tile download task: two tiles are the
/// same when coordinates, zoom level and tile size all agree.
#[derive(Eq, PartialEq, Hash, Clone, Copy, Debug, Structural)]
pub struct SlippyTileDownloadTaskKey {
    pub slippy_tile_coordinates: SlippyTileCoordinates,
    pub zoom_level: ZoomLevel,
    pub tile_size: TileSize,
}

impl SlippyTileDownloadTaskKey {
    /// The key as plain numbers, under which the tile is kept in a map.
    pub open spec fn spec_code(&self) -> TileCode {
        (
            self.slippy_tile_coordinates.x,
            self.slippy_tile_coordinates.y,
            self.zoom_level.level() as u8,
            self.tile_size.pixels() as u32,
        )
    }

    /// The key as plain numbers: column, row, zoom level and edge length.
    #[verifier::when_used_as_spec(spec_code)]
    pub fn code(&self) -> (code: TileCode)
        ensures
            code == self.spec_code(),
    {
        (
            self.slippy_tile_coordinates.x,
            self.slippy_tile_coordinates.y,
            self.zoom_level.to_u8(),
            self.tile_size.to_pixels(),
        )
    }
}

/// Different keys have different codes.
pub proof fn lemma_code_identifies_key(a: SlippyTileDownloadTaskKey, b: SlippyTileDownloadTaskKey)
    ensures
        a.code() == b.code() <==> a == b,
{
}

/// The records of a tile map by key: a key is present when its code is, and
/// has the record stored under its code.
pub open spec fn records_by_key(entries: Map<TileCode, TileRecord>) -> Map<
    SlippyTileDownloadTaskKey,
    TileRecord,
> {
    Map::new(
        |key: SlippyTileDownloadTaskKey| entries.dom().contains(key.code()),
        |key: SlippyTileDownloadTaskKey| entries[key.code()],
    )
}

/// Storing under a key's code stores under the key, and removing likewise.
pub proof fn lemma_records_by_key_updates(
    entries: Map<TileCode, TileRecord>,
    key: SlippyTileDownloadTaskKey,
    record: TileRecord,
)
    ensures
        records_by_key(entries.insert(key.code(), record)) == records_by_key(entries).insert(
            key,
            record,
        ),
        records_by_key(entries.remove(key.code())) == records_by_key(entries).remove(key),
        records_by_key(Map::empty()) == Map::<SlippyTileDownloadTaskKey, TileRecord>::empty(),
{
    assert forall|other: SlippyTileDownloadTaskKey| other.code() == key.code() implies other
        == key by {
        lemma_code_identifies_key(other, key);
    }
    assert(records_by_key(entries.insert(key.code(), record)) =~= records_by_key(entries).insert(
        key,
        record,
    ));
    assert(records_by_key(entries.remove(key.code())) =~= records_by_key(entries).remove(key));
    assert(records_by_key(Map::empty()) =~= Map::<SlippyTileDownloadTaskKey, TileRecord>::empty());
}

/// HashMap that keeps track of the slippy tiles that have been downloaded or
/// are being downloaded. Entries are added and overwritten, never removed.
pub struct SlippyTileDownloadStatus {
    tiles: TileMap,
}

impl View for SlippyTileDownloadStatus {
    type V = Map<SlippyTileDownloadTaskKey, TileRecord>;

    /// For each known tile, its path and its status.
    closed spec fn view(&self) -> Map<SlippyTileDownloadTaskKey, TileRecord> {
        records_by_key(tile_map_entries(self.tiles))
    }
}

impl SlippyTileDownloadStatus {
    /// The registry that knows no tile.
    pub fn new() -> (registry: SlippyTileDownloadStatus)
        ensures
            registry@ == Map::<SlippyTileDownloadTaskKey, TileRecord>::empty(),
    {
        proof {
            lemma_records_by_key_updates(Map::empty(), arbitrary(), arbitrary());
        }
        SlippyTileDownloadStatus { tiles: tile_map_new() }
    }

    /// Records path and status of the tile at `(x, y)`; what was known of the
    /// tile before is overwritten.
    pub fn insert(
        &mut self,
        x: u32,
        y: u32,
        zoom_level: ZoomLevel,
        tile_size: TileSize,
        filename: String,
        download_status: DownloadStatus,
    )
        ensures
            final(self)@ == old(self)@.insert(
                SlippyTileDownloadTaskKey {
                    slippy_tile_coordinates: SlippyTileCoordinates { x, y },
                    zoom_level,
                    tile_size,
                },
                (filename@, download_status),
            ),
    {
        self.insert_with_coords(
            SlippyTileCoordinates { x, y },
            zoom_level,
            tile_size,
            filename,
            download_status,
        );
    }

    /// Records path and status of the tile at the given coordinates; what was
    /// known of the tile before is overwritten.
    pub fn insert_with_coords(
        &mut self,
        slippy_tile_coordinates: SlippyTileCoordinates,
        zoom_level: ZoomLevel,
        tile_size: TileSize,
        filename: String,
        download_status: DownloadStatus,
    )
        ensures
            final(self)@ == old(self)@.insert(
                SlippyTileDownloadTaskKey { slippy_tile_coordinates, zoom_level, tile_size },
                (filename@, download_status),
            ),
    {
        let key = SlippyTileDownloadTaskKey { slippy_tile_coordinates, zoom_level, tile_size };
        proof {
            lemma_records_by_key_updates(
                tile_map_entries(self.tiles),
                key,
                (filename@, download_status),
            );
        }
        tile_map_insert(
            &mut self.tiles,
            key.code(),
            TileDownloadStatus { path: filename, load_status: download_status },
        );
    }

    /// Whether the tile at `(x, y)` is known, whatever its status.
    pub fn contains_key(&self, x: u32, y: u32, zoom_level: ZoomLevel, tile_size: TileSize) -> (known:
        bool)
        ensures
            known == self@.dom().contains(
                SlippyTileDownloadTaskKey {
                    slippy_tile_coordinates: SlippyTileCoordinates { x, y },
                    zoom_level,
                    tile_size,
                },
            ),
    {
        self.contains_key_with_coords(SlippyTileCoordinates { x, y }, zoom_level, tile_size)
    }

    /// Whether the tile at the given coordinates is known, whatever its status.
    pub fn contains_key_with_coords(
        &self,
        slippy_tile_coordinates: SlippyTileCoordinates,
        zoom_level: ZoomLevel,
        tile_size: TileSize,
    ) -> (known: bool)
        ensures
            known == self@.dom().contains(
                SlippyTileDownloadTaskKey { slippy_tile_coordinates, zoom_level, tile_size },
            ),
    {
        let key = SlippyTileDownloadTaskKey { slippy_tile_coordinates, zoom_level, tile_size };
        tile_map_contains_key(&self.tiles, &key.code())
    }

    /// What is known of a tile: its path and status, or `None` for a tile that
    /// was never recorded.
    pub fn get(&self, key: &SlippyTileDownloadTaskKey) -> (found: Option<&TileDownloadStatus>)
        ensures
            match found {
                Some(record) => self@.dom().contains(*key) && record@ == self@[*key],
                None => !self@.dom().contains(*key),
            },
    {
        tile_map_get(&self.tiles, &key.code())
    }
}

impl Default for SlippyTileDownloadStatus {
    fn default() -> (registry: Self)
        ensures
            registry@ == Map::<SlippyTileDownloadTaskKey, TileRecord>::empty(),
    {
        Self::new()
    }
}

/// What a download task reports when it ends: the path of the tile's file.
#[derive(Clone, Debug)]
pub struct SlippyTileDownloadTaskResult {
    pub path: String,
}

/// HashMap of all tiles whose download has been started and has not reported
/// yet.
///
/// Each tile is held with the path its task writes to and the status under
/// which the registry tracks it while the task runs: `Downloading` for a
/// transfer from the tile server, `Downloaded` for a tile that is loaded from
/// disk.
pub struct SlippyTileDownloadTasks {
    tiles: TileMap,
}

impl View for SlippyTileDownloadTasks {
    type V = Map<SlippyTileDownloadTaskKey, TileRecord>;

    /// For each tile with a task under way, the task's path and kind.
    closed spec fn view(&self) -> Map<SlippyTileDownloadTaskKey, TileRecord> {
        records_by_key(tile_map_entries(self.tiles))
    }
}

impl SlippyTileDownloadTasks {
    /// No task is under way.
    pub fn new() -> (tasks: SlippyTileDownloadTasks)
        ensures
            tasks@ == Map::<SlippyTileDownloadTaskKey, TileRecord>::empty(),
    {
        proof {
            lemma_records_by_key_updates(Map::empty(), arbitrary(), arbitrary());
        }
        SlippyTileDownloadTasks { tiles: tile_map_new() }
    }

    /// Tracks a task for the tile at `(x, y)`. A task that was tracked for the
    /// same tile is replaced and handed back.
    pub fn insert(
        &mut self,
        x: u32,
        y: u32,
        zoom_level: ZoomLevel,
        tile_size: TileSize,
        task: TileDownloadStatus,
    ) -> (replaced: Option<TileDownloadStatus>)
        ensures
            final(self)@ == old(self)@.insert(
                SlippyTileDownloadTaskKey {
                    slippy_tile_coordinates: SlippyTileCoordinates { x, y },
                    zoom_level,
                    tile_size,
                },
                task@,
            ),
            held_before(
                old(self)@,
                SlippyTileDownloadTaskKey {
                    slippy_tile_coordinates: SlippyTileCoordinates { x, y },
                    zoom_level,
                    tile_size,
                },
                replaced,
            ),
    {
        self.insert_with_coords(SlippyTileCoordinates { x, y }, zoom_level, tile_size, task)
    }

    /// Tracks a task for the tile at the given coordinates. A task that was
    /// tracked for the same tile is replaced and handed back.
    pub fn insert_with_coords(
        &mut self,
        slippy_tile_coordinates: SlippyTileCoordinates,
        zoom_level: ZoomLevel,
        tile_size: TileSize,
        task: TileDownloadStatus,
    ) -> (replaced: Option<TileDownloadStatus>)
        ensures
            final(self)@ == old(self)@.insert(
                SlippyTileDownloadTaskKey { slippy_tile_coordinates, zoom_level, tile_size },
                task@,
            ),
            held_before(
                old(self)@,
                SlippyTileDownloadTaskKey { slippy_tile_coordinates, zoom_level, tile_size },
                replaced,
            ),
    {
        let key = SlippyTileDownloadTaskKey { slippy_tile_coordinates, zoom_level, tile_size };
        proof {
            lemma_records_by_key_updates(tile_map_entries(self.tiles), key, task@);
        }
        tile_map_insert(&mut self.tiles, key.code(), task)
    }

    /// Whether a task is under way for the tile.
    pub fn contains_key(&self, key: &SlippyTileDownloadTaskKey) -> (under_way: bool)
        ensures
            under_way == self@.dom().contains(*key),
    {
        tile_map_contains_key(&self.tiles, &key.code())
    }

    /// The task under way for the tile, if there is one.
    pub fn get(&self, key: &SlippyTileDownloadTaskKey) -> (found: Option<&TileDownloadStatus>)
        ensures
            match found {
                Some(task) => self@.dom().contains(*key) && task@ == self@[*key],
                None => !self@.dom().contains(*key),
            },
    {
        tile_map_get(&self.tiles, &key.code())
    }

    /// Stops tracking the tile's task and hands it back, if there was one.
    pub fn remove(&mut self, key: &SlippyTileDownloadTaskKey) -> (removed: Option<
        TileDownloadStatus,
    >)
        ensures
            final(self)@ == old(self)@.remove(*key),
            held_before(old(self)@, *key, removed),
    {
        proof {
            lemma_records_by_key_updates(tile_map_entries(self.tiles), *key, arbitrary());
        }
        tile_map_remove(&mut self.tiles, &key.code())
    }
}

impl Default for SlippyTileDownloadTasks {
    fn default() -> (tasks: Self)
        ensures
            tasks@ == Map::<SlippyTileDownloadTaskKey, TileRecord>::empty(),
    {
        Self::new()
    }
}

/// `given` is the task that was tracked for `key` in `tasks`: some task with
/// the tracked path and kind, or `None` where the key was not tracked.
pub open spec fn held_before(
    tasks: Map<SlippyTileDownloadTaskKey, TileRecord>,
    key: SlippyTileDownloadTaskKey,
    given: Option<TileDownloadStatus>,
) -> bool {
    match given {
        Some(task) => tasks.dom().contains(key) && task@ == tasks[key],
        None => !tasks.dom().contains(key),
    }
}

/// Users send these events to request slippy tile downloads.
#[derive(Debug)]
pub struct DownloadSlippyTilesEvent {
    pub tile_size: TileSize,
    pub zoom_level: ZoomLevel,
    /// The tile at the centre of the requested region.
    pub coordinates: SlippyTileCoordinates,
    /// The number of surrounding layers of tiles to request along with the center tile.
    pub radius: Radius,
    /// If set to false, will force download of new tiles from the endpoint regardless of previous requests and tiles already on disk.
    pub use_cache: bool,
}

impl DownloadSlippyTilesEvent {
    /// The tile at the centre of the requested region.
    pub fn get_slippy_tile_coordinates(&self) -> (coordinates: SlippyTileCoordinates)
        ensures
            coordinates == self.coordinates,
    {
        self.coordinates
    }
}

/// The library generates these events when the download of a slippy tile has
/// ended.
#[derive(Debug)]
pub struct SlippyTileDownloadedEvent {
    /// The [`TileSize`] used for this downloaded slippy tile.
    pub tile_size: TileSize,
    /// The [`ZoomLevel`] used for this downloaded slippy tile.
    pub zoom_level: ZoomLevel,
    /// The coordinates of this downloaded slippy tile.
    pub coordinates: SlippyTileCoordinates,
    /// The path under which the slippy tile was stored.
    pub path: String,
}

impl SlippyTileDownloadedEvent {
    /// The coordinates of the downloaded tile.
    pub fn get_slippy_tile_coordinates(&self) -> (coordinates: SlippyTileCoordinates)
        ensures
            coordinates == self.coordinates,
    {
        self.coordinates
    }

    /// The tile that the event speaks of.
    pub open spec fn key(&self) -> SlippyTileDownloadTaskKey {
        SlippyTileDownloadTaskKey {
            slippy_tile_coordinates: self.coordinates,
            zoom_level: self.zoom_level,
            tile_size: self.tile_size,
        }
    }
}

} // verus!
