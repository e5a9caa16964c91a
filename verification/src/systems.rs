//! The decisions of a tick: which tiles of a request are downloaded, which are
//! loaded from disk, which are put off, and what becomes of the downloads that
//! have ended.
//!
//! Nothing here touches storage or the network. The caller says which files
//! are in storage and which tasks have ended, and gets back the tasks to start
//! and the events to send.
use vstd::prelude::*;
use crate::coordinates::SlippyTileCoordinates;
use crate::download::{
    DownloadSlippyTilesEvent, SlippyTileDownloadStatus, SlippyTileDownloadTaskKey,
    SlippyTileDownloadTaskResult, SlippyTileDownloadTasks, SlippyTileDownloadedEvent,
};
use crate::limiter::{ActiveDownloads, DownloadRateLimiter};
use crate::model::{
    cache_policy, key_filename, requested_key, DownloadedTile, Downloads, TaskOrder, TileAction,
};
use crate::naming::{get_tile_filename, get_tile_url, tile_url};
use crate::region::{region, region_tiles};
use crate::settings::SlippyTilesSettings;
use crate::tile_map::TileDownloadStatus;
use crate::types::{AlreadyDownloaded, DownloadStatus, FileExists, TileSize, UseCache, ZoomLevel};

verus! {

/// Decides by the cache policy what is done for a tile.
pub fn decide(
    use_cache: UseCache,
    already_downloaded: AlreadyDownloaded,
    file_exists: FileExists,
) -> (action: TileAction)
    ensures
        action == cache_policy(use_cache is Yes, already_downloaded is Yes, file_exists is Yes),
{
    match (use_cache, already_downloaded, file_exists) {
        // A download of the tile is awaited.
        (_, AlreadyDownloaded::Yes, FileExists::No) => TileAction::Leave,
        // The cache can not be used,
        (UseCache::No, _, _) => TileAction::Fetch,
        // or the tile is not being downloaded and no file is on disk.
        (UseCache::Yes, AlreadyDownloaded::No, FileExists::No) => TileAction::Fetch,
        // The cache can be used and the file is on disk.
        (UseCache::Yes, _, FileExists::Yes) => TileAction::LoadFromDisk,
    }
}

/// A task that the caller is to start.
#[derive(Debug)]
pub enum DownloadTask {
    /// Transfer the tile from `url` to the file at `path`, with at most
    /// `max_retries` attempts.
    Fetch { key: SlippyTileDownloadTaskKey, url: String, path: String, max_retries: u32 },
    /// Take the tile from the file at `path`.
    LoadFromDisk { key: SlippyTileDownloadTaskKey, path: String },
}

impl View for DownloadTask {
    type V = TaskOrder;

    open spec fn view(&self) -> TaskOrder {
        match self {
            DownloadTask::Fetch { key, url, path, max_retries } => TaskOrder::Fetch {
                key: *key,
                url: url@,
                path: path@,
                max_retries: *max_retries,
            },
            DownloadTask::LoadFromDisk { key, path } => TaskOrder::LoadFromDisk {
                key: *key,
                path: path@,
            },
        }
    }
}

/// The tasks of a list as plain values.
pub open spec fn task_orders(tasks: Seq<DownloadTask>) -> Seq<TaskOrder> {
    tasks.map_values(|task: DownloadTask| task@)
}

/// The paths of a list as plain values.
pub open spec fn path_texts(paths: Seq<String>) -> Seq<Seq<char>> {
    paths.map_values(|path: String| path@)
}

/// The state that the four parts amount to.
pub open spec fn downloads(
    status: SlippyTileDownloadStatus,
    tasks: SlippyTileDownloadTasks,
    rate_limiter: DownloadRateLimiter,
    active_downloads: ActiveDownloads,
) -> Downloads {
    Downloads {
        registry: status@,
        tasks: tasks@,
        window: rate_limiter.window(),
        buffered: rate_limiter.buffered(),
        active: active_downloads.active(),
    }
}

/// The state of the downloads without the rate limit and the queue, which the
/// end of a download does not touch.
pub open spec fn downloads_under_way(
    status: SlippyTileDownloadStatus,
    tasks: SlippyTileDownloadTasks,
    active_downloads: ActiveDownloads,
) -> Downloads {
    Downloads {
        registry: status@,
        tasks: tasks@,
        window: Seq::empty(),
        buffered: Seq::empty(),
        active: active_downloads.active(),
    }
}

/// Whether a path is among those that are in storage.
pub fn is_on_disk(files_on_disk: &Vec<String>, path: &String) -> (found: bool)
    ensures
        found == path_texts(files_on_disk@).contains(path@),
{
    let mut i: usize = 0;
    while i < files_on_disk.len()
        invariant
            i <= files_on_disk.len(),
            forall|j: int| 0 <= j < i ==> path_texts(files_on_disk@)[j] != path@,
        decreases files_on_disk.len() - i,
    {
        if files_on_disk[i] == *path {
            assert(path_texts(files_on_disk@)[i as int] == path@);
            return true;
        }
        i = i + 1;
    }
    false
}

/// Whether the registry has the tile as `Downloading`.
pub fn is_downloading(
    slippy_tile_download_status: &SlippyTileDownloadStatus,
    key: &SlippyTileDownloadTaskKey,
) -> (downloading: bool)
    ensures
        downloading == (slippy_tile_download_status@.dom().contains(*key)
            && slippy_tile_download_status@[*key].1 == DownloadStatus::Downloading),
{
    match slippy_tile_download_status.get(key) {
        Some(record) => record.load_status == DownloadStatus::Downloading,
        None => false,
    }
}

/// The files under which the tiles of a requested region are stored, in the
/// order in which the tiles of the region are handled. These are the paths
/// that are looked for in storage before the request is handled.
pub fn region_filenames(event: &DownloadSlippyTilesEvent, settings: &SlippyTilesSettings) -> (filenames:
    Vec<String>)
    ensures
        filenames@.len() == region(event.coordinates, event.radius.0).len(),
        forall|i: int|
            0 <= i < filenames@.len() ==> (#[trigger] filenames@[i])@ == key_filename(
                requested_key(region(event.coordinates, event.radius.0)[i], *event),
                *settings,
            ),
{
    let tiles = region_tiles(event.get_slippy_tile_coordinates(), &event.radius);
    let mut filenames: Vec<String> = Vec::new();
    let mut t: usize = 0;
    while t < tiles.len()
        invariant
            t <= tiles.len(),
            tiles@ == region(event.coordinates, event.radius.0),
            filenames@.len() == t,
            forall|i: int|
                0 <= i < t ==> (#[trigger] filenames@[i])@ == key_filename(
                    requested_key(tiles@[i], *event),
                    *settings,
                ),
        decreases tiles.len() - t,
    {
        filenames.push(
            get_tile_filename(
                settings.get_tiles_directory_string(),
                event.zoom_level,
                tiles[t].x,
                tiles[t].y,
                event.tile_size,
            ),
        );
        t = t + 1;
    }
    filenames
}

/// Gives up the task that is under way for a tile, before another takes its
/// place: a transfer gives its slot back.
fn release_replaced(replaced: Option<TileDownloadStatus>, active_downloads: &mut ActiveDownloads)
    ensures
        final(active_downloads).active() == if replaced matches Some(task) && task.load_status
            == DownloadStatus::Downloading && old(active_downloads).active() > 0 {
            (old(active_downloads).active() - 1) as nat
        } else {
            old(active_downloads).active()
        },
{
    if let Some(task) = replaced {
        if task.load_status == DownloadStatus::Downloading {
            active_downloads.release();
        }
    }
}

/// Starts the transfer of a tile and tracks it: the task takes a slot and the
/// tile is `Downloading` from now on.
fn download_and_track_slippy_tile(
    spc: SlippyTileCoordinates,
    zoom_level: ZoomLevel,
    tile_size: TileSize,
    endpoint: String,
    filename: String,
    slippy_tile_download_tasks: &mut SlippyTileDownloadTasks,
    slippy_tile_download_status: &mut SlippyTileDownloadStatus,
    active_downloads: &mut ActiveDownloads,
    settings: &SlippyTilesSettings,
) -> (task: DownloadTask)
    requires
        old(active_downloads).active() < settings.max_concurrent_downloads,
    ensures
        downloads_under_way(
            *final(slippy_tile_download_status),
            *final(slippy_tile_download_tasks),
            *final(active_downloads),
        ) == downloads_under_way(
            *old(slippy_tile_download_status),
            *old(slippy_tile_download_tasks),
            *old(active_downloads),
        ).start_transfer(
            SlippyTileDownloadTaskKey { slippy_tile_coordinates: spc, zoom_level, tile_size },
            filename@,
        ),
        task@ == (TaskOrder::Fetch {
            key: SlippyTileDownloadTaskKey { slippy_tile_coordinates: spc, zoom_level, tile_size },
            url: tile_url(endpoint@, tile_size, zoom_level, spc.x, spc.y),
            path: filename@,
            max_retries: settings.max_retries,
        }),
{
    let task = download_slippy_tile(
        spc,
        zoom_level,
        tile_size,
        endpoint,
        filename.clone(),
        settings.max_retries,
    );
    let replaced = slippy_tile_download_tasks.insert_with_coords(
        spc,
        zoom_level,
        tile_size,
        TileDownloadStatus { path: filename.clone(), load_status: DownloadStatus::Downloading },
    );
    release_replaced(replaced, active_downloads);
    // A slot is free: the caller has asked for admission.
    active_downloads.try_acquire(settings.max_concurrent_downloads);
    slippy_tile_download_status.insert_with_coords(
        spc,
        zoom_level,
        tile_size,
        filename,
        DownloadStatus::Downloading,
    );
    task
}

/// The task that transfers a tile from its URL at the endpoint to `filename`.
fn download_slippy_tile(
    spc: SlippyTileCoordinates,
    zoom_level: ZoomLevel,
    tile_size: TileSize,
    endpoint: String,
    filename: String,
    max_retries: u32,
) -> (task: DownloadTask)
    ensures
        task@ == (TaskOrder::Fetch {
            key: SlippyTileDownloadTaskKey { slippy_tile_coordinates: spc, zoom_level, tile_size },
            url: tile_url(endpoint@, tile_size, zoom_level, spc.x, spc.y),
            path: filename@,
            max_retries,
        }),
{
    let tile_url = get_tile_url(endpoint, tile_size, zoom_level, spc.x, spc.y);
    DownloadTask::Fetch {
        key: SlippyTileDownloadTaskKey { slippy_tile_coordinates: spc, zoom_level, tile_size },
        url: tile_url,
        path: filename,
        max_retries,
    }
}

/// Starts the load of a tile from disk and tracks it: the tile is
/// `Downloaded` at once, and the task only reports it.
fn load_and_track_slippy_tile_from_disk(
    spc: SlippyTileCoordinates,
    zoom_level: ZoomLevel,
    tile_size: TileSize,
    filename: String,
    slippy_tile_download_tasks: &mut SlippyTileDownloadTasks,
    slippy_tile_download_status: &mut SlippyTileDownloadStatus,
    active_downloads: &mut ActiveDownloads,
) -> (task: DownloadTask)
    ensures
        downloads_under_way(
            *final(slippy_tile_download_status),
            *final(slippy_tile_download_tasks),
            *final(active_downloads),
        ) == downloads_under_way(
            *old(slippy_tile_download_status),
            *old(slippy_tile_download_tasks),
            *old(active_downloads),
        ).start_load(
            SlippyTileDownloadTaskKey { slippy_tile_coordinates: spc, zoom_level, tile_size },
            filename@,
        ),
        task@ == (TaskOrder::LoadFromDisk {
            key: SlippyTileDownloadTaskKey { slippy_tile_coordinates: spc, zoom_level, tile_size },
            path: filename@,
        }),
{
    let key = SlippyTileDownloadTaskKey { slippy_tile_coordinates: spc, zoom_level, tile_size };
    let replaced = slippy_tile_download_tasks.insert_with_coords(
        spc,
        zoom_level,
        tile_size,
        TileDownloadStatus { path: filename.clone(), load_status: DownloadStatus::Downloaded },
    );
    release_replaced(replaced, active_downloads);
    slippy_tile_download_status.insert_with_coords(
        spc,
        zoom_level,
        tile_size,
        filename.clone(),
        DownloadStatus::Downloaded,
    );
    DownloadTask::LoadFromDisk { key, path: filename }
}

/// The view of an optional task.
pub open spec fn optional_order(task: Option<DownloadTask>) -> Option<TaskOrder> {
    match task {
        Some(task) => Some(task@),
        None => None,
    }
}

/// Decides by the cache policy what is done for an admitted tile, and does it:
/// the tile is left alone, or its transfer or its load from disk is started
/// and returned.
fn decide_and_start(
    spc: SlippyTileCoordinates,
    zoom_level: ZoomLevel,
    tile_size: TileSize,
    endpoint: String,
    filename: String,
    use_cache: bool,
    files_on_disk: &Vec<String>,
    slippy_tile_download_tasks: &mut SlippyTileDownloadTasks,
    slippy_tile_download_status: &mut SlippyTileDownloadStatus,
    active_downloads: &mut ActiveDownloads,
    settings: &SlippyTilesSettings,
) -> (task: Option<DownloadTask>)
    requires
        old(active_downloads).active() < settings.max_concurrent_downloads,
    ensures
        (
            downloads_under_way(
                *final(slippy_tile_download_status),
                *final(slippy_tile_download_tasks),
                *final(active_downloads),
            ),
            optional_order(task),
        ) == downloads_under_way(
            *old(slippy_tile_download_status),
            *old(slippy_tile_download_tasks),
            *old(active_downloads),
        ).decide_tile(
            SlippyTileDownloadTaskKey { slippy_tile_coordinates: spc, zoom_level, tile_size },
            endpoint@,
            filename@,
            use_cache,
            path_texts(files_on_disk@),
            *settings,
        ),
{
    let downloading = is_downloading(
        slippy_tile_download_status,
        &SlippyTileDownloadTaskKey { slippy_tile_coordinates: spc, zoom_level, tile_size },
    );
    let file_exists = is_on_disk(files_on_disk, &filename);
    match decide(
        UseCache::new(use_cache),
        AlreadyDownloaded::new(downloading),
        FileExists::new(file_exists),
    ) {
        TileAction::Leave => None,
        TileAction::Fetch => Some(
            download_and_track_slippy_tile(
                spc,
                zoom_level,
                tile_size,
                endpoint,
                filename,
                slippy_tile_download_tasks,
                slippy_tile_download_status,
                active_downloads,
                settings,
            ),
        ),
        TileAction::LoadFromDisk => Some(
            load_and_track_slippy_tile_from_disk(
                spc,
                zoom_level,
                tile_size,
                filename,
                slippy_tile_download_tasks,
                slippy_tile_download_status,
                active_downloads,
            ),
        ),
    }
}

/// Handles one tile of a request at time `now`.
///
/// The tile is admitted by the rate limit and the bound on transfers, or put
/// at the back of the queue. For an admitted tile the cache policy decides
/// from the request's `use_cache`, from whether the registry has the tile as
/// `Downloading` and from whether its file is among `files_on_disk`. The task
/// to start, if any, is returned.
pub fn request_slippy_tile(
    tile: SlippyTileCoordinates,
    event: &DownloadSlippyTilesEvent,
    files_on_disk: &Vec<String>,
    now: u64,
    settings: &SlippyTilesSettings,
    slippy_tile_download_status: &mut SlippyTileDownloadStatus,
    slippy_tile_download_tasks: &mut SlippyTileDownloadTasks,
    rate_limiter: &mut DownloadRateLimiter,
    active_downloads: &mut ActiveDownloads,
) -> (task: Option<DownloadTask>)
    ensures
        (
            downloads(
                *final(slippy_tile_download_status),
                *final(slippy_tile_download_tasks),
                *final(rate_limiter),
                *final(active_downloads),
            ),
            optional_order(task),
        ) == downloads(
            *old(slippy_tile_download_status),
            *old(slippy_tile_download_tasks),
            *old(rate_limiter),
            *old(active_downloads),
        ).request_tile(
            requested_key(tile, *event),
            event.use_cache,
            path_texts(files_on_disk@),
            now,
            *settings,
        ),
{
    let filename = get_tile_filename(
        settings.get_tiles_directory_string(),
        event.zoom_level,
        tile.x,
        tile.y,
        event.tile_size,
    );
    let in_time = rate_limiter.can_make_request(now, settings);
    if !in_time || active_downloads.count() >= settings.max_concurrent_downloads {
        rate_limiter.buffer_request(
            (tile.x, tile.y),
            event.zoom_level,
            event.tile_size,
            settings.endpoint.clone(),
            filename,
            event.use_cache,
        );
        return None;
    }
    decide_and_start(
        tile,
        event.zoom_level,
        event.tile_size,
        settings.endpoint.clone(),
        filename,
        event.use_cache,
        files_on_disk,
        slippy_tile_download_tasks,
        slippy_tile_download_status,
        active_downloads,
        settings,
    )
}

impl DownloadRateLimiter {
    /// Takes up the requests that wait, oldest first, for as long as each is
    /// admitted at time `now`, and returns the tasks to start. A request that
    /// is taken up is decided like a new one: by the cache policy, with the
    /// `use_cache` it came with and with `files_on_disk`. What is not admitted
    /// keeps its place in the queue.
    pub fn process_buffered_requests(
        &mut self,
        slippy_tile_download_tasks: &mut SlippyTileDownloadTasks,
        slippy_tile_download_status: &mut SlippyTileDownloadStatus,
        active_downloads: &mut ActiveDownloads,
        files_on_disk: &Vec<String>,
        settings: &SlippyTilesSettings,
        now: u64,
    ) -> (started: Vec<DownloadTask>)
        ensures
            (
                downloads(
                    *final(slippy_tile_download_status),
                    *final(slippy_tile_download_tasks),
                    *final(self),
                    *final(active_downloads),
                ),
                task_orders(started@),
            ) == downloads(
                *old(slippy_tile_download_status),
                *old(slippy_tile_download_tasks),
                *old(self),
                *old(active_downloads),
            ).process_buffered(path_texts(files_on_disk@), now, *settings),
    {
        let ghost start = downloads(
            *slippy_tile_download_status,
            *slippy_tile_download_tasks,
            *self,
            *active_downloads,
        );
        let ghost files = path_texts(files_on_disk@);
        let mut started: Vec<DownloadTask> = Vec::new();
        assert(task_orders(started@) =~= Seq::<TaskOrder>::empty());
        loop
            invariant_except_break
                files == path_texts(files_on_disk@),
                start.process_buffered(files, now, *settings) == (
                    downloads(
                        *slippy_tile_download_status,
                        *slippy_tile_download_tasks,
                        *self,
                        *active_downloads,
                    ).process_buffered(files, now, *settings).0,
                    task_orders(started@) + downloads(
                        *slippy_tile_download_status,
                        *slippy_tile_download_tasks,
                        *self,
                        *active_downloads,
                    ).process_buffered(files, now, *settings).1,
                ),
            ensures
                files == path_texts(files_on_disk@),
                start.process_buffered(files, now, *settings) == (
                    downloads(
                        *slippy_tile_download_status,
                        *slippy_tile_download_tasks,
                        *self,
                        *active_downloads,
                    ),
                    task_orders(started@),
                ),
            decreases self.buffered().len(),
        {
            if self.buffered_len() == 0 {
                assert(task_orders(started@) + Seq::<TaskOrder>::empty() =~= task_orders(
                    started@,
                ));
                break ;
            }
            let in_time = self.can_make_request(now, settings);
            if !in_time || active_downloads.count() >= settings.max_concurrent_downloads {
                assert(task_orders(started@) + Seq::<TaskOrder>::empty() =~= task_orders(
                    started@,
                ));
                break ;
            }
            let next = self.next_buffered();
            let request = next.unwrap();
            let spc = SlippyTileCoordinates { x: request.coords.0, y: request.coords.1 };
            let task = decide_and_start(
                spc,
                request.zoom_level,
                request.tile_size,
                request.endpoint,
                request.filename,
                request.use_cache,
                files_on_disk,
                slippy_tile_download_tasks,
                slippy_tile_download_status,
                active_downloads,
                settings,
            );
            let ghost before = task_orders(started@);
            let ghost rest = downloads(
                *slippy_tile_download_status,
                *slippy_tile_download_tasks,
                *self,
                *active_downloads,
            ).process_buffered(files, now, *settings).1;
            if let Some(task) = task {
                let ghost order = task@;
                started.push(task);
                proof {
                    assert(task_orders(started@) =~= before.push(order));
                    assert(before + (seq![order] + rest) =~= before.push(order) + rest);
                }
            }
        }
        started
    }
}

/// Handles the download requests of one tick at time `now`.
///
/// The requests that wait are taken up first. Then each tile of each
/// requested region is admitted or put off. A tile that is admitted, new or
/// taken up from the queue, is left alone, transferred or loaded from disk as
/// the cache policy says. `files_on_disk` holds the paths of the tile files
/// that are in storage, those of the tiles that wait and those of the new
/// requests. The tasks to start are returned in the order in which they were
/// decided.
pub fn download_slippy_tiles(
    download_slippy_tile_events: &Vec<DownloadSlippyTilesEvent>,
    files_on_disk: &Vec<String>,
    now: u64,
    slippy_tiles_settings: &SlippyTilesSettings,
    slippy_tile_download_status: &mut SlippyTileDownloadStatus,
    slippy_tile_download_tasks: &mut SlippyTileDownloadTasks,
    rate_limiter: &mut DownloadRateLimiter,
    active_downloads: &mut ActiveDownloads,
) -> (started: Vec<DownloadTask>)
    ensures
        (
            downloads(
                *final(slippy_tile_download_status),
                *final(slippy_tile_download_tasks),
                *final(rate_limiter),
                *final(active_downloads),
            ),
            task_orders(started@),
        ) == downloads(
            *old(slippy_tile_download_status),
            *old(slippy_tile_download_tasks),
            *old(rate_limiter),
            *old(active_downloads),
        ).tick(
            download_slippy_tile_events@,
            path_texts(files_on_disk@),
            now,
            *slippy_tiles_settings,
        ),
{
    let ghost start = downloads(
        *slippy_tile_download_status,
        *slippy_tile_download_tasks,
        *rate_limiter,
        *active_downloads,
    );
    let ghost files = path_texts(files_on_disk@);
    // First process any buffered requests.
    let mut started = rate_limiter.process_buffered_requests(
        slippy_tile_download_tasks,
        slippy_tile_download_status,
        active_downloads,
        files_on_disk,
        slippy_tiles_settings,
        now,
    );
    let ghost drained = start.process_buffered(files, now, *slippy_tiles_settings);
    assert(drained.1 + Seq::<TaskOrder>::empty() =~= drained.1);
    let mut e: usize = 0;
    while e < download_slippy_tile_events.len()
        invariant
            e <= download_slippy_tile_events.len(),
            files == path_texts(files_on_disk@),
            drained == start.process_buffered(files, now, *slippy_tiles_settings),
            (
                downloads(
                    *slippy_tile_download_status,
                    *slippy_tile_download_tasks,
                    *rate_limiter,
                    *active_downloads,
                ),
                task_orders(started@),
            ) == (
                drained.0.request_regions(
                    download_slippy_tile_events@.take(e as int),
                    files,
                    now,
                    *slippy_tiles_settings,
                ).0,
                drained.1 + drained.0.request_regions(
                    download_slippy_tile_events@.take(e as int),
                    files,
                    now,
                    *slippy_tiles_settings,
                ).1,
            ),
        decreases download_slippy_tile_events.len() - e,
    {
        let event = &download_slippy_tile_events[e];
        let ghost before_event = downloads(
            *slippy_tile_download_status,
            *slippy_tile_download_tasks,
            *rate_limiter,
            *active_downloads,
        );
        let ghost orders_before = task_orders(started@);
        let tiles = region_tiles(event.get_slippy_tile_coordinates(), &event.radius);
        let mut t: usize = 0;
        assert(orders_before + Seq::<TaskOrder>::empty() =~= orders_before);
        while t < tiles.len()
            invariant
                t <= tiles.len(),
                files == path_texts(files_on_disk@),
                (
                    downloads(
                        *slippy_tile_download_status,
                        *slippy_tile_download_tasks,
                        *rate_limiter,
                        *active_downloads,
                    ),
                    task_orders(started@),
                ) == (
                    before_event.request_region(
                        tiles@.take(t as int),
                        *event,
                        files,
                        now,
                        *slippy_tiles_settings,
                    ).0,
                    orders_before + before_event.request_region(
                        tiles@.take(t as int),
                        *event,
                        files,
                        now,
                        *slippy_tiles_settings,
                    ).1,
                ),
            decreases tiles.len() - t,
        {
            let ghost orders = task_orders(started@);
            let task = request_slippy_tile(
                tiles[t],
                event,
                files_on_disk,
                now,
                slippy_tiles_settings,
                slippy_tile_download_status,
                slippy_tile_download_tasks,
                rate_limiter,
                active_downloads,
            );
            proof {
                assert(tiles@.take(t as int + 1).drop_last() =~= tiles@.take(t as int));
                assert(tiles@.take(t as int + 1).last() == tiles@[t as int]);
            }
            if let Some(task) = task {
                let ghost order = task@;
                started.push(task);
                assert(task_orders(started@) =~= orders.push(order));
            }
            t = t + 1;
        }
        proof {
            assert(tiles@.take(tiles@.len() as int) =~= tiles@);
            let events = download_slippy_tile_events@;
            assert(events.take(e as int + 1).drop_last() =~= events.take(e as int));
            assert(events.take(e as int + 1).last() == events[e as int]);
        }
        e = e + 1;
    }
    proof {
        let events = download_slippy_tile_events@;
        assert(events.take(events.len() as int) =~= events);
    }
    started
}

impl View for SlippyTileDownloadedEvent {
    type V = DownloadedTile;

    open spec fn view(&self) -> DownloadedTile {
        DownloadedTile { key: self.key(), path: self.path@ }
    }
}

/// The events of a list as plain values.
pub open spec fn downloaded_tiles(events: Seq<SlippyTileDownloadedEvent>) -> Seq<DownloadedTile> {
    events.map_values(|event: SlippyTileDownloadedEvent| event@)
}

/// The reports of ended tasks as plain values: the tile and the path reported.
pub open spec fn finished_tiles(
    finished: Seq<(SlippyTileDownloadTaskKey, SlippyTileDownloadTaskResult)>,
) -> Seq<DownloadedTile> {
    finished.map_values(
        |report: (SlippyTileDownloadTaskKey, SlippyTileDownloadTaskResult)|
            DownloadedTile { key: report.0, path: report.1.path@ },
    )
}

/// Takes the reports of the tasks that have ended, and returns the events to
/// send.
///
/// For each report whose tile has a task under way: the task is forgotten, a
/// transfer gives its slot back, the registry records the tile as `Downloaded`
/// at the reported path, and one event announces the tile. Tiles whose task
/// has not reported stay as they are.
pub fn download_slippy_tiles_completed(
    finished: &Vec<(SlippyTileDownloadTaskKey, SlippyTileDownloadTaskResult)>,
    slippy_tile_download_status: &mut SlippyTileDownloadStatus,
    slippy_tile_download_tasks: &mut SlippyTileDownloadTasks,
    active_downloads: &mut ActiveDownloads,
) -> (slippy_tile_downloaded_events: Vec<SlippyTileDownloadedEvent>)
    ensures
        (
            downloads_under_way(
                *final(slippy_tile_download_status),
                *final(slippy_tile_download_tasks),
                *final(active_downloads),
            ),
            downloaded_tiles(slippy_tile_downloaded_events@),
        ) == downloads_under_way(
            *old(slippy_tile_download_status),
            *old(slippy_tile_download_tasks),
            *old(active_downloads),
        ).complete_all(finished_tiles(finished@)),
{
    let ghost start = downloads_under_way(
        *slippy_tile_download_status,
        *slippy_tile_download_tasks,
        *active_downloads,
    );
    let ghost reports = finished_tiles(finished@);
    let mut events: Vec<SlippyTileDownloadedEvent> = Vec::new();
    assert(downloaded_tiles(events@) =~= Seq::<DownloadedTile>::empty());
    let mut i: usize = 0;
    while i < finished.len()
        invariant
            i <= finished.len(),
            reports == finished_tiles(finished@),
            (
                downloads_under_way(
                    *slippy_tile_download_status,
                    *slippy_tile_download_tasks,
                    *active_downloads,
                ),
                downloaded_tiles(events@),
            ) == start.complete_all(reports.take(i as int)),
        decreases finished.len() - i,
    {
        let key = finished[i].0;
        let ghost before = downloads_under_way(
            *slippy_tile_download_status,
            *slippy_tile_download_tasks,
            *active_downloads,
        );
        let ghost announced = downloaded_tiles(events@);
        proof {
            assert(reports.take(i as int + 1).drop_last() =~= reports.take(i as int));
            assert(reports.take(i as int + 1).last() == reports[i as int]);
            assert(reports[i as int] == DownloadedTile { key, path: finished@[i as int].1.path@ });
        }
        let removed = slippy_tile_download_tasks.remove(&key);
        if removed.is_some() {
            release_replaced(removed, active_downloads);
            // Add to our map tiles.
            slippy_tile_download_status.insert_with_coords(
                key.slippy_tile_coordinates,
                key.zoom_level,
                key.tile_size,
                finished[i].1.path.clone(),
                DownloadStatus::Downloaded,
            );
            // Notify any event consumers.
            let event = SlippyTileDownloadedEvent {
                zoom_level: key.zoom_level,
                tile_size: key.tile_size,
                coordinates: key.slippy_tile_coordinates,
                path: finished[i].1.path.clone(),
            };
            let ghost tile = event@;
            events.push(event);
            assert(downloaded_tiles(events@) =~= announced.push(tile));
        } else {
            assert(slippy_tile_download_tasks@ =~= before.tasks);
        }
        i = i + 1;
    }
    assert(reports.take(reports.len() as int) =~= reports);
    events
}

} // verus!
