//! The decisions of a tick as mathematics: the state that they rest on, the
//! steps that change it, and what holds of every step.
use vstd::prelude::*;
use crate::coordinates::SlippyTileCoordinates;
use crate::download::{DownloadSlippyTilesEvent, SlippyTileDownloadTaskKey};
use crate::limiter::{live_window, BufferedTile};
use crate::naming::{tile_filename, tile_url};
use crate::region::region;
use crate::settings::SlippyTilesSettings;
use crate::tile_map::TileRecord;
use crate::types::DownloadStatus;

verus! {

/// What is done for a tile that was asked for.
#[derive(Debug, Clone, Copy, PartialEq, Eq, Structural)]
pub enum TileAction {
    /// Nothing: what is known of the tile stands.
    Leave,
    /// The tile is transferred from the tile server.
    Fetch,
    /// The tile is taken from its file in storage.
    LoadFromDisk,
}

/// The cache policy. The first line that applies decides:
///
/// | use cache | downloading | file exists | action         |
/// |-----------|-------------|-------------|----------------|
/// | any       | yes         | no          | leave          |
/// | no        | any         | any         | fetch          |
/// | yes       | no          | no          | fetch          |
/// | yes       | any         | yes         | load from disk |
pub open spec fn cache_policy(use_cache: bool, downloading: bool, file_exists: bool) -> TileAction {
    if downloading && !file_exists {
        TileAction::Leave
    } else if !use_cache {
        TileAction::Fetch
    } else if file_exists {
        TileAction::LoadFromDisk
    } else {
        TileAction::Fetch
    }
}

/// A tile whose file is in storage is never fetched where the cache may be
/// used, and a tile that is being downloaded and has no file is left to the
/// download that is under way for it.
pub proof fn lemma_cache_policy(use_cache: bool, downloading: bool, file_exists: bool)
    ensures
        use_cache && file_exists ==> cache_policy(use_cache, downloading, file_exists)
            == TileAction::LoadFromDisk,
        downloading && !file_exists ==> cache_policy(use_cache, downloading, file_exists)
            == TileAction::Leave,
        cache_policy(use_cache, downloading, file_exists) == TileAction::Fetch <==> (!use_cache
            && (file_exists || !downloading)) || (!downloading && !file_exists),
{
}

/// A task to start, as a plain value.
pub enum TaskOrder {
    Fetch { key: SlippyTileDownloadTaskKey, url: Seq<char>, path: Seq<char>, max_retries: u32 },
    LoadFromDisk { key: SlippyTileDownloadTaskKey, path: Seq<char> },
}

/// The key of the tile at `tile` for the zoom level and tile size of a request.
pub open spec fn requested_key(
    tile: SlippyTileCoordinates,
    event: DownloadSlippyTilesEvent,
) -> SlippyTileDownloadTaskKey {
    SlippyTileDownloadTaskKey {
        slippy_tile_coordinates: tile,
        zoom_level: event.zoom_level,
        tile_size: event.tile_size,
    }
}

/// The file that a tile is stored under with the given settings.
pub open spec fn key_filename(
    key: SlippyTileDownloadTaskKey,
    settings: SlippyTilesSettings,
) -> Seq<char> {
    tile_filename(
        settings.tiles_directory@,
        key.zoom_level,
        key.slippy_tile_coordinates.x,
        key.slippy_tile_coordinates.y,
        key.tile_size,
    )
}

/// The URL that a tile is fetched from at an endpoint.
pub open spec fn key_url(key: SlippyTileDownloadTaskKey, endpoint: Seq<char>) -> Seq<char> {
    tile_url(
        endpoint,
        key.tile_size,
        key.zoom_level,
        key.slippy_tile_coordinates.x,
        key.slippy_tile_coordinates.y,
    )
}

/// All that the decisions of a tick rest on, as one plain value.
#[verifier::ext_equal]
pub struct Downloads {
    /// What is known of each tile: its path and status.
    pub registry: Map<SlippyTileDownloadTaskKey, TileRecord>,
    /// The tasks under way: for each tile its path, and `Downloading` for a
    /// transfer or `Downloaded` for a load from disk.
    pub tasks: Map<SlippyTileDownloadTaskKey, TileRecord>,
    /// The times of the admissions that the rate limit still counts.
    pub window: Seq<u64>,
    /// The requests that wait for admission, oldest first.
    pub buffered: Seq<BufferedTile>,
    /// The number of transfers that hold a slot.
    pub active: nat,
}

impl Downloads {
    /// Whether the registry has the tile as `Downloading`.
    pub open spec fn downloading(self, key: SlippyTileDownloadTaskKey) -> bool {
        self.registry.dom().contains(key) && self.registry[key].1 == DownloadStatus::Downloading
    }

    /// Whether a transfer is under way for the tile.
    pub open spec fn transfers(self, key: SlippyTileDownloadTaskKey) -> bool {
        self.tasks.dom().contains(key) && self.tasks[key].1 == DownloadStatus::Downloading
    }

    /// The number of slots held once the task of `key`, if there is one, is
    /// given up: a transfer gives its slot back.
    pub open spec fn active_without(self, key: SlippyTileDownloadTaskKey) -> nat {
        if self.transfers(key) && self.active > 0 {
            (self.active - 1) as nat
        } else {
            self.active
        }
    }

    /// A transfer of the tile to `path` is started: it takes a slot, replaces
    /// the task that was under way for the tile, and the tile is `Downloading`.
    pub open spec fn start_transfer(self, key: SlippyTileDownloadTaskKey, path: Seq<char>) -> Downloads {
        Downloads {
            registry: self.registry.insert(key, (path, DownloadStatus::Downloading)),
            tasks: self.tasks.insert(key, (path, DownloadStatus::Downloading)),
            active: self.active_without(key) + 1,
            ..self
        }
    }

    /// A load of the tile from `path` is started: it takes no slot, replaces
    /// the task that was under way for the tile, and the tile is `Downloaded`
    /// at once.
    pub open spec fn start_load(self, key: SlippyTileDownloadTaskKey, path: Seq<char>) -> Downloads {
        Downloads {
            registry: self.registry.insert(key, (path, DownloadStatus::Downloaded)),
            tasks: self.tasks.insert(key, (path, DownloadStatus::Downloaded)),
            active: self.active_without(key),
            ..self
        }
    }

    /// Admission at time `now`: the rate limit is asked first, which records
    /// `now` when it admits, then the bound on the transfers under way. Both
    /// must admit.
    pub open spec fn ask_admission(self, now: u64, settings: SlippyTilesSettings) -> (Downloads, bool) {
        let live = live_window(self.window, now, settings.rate_limit_window);
        let in_time = live.len() < settings.rate_limit_requests;
        (
            Downloads {
                window: if in_time {
                    live.push(now)
                } else {
                    live
                },
                ..self
            },
            in_time && self.active < settings.max_concurrent_downloads,
        )
    }

    /// One tile of a request is handled.
    ///
    /// A tile that is not admitted is put at the back of the queue. An
    /// admitted tile is dealt with by the cache policy: it is left alone, or a
    /// transfer or a load from disk is started for it and returned.
    pub open spec fn request_tile(
        self,
        key: SlippyTileDownloadTaskKey,
        use_cache: bool,
        files_on_disk: Seq<Seq<char>>,
        now: u64,
        settings: SlippyTilesSettings,
    ) -> (Downloads, Option<TaskOrder>) {
        let (asked, admitted) = self.ask_admission(now, settings);
        let path = key_filename(key, settings);
        if !admitted {
            (
                Downloads {
                    buffered: asked.buffered.push(
                        BufferedTile { key, endpoint: settings.endpoint@, filename: path, use_cache },
                    ),
                    ..asked
                },
                None,
            )
        } else {
            asked.decide_tile(key, settings.endpoint@, path, use_cache, files_on_disk, settings)
        }
    }
}

impl Downloads {
    /// What is done for an admitted tile: it is left alone, or a transfer or a
    /// load from disk is started for it, as the cache policy says for the
    /// request's `use_cache`, for whether the registry has the tile as
    /// `Downloading`, and for whether `path` is among the files in storage.
    pub open spec fn decide_tile(
        self,
        key: SlippyTileDownloadTaskKey,
        endpoint: Seq<char>,
        path: Seq<char>,
        use_cache: bool,
        files_on_disk: Seq<Seq<char>>,
        settings: SlippyTilesSettings,
    ) -> (Downloads, Option<TaskOrder>) {
        match cache_policy(use_cache, self.downloading(key), files_on_disk.contains(path)) {
            TileAction::Leave => (self, None),
            TileAction::Fetch => (
                self.start_transfer(key, path),
                Some(
                    TaskOrder::Fetch {
                        key,
                        url: key_url(key, endpoint),
                        path,
                        max_retries: settings.max_retries,
                    },
                ),
            ),
            TileAction::LoadFromDisk => (
                self.start_load(key, path),
                Some(TaskOrder::LoadFromDisk { key, path }),
            ),
        }
    }

    /// The requests that wait are taken up, oldest first, for as long as each
    /// is admitted at time `now`. An admitted request leaves the queue and is
    /// decided like a new one, with the endpoint, the file and the `use_cache`
    /// it came with. The first request that is not admitted stays at the
    /// front, with all that wait behind it.
    pub open spec fn process_buffered(
        self,
        files_on_disk: Seq<Seq<char>>,
        now: u64,
        settings: SlippyTilesSettings,
    ) -> (Downloads, Seq<TaskOrder>)
        decreases self.buffered.len(),
    {
        if self.buffered.len() == 0 {
            (self, Seq::empty())
        } else {
            let (asked, admitted) = self.ask_admission(now, settings);
            if !admitted {
                (asked, Seq::empty())
            } else {
                let first = self.buffered[0];
                let (decided, order) = Downloads {
                    buffered: self.buffered.drop_first(),
                    ..asked
                }.decide_tile(
                    first.key,
                    first.endpoint,
                    first.filename,
                    first.use_cache,
                    files_on_disk,
                    settings,
                );
                let (last, orders) = decided.process_buffered(files_on_disk, now, settings);
                (
                    last,
                    match order {
                        Some(order) => seq![order] + orders,
                        None => orders,
                    },
                )
            }
        }
    }

    /// The tiles of one request are handled in their order.
    pub open spec fn request_region(
        self,
        tiles: Seq<SlippyTileCoordinates>,
        event: DownloadSlippyTilesEvent,
        files_on_disk: Seq<Seq<char>>,
        now: u64,
        settings: SlippyTilesSettings,
    ) -> (Downloads, Seq<TaskOrder>)
        decreases tiles.len(),
    {
        if tiles.len() == 0 {
            (self, Seq::empty())
        } else {
            let (before, orders) = self.request_region(
                tiles.drop_last(),
                event,
                files_on_disk,
                now,
                settings,
            );
            let (after, order) = before.request_tile(
                requested_key(tiles.last(), event),
                event.use_cache,
                files_on_disk,
                now,
                settings,
            );
            (
                after,
                match order {
                    Some(order) => orders.push(order),
                    None => orders,
                },
            )
        }
    }

    /// The requests are handled in their order, each for all tiles of its
    /// region.
    pub open spec fn request_regions(
        self,
        events: Seq<DownloadSlippyTilesEvent>,
        files_on_disk: Seq<Seq<char>>,
        now: u64,
        settings: SlippyTilesSettings,
    ) -> (Downloads, Seq<TaskOrder>)
        decreases events.len(),
    {
        if events.len() == 0 {
            (self, Seq::empty())
        } else {
            let (before, orders) = self.request_regions(
                events.drop_last(),
                files_on_disk,
                now,
                settings,
            );
            let (after, more) = before.request_region(
                region(events.last().coordinates, events.last().radius.0),
                events.last(),
                files_on_disk,
                now,
                settings,
            );
            (after, orders + more)
        }
    }

    /// One tick: first the requests that wait are taken up, then the new
    /// requests are handled.
    pub open spec fn tick(
        self,
        events: Seq<DownloadSlippyTilesEvent>,
        files_on_disk: Seq<Seq<char>>,
        now: u64,
        settings: SlippyTilesSettings,
    ) -> (Downloads, Seq<TaskOrder>) {
        let (drained, orders) = self.process_buffered(files_on_disk, now, settings);
        let (after, more) = drained.request_regions(events, files_on_disk, now, settings);
        (after, orders + more)
    }
}

/// A tile whose download has ended, as a plain value.
pub struct DownloadedTile {
    pub key: SlippyTileDownloadTaskKey,
    pub path: Seq<char>,
}

impl Downloads {
    /// The task of a tile has ended and reported `path`.
    ///
    /// Where a task is under way for the tile, it is so no longer, a transfer
    /// gives its slot back, the tile is `Downloaded` at the reported path, and
    /// the tile is announced. A report for a tile without a task changes
    /// nothing and announces nothing.
    pub open spec fn complete(self, report: DownloadedTile) -> (Downloads, Option<DownloadedTile>) {
        if self.tasks.dom().contains(report.key) {
            (
                Downloads {
                    registry: self.registry.insert(
                        report.key,
                        (report.path, DownloadStatus::Downloaded),
                    ),
                    tasks: self.tasks.remove(report.key),
                    active: self.active_without(report.key),
                    ..self
                },
                Some(report),
            )
        } else {
            (self, None)
        }
    }

    /// The reports are taken in their order.
    pub open spec fn complete_all(self, finished: Seq<DownloadedTile>) -> (
        Downloads,
        Seq<DownloadedTile>,
    )
        decreases finished.len(),
    {
        if finished.len() == 0 {
            (self, Seq::empty())
        } else {
            let (before, announced) = self.complete_all(finished.drop_last());
            let (after, tile) = before.complete(finished.last());
            (
                after,
                match tile {
                    Some(tile) => announced.push(tile),
                    None => announced,
                },
            )
        }
    }
}

/// Where the cache may be used and the tile's file is in storage, the request
/// starts no transfer: the tile is put off, or it is loaded from disk and is
/// `Downloaded` at once.
pub proof fn lemma_cache_hit_starts_no_transfer(
    state: Downloads,
    key: SlippyTileDownloadTaskKey,
    files_on_disk: Seq<Seq<char>>,
    now: u64,
    settings: SlippyTilesSettings,
)
    requires
        files_on_disk.contains(key_filename(key, settings)),
    ensures
        !(state.request_tile(key, true, files_on_disk, now, settings).1 matches Some(
            TaskOrder::Fetch { .. },
        )),
        state.ask_admission(now, settings).1 ==> {
            let (after, order) = state.request_tile(key, true, files_on_disk, now, settings);
            &&& order == Some(
                TaskOrder::LoadFromDisk { key, path: key_filename(key, settings) },
            )
            &&& after.registry[key] == (key_filename(key, settings), DownloadStatus::Downloaded)
            &&& after.active <= state.active
        },
{
}

/// A request for a tile that is `Downloading` and whose file is not in storage
/// starts nothing: the download that is under way covers it. Where the request
/// is admitted, registry, tasks, slots and queue stay as they are.
pub proof fn lemma_request_while_downloading_starts_nothing(
    state: Downloads,
    key: SlippyTileDownloadTaskKey,
    use_cache: bool,
    files_on_disk: Seq<Seq<char>>,
    now: u64,
    settings: SlippyTilesSettings,
)
    requires
        state.downloading(key),
        !files_on_disk.contains(key_filename(key, settings)),
    ensures
        state.request_tile(key, use_cache, files_on_disk, now, settings).1 is None,
        state.ask_admission(now, settings).1 ==> state.request_tile(
            key,
            use_cache,
            files_on_disk,
            now,
            settings,
        ).0 == state.ask_admission(now, settings).0,
{
}

/// A tile is announced when the task that is under way for it reports, and
/// only then: a second report for the same tile announces nothing and changes
/// nothing, unless a new task was started for the tile in between.
pub proof fn lemma_completion_announces_once(
    state: Downloads,
    first: DownloadedTile,
    second: DownloadedTile,
)
    requires
        first.key == second.key,
    ensures
        state.complete(first).1 is Some <==> state.tasks.dom().contains(first.key),
        state.complete(first).1 is Some ==> state.complete(first).1 == Some(first),
        state.complete(first).0.complete(second) == (state.complete(first).0, None::<DownloadedTile>),
{
}

impl Downloads {
    /// Registry and tasks agree: a tile with a task under way is known to the
    /// registry with the path and status the task was started with, and a tile
    /// that the registry has as `Downloading` has a task under way.
    pub open spec fn consistent(self) -> bool {
        &&& forall|key: SlippyTileDownloadTaskKey| #[trigger]
            self.tasks.dom().contains(key) ==> self.registry.dom().contains(key)
                && self.registry[key] == self.tasks[key]
        &&& forall|key: SlippyTileDownloadTaskKey| #[trigger]
            self.registry.dom().contains(key) && self.registry[key].1
                == DownloadStatus::Downloading ==> self.tasks.dom().contains(key)
    }

    /// The tiles for which a transfer is under way.
    pub open spec fn transfer_keys(self) -> Set<SlippyTileDownloadTaskKey> {
        Set::new(|key: SlippyTileDownloadTaskKey| self.transfers(key))
    }

    /// Every transfer under way holds one slot, and no slot is held
    /// otherwise.
    pub open spec fn slots_accounted(self) -> bool {
        self.transfer_keys().finite() && self.active == self.transfer_keys().len()
    }

    /// The state keeps to the limits of the settings: registry and tasks
    /// agree, the slots held are those of the transfers under way, no more
    /// transfers run than may run at a time, and the rate limit counts no more
    /// admissions than it allows.
    pub open spec fn in_order(self, settings: SlippyTilesSettings) -> bool {
        &&& self.consistent()
        &&& self.slots_accounted()
        &&& self.active <= settings.max_concurrent_downloads
        &&& self.window.len() <= settings.rate_limit_requests
    }

    /// The number of requests that the rate limit can still admit at `now`.
    pub open spec fn room(self, now: u64, settings: SlippyTilesSettings) -> nat {
        let counted = live_window(self.window, now, settings.rate_limit_window).len();
        if counted < settings.rate_limit_requests {
            (settings.rate_limit_requests - counted) as nat
        } else {
            0
        }
    }

    /// The state in which nothing is known, nothing runs and nothing waits.
    pub open spec fn idle() -> Downloads {
        Downloads {
            registry: Map::empty(),
            tasks: Map::empty(),
            window: Seq::empty(),
            buffered: Seq::empty(),
            active: 0,
        }
    }
}

/// Starting and ending tasks keeps the slots accounted: a transfer that is
/// started takes the slot of the transfer it replaces or one more, and a task
/// that ends or is replaced by a load gives back the slot it held.
pub proof fn lemma_slots_follow_tasks(
    state: Downloads,
    key: SlippyTileDownloadTaskKey,
    path: Seq<char>,
)
    requires
        state.slots_accounted(),
    ensures
        state.start_transfer(key, path).slots_accounted(),
        state.start_load(key, path).slots_accounted(),
        state.complete(DownloadedTile { key, path }).0.slots_accounted(),
        state.transfers(key) ==> state.active > 0,
        state.start_transfer(key, path).active == if state.transfers(key) {
            state.active
        } else {
            state.active + 1
        },
{
    let keys = state.transfer_keys();
    if state.transfers(key) {
        assert(keys.contains(key));
        assert(keys.len() > 0) by {
            if keys.len() == 0 {
                assert(keys =~= Set::empty()) by {
                    keys.lemma_len0_is_empty();
                }
            }
        }
    }
    assert(state.start_transfer(key, path).transfer_keys() =~= keys.insert(key));
    assert(state.start_load(key, path).transfer_keys() =~= keys.remove(key));
    let ended = state.complete(DownloadedTile { key, path }).0;
    if state.tasks.dom().contains(key) {
        assert(ended.transfer_keys() =~= keys.remove(key));
    }
}

/// A window that was asked at `now` holds no expired time at its front, so
/// asking it again at `now` evicts nothing.
proof fn lemma_asked_window_is_live(state: Downloads, now: u64, settings: SlippyTilesSettings)
    ensures
        live_window(state.ask_admission(now, settings).0.window, now, settings.rate_limit_window)
            == state.ask_admission(now, settings).0.window,
        state.ask_admission(now, settings).0.window.len() <= state.window.len()
            || state.ask_admission(now, settings).0.window.len() <= settings.rate_limit_requests,
        state.ask_admission(now, settings).1 ==> state.ask_admission(now, settings).0.room(
            now,
            settings,
        ) + 1 == state.room(now, settings),
        state.ask_admission(now, settings).0.room(now, settings) <= state.room(now, settings),
{
    let window = settings.rate_limit_window;
    let live = live_window(state.window, now, window);
    crate::limiter::lemma_live_window_is_tail(state.window, now, window);
    let asked = state.ask_admission(now, settings).0.window;
    if live.len() > 0 {
        assert(asked[0] == live[0]);
    }
}

/// Deciding an admitted tile keeps the state in order, and touches neither
/// the rate limit nor the queue.
pub proof fn lemma_decide_tile_keeps_order(
    state: Downloads,
    key: SlippyTileDownloadTaskKey,
    endpoint: Seq<char>,
    path: Seq<char>,
    use_cache: bool,
    files_on_disk: Seq<Seq<char>>,
    settings: SlippyTilesSettings,
)
    ensures
        ({
            let (after, order) = state.decide_tile(
                key,
                endpoint,
                path,
                use_cache,
                files_on_disk,
                settings,
            );
            &&& state.in_order(settings) && state.active < settings.max_concurrent_downloads
                ==> after.in_order(settings)
            &&& after.window == state.window
            &&& after.buffered == state.buffered
        }),
{
    if state.in_order(settings) {
        lemma_slots_follow_tasks(state, key, path);
    }
}

/// Handling one tile keeps the state in order, starts at most one task, uses
/// one admission of the rate limit for a task it starts, and leaves the queue
/// as it is or adds the tile at its back.
pub proof fn lemma_request_tile_keeps_order(
    state: Downloads,
    key: SlippyTileDownloadTaskKey,
    use_cache: bool,
    files_on_disk: Seq<Seq<char>>,
    now: u64,
    settings: SlippyTilesSettings,
)
    ensures
        ({
            let (after, order) = state.request_tile(key, use_cache, files_on_disk, now, settings);
            &&& state.in_order(settings) ==> after.in_order(settings)
            &&& after.room(now, settings) + (if order is Some {
                1nat
            } else {
                0nat
            }) <= state.room(now, settings)
            &&& state.buffered.len() <= after.buffered.len() <= state.buffered.len() + 1
            &&& after.buffered.take(state.buffered.len() as int) == state.buffered
            &&& order is Some ==> after.buffered == state.buffered
        }),
{
    lemma_asked_window_is_live(state, now, settings);
    let (after, order) = state.request_tile(key, use_cache, files_on_disk, now, settings);
    let (asked, admitted) = state.ask_admission(now, settings);
    let path = key_filename(key, settings);
    lemma_decide_tile_keeps_order(
        asked,
        key,
        settings.endpoint@,
        path,
        use_cache,
        files_on_disk,
        settings,
    );
    assert(after.buffered.take(state.buffered.len() as int) =~= state.buffered);
    assert(asked.transfer_keys() =~= state.transfer_keys());
    if !admitted {
        assert(after.transfer_keys() =~= state.transfer_keys());
    }
}

/// The number of requests that a tick takes out of the queue.
pub open spec fn taken_from_queue(
    state: Downloads,
    files_on_disk: Seq<Seq<char>>,
    now: u64,
    settings: SlippyTilesSettings,
) -> int {
    state.buffered.len() - state.process_buffered(files_on_disk, now, settings).0.buffered.len()
}

/// Taking up the requests that wait keeps the state in order and takes them
/// from the front of the queue: all other requests keep their place. Every
/// request that is taken up uses one admission, so no more are taken up, and
/// no more tasks started, than the rate limit has room for.
pub proof fn lemma_process_buffered_keeps_order(
    state: Downloads,
    files_on_disk: Seq<Seq<char>>,
    now: u64,
    settings: SlippyTilesSettings,
)
    ensures
        ({
            let (after, orders) = state.process_buffered(files_on_disk, now, settings);
            let taken = taken_from_queue(state, files_on_disk, now, settings);
            &&& state.in_order(settings) ==> after.in_order(settings)
            &&& orders.len() <= taken <= state.buffered.len()
            &&& after.room(now, settings) + taken <= state.room(now, settings)
            &&& after.buffered == state.buffered.skip(taken)
        }),
    decreases state.buffered.len(),
{
    let (after, orders) = state.process_buffered(files_on_disk, now, settings);
    lemma_asked_window_is_live(state, now, settings);
    if state.buffered.len() == 0 {
        assert(after.buffered =~= state.buffered.skip(0));
    } else {
        let (asked, admitted) = state.ask_admission(now, settings);
        assert(asked.transfer_keys() =~= state.transfer_keys());
        if !admitted {
            assert(after.buffered =~= state.buffered.skip(0));
        } else {
            let first = state.buffered[0];
            let waiting = Downloads { buffered: state.buffered.drop_first(), ..asked };
            assert(waiting.transfer_keys() =~= state.transfer_keys());
            lemma_decide_tile_keeps_order(
                waiting,
                first.key,
                first.endpoint,
                first.filename,
                first.use_cache,
                files_on_disk,
                settings,
            );
            let (decided, order) = waiting.decide_tile(
                first.key,
                first.endpoint,
                first.filename,
                first.use_cache,
                files_on_disk,
                settings,
            );
            lemma_process_buffered_keeps_order(decided, files_on_disk, now, settings);
            assert(decided.room(now, settings) == asked.room(now, settings));
            let taken = taken_from_queue(state, files_on_disk, now, settings);
            assert(after.buffered =~= state.buffered.skip(taken));
        }
    }
}

/// Handling the tiles of a request keeps the state in order, starts no more
/// tasks than the rate limit has room for, and keeps every request that
/// waited in its place in the queue.
pub proof fn lemma_request_region_keeps_order(
    state: Downloads,
    tiles: Seq<SlippyTileCoordinates>,
    event: DownloadSlippyTilesEvent,
    files_on_disk: Seq<Seq<char>>,
    now: u64,
    settings: SlippyTilesSettings,
)
    ensures
        ({
            let (after, orders) = state.request_region(tiles, event, files_on_disk, now, settings);
            &&& state.in_order(settings) ==> after.in_order(settings)
            &&& after.room(now, settings) + orders.len() <= state.room(now, settings)
            &&& orders.len() <= tiles.len()
            &&& state.buffered.len() <= after.buffered.len()
            &&& after.buffered.len() + orders.len() <= state.buffered.len() + tiles.len()
            &&& after.buffered.take(state.buffered.len() as int) == state.buffered
        }),
    decreases tiles.len(),
{
    if tiles.len() > 0 {
        let (before, orders) = state.request_region(
            tiles.drop_last(),
            event,
            files_on_disk,
            now,
            settings,
        );
        lemma_request_region_keeps_order(
            state,
            tiles.drop_last(),
            event,
            files_on_disk,
            now,
            settings,
        );
        lemma_request_tile_keeps_order(
            before,
            requested_key(tiles.last(), event),
            event.use_cache,
            files_on_disk,
            now,
            settings,
        );
        let (after, order) = before.request_tile(
            requested_key(tiles.last(), event),
            event.use_cache,
            files_on_disk,
            now,
            settings,
        );
        assert(after.buffered.take(state.buffered.len() as int) =~= before.buffered.take(
            state.buffered.len() as int,
        ));
    } else {
        assert(state.buffered.take(state.buffered.len() as int) =~= state.buffered);
    }
}

/// Handling the requests of a tick keeps the state in order, starts no more
/// tasks than the rate limit has room for, and keeps every request that
/// waited in its place in the queue.
pub proof fn lemma_request_regions_keeps_order(
    state: Downloads,
    events: Seq<DownloadSlippyTilesEvent>,
    files_on_disk: Seq<Seq<char>>,
    now: u64,
    settings: SlippyTilesSettings,
)
    ensures
        ({
            let (after, orders) = state.request_regions(events, files_on_disk, now, settings);
            &&& state.in_order(settings) ==> after.in_order(settings)
            &&& after.room(now, settings) + orders.len() <= state.room(now, settings)
            &&& state.buffered.len() <= after.buffered.len()
            &&& after.buffered.take(state.buffered.len() as int) == state.buffered
        }),
    decreases events.len(),
{
    if events.len() > 0 {
        let (before, orders) = state.request_regions(
            events.drop_last(),
            files_on_disk,
            now,
            settings,
        );
        lemma_request_regions_keeps_order(state, events.drop_last(), files_on_disk, now, settings);
        let tiles = region(events.last().coordinates, events.last().radius.0);
        lemma_request_region_keeps_order(before, tiles, events.last(), files_on_disk, now, settings);
        let (after, more) = before.request_region(
            tiles,
            events.last(),
            files_on_disk,
            now,
            settings,
        );
        assert(after.buffered.take(state.buffered.len() as int) =~= before.buffered.take(
            state.buffered.len() as int,
        ));
    } else {
        assert(state.buffered.take(state.buffered.len() as int) =~= state.buffered);
    }
}

/// A tick keeps the state in order: registry and tasks agree, the transfers
/// under way stay within their bound, and the rate limit is kept. It starts no
/// more tasks than the rate limit has room for at `now`, so never more than
/// `rate_limit_requests`. And it loses no request: the requests that waited
/// are taken up from the front, and what is left of them stays in the queue
/// in its order, in front of the requests that the tick has put off.
pub proof fn lemma_tick_keeps_order(
    state: Downloads,
    events: Seq<DownloadSlippyTilesEvent>,
    files_on_disk: Seq<Seq<char>>,
    now: u64,
    settings: SlippyTilesSettings,
)
    ensures
        ({
            let (after, orders) = state.tick(events, files_on_disk, now, settings);
            let taken = taken_from_queue(state, files_on_disk, now, settings);
            &&& state.in_order(settings) ==> after.in_order(settings)
            &&& orders.len() <= state.room(now, settings) <= settings.rate_limit_requests
            &&& 0 <= taken <= state.buffered.len()
            &&& after.buffered.len() >= state.buffered.len() - taken
            &&& after.buffered.take(state.buffered.len() - taken) == state.buffered.skip(taken)
        }),
{
    lemma_process_buffered_keeps_order(state, files_on_disk, now, settings);
    let (drained, first) = state.process_buffered(files_on_disk, now, settings);
    lemma_request_regions_keeps_order(drained, events, files_on_disk, now, settings);
}

/// The end of a task keeps the state in order, and announces a tile only for
/// a task that was under way.
pub proof fn lemma_complete_keeps_order(
    state: Downloads,
    report: DownloadedTile,
    settings: SlippyTilesSettings,
)
    ensures
        state.in_order(settings) ==> state.complete(report).0.in_order(settings),
        state.complete(report).0.active <= state.active,
        state.complete(report).0.window == state.window,
        state.complete(report).0.buffered == state.buffered,
        !state.complete(report).0.tasks.dom().contains(report.key),
        forall|key: SlippyTileDownloadTaskKey|
            key != report.key ==> (state.complete(report).0.tasks.dom().contains(key)
                <==> state.tasks.dom().contains(key)),
        forall|key: SlippyTileDownloadTaskKey|
            #![trigger state.complete(report).0.registry[key]]
            state.registry.dom().contains(key) && state.registry[key].1
                == DownloadStatus::Downloaded ==> state.complete(report).0.registry.dom().contains(
                key,
            ) && state.complete(report).0.registry[key].1 == DownloadStatus::Downloaded,
{
    if state.in_order(settings) {
        lemma_slots_follow_tasks(state, report.key, report.path);
    }
}

/// The end of several tasks keeps the state in order, announces at most one
/// tile for each report, never takes a slot, and never turns a tile that is
/// `Downloaded` back to `Downloading`.
pub proof fn lemma_complete_all_keeps_order(
    state: Downloads,
    finished: Seq<DownloadedTile>,
    settings: SlippyTilesSettings,
)
    ensures
        ({
            let (after, announced) = state.complete_all(finished);
            &&& state.in_order(settings) ==> after.in_order(settings)
            &&& announced.len() <= finished.len()
            &&& after.active <= state.active
            &&& after.window == state.window
            &&& after.buffered == state.buffered
            &&& forall|key: SlippyTileDownloadTaskKey|
                #![trigger after.registry[key]]
                state.registry.dom().contains(key) && state.registry[key].1
                    == DownloadStatus::Downloaded ==> after.registry.dom().contains(key)
                    && after.registry[key].1 == DownloadStatus::Downloaded
            &&& forall|i: int|
                0 <= i < finished.len() ==> !after.tasks.dom().contains(
                    (#[trigger] finished[i]).key,
                )
        }),
    decreases finished.len(),
{
    if finished.len() > 0 {
        let (before, announced) = state.complete_all(finished.drop_last());
        lemma_complete_all_keeps_order(state, finished.drop_last(), settings);
        lemma_complete_keeps_order(before, finished.last(), settings);
        let (after, tile) = before.complete(finished.last());
        assert forall|key: SlippyTileDownloadTaskKey|
            #![trigger after.registry[key]]
            state.registry.dom().contains(key) && state.registry[key].1
                == DownloadStatus::Downloaded implies after.registry.dom().contains(key)
            && after.registry[key].1 == DownloadStatus::Downloaded by {
            assert(before.registry[key].1 == DownloadStatus::Downloaded);
        }
        assert forall|i: int| 0 <= i < finished.len() implies !after.tasks.dom().contains(
            (#[trigger] finished[i]).key,
        ) by {
            if i < finished.len() - 1 {
                assert(finished.drop_last()[i] == finished[i]);
            }
        }
    }
}

/// The state in which nothing is known is in order, whatever the settings.
pub proof fn lemma_idle_is_in_order(settings: SlippyTilesSettings)
    ensures
        Downloads::idle().in_order(settings),
{
    assert(Downloads::idle().transfer_keys() =~= Set::empty());
}

/// With one directory for all tiles, the file tells the tile: the file of one
/// tile is never taken for that of another.
pub proof fn lemma_key_filename_identifies_key(
    key: SlippyTileDownloadTaskKey,
    other: SlippyTileDownloadTaskKey,
    settings: SlippyTilesSettings,
)
    ensures
        key_filename(key, settings) == key_filename(other, settings) <==> key == other,
{
    if key_filename(key, settings) == key_filename(other, settings) {
        crate::naming::lemma_filename_identifies_tile(
            settings.tiles_directory@,
            key.zoom_level,
            key.slippy_tile_coordinates.x,
            key.slippy_tile_coordinates.y,
            key.tile_size,
            other.zoom_level,
            other.slippy_tile_coordinates.x,
            other.slippy_tile_coordinates.y,
            other.tile_size,
        );
    }
}

/// The tile that a task is for.
pub open spec fn order_key(order: TaskOrder) -> SlippyTileDownloadTaskKey {
    match order {
        TaskOrder::Fetch { key, .. } => key,
        TaskOrder::LoadFromDisk { key, .. } => key,
    }
}

/// Whether a task is a transfer of the tile from the network.
pub open spec fn is_transfer_of(order: TaskOrder, key: SlippyTileDownloadTaskKey) -> bool {
    order is Fetch && order_key(order) == key
}

/// None of the tasks is a transfer of the tile.
pub open spec fn no_transfer_of(orders: Seq<TaskOrder>, key: SlippyTileDownloadTaskKey) -> bool {
    forall|j: int| 0 <= j < orders.len() ==> !is_transfer_of(#[trigger] orders[j], key)
}

/// None of the tasks is for the tile.
pub open spec fn no_task_for(orders: Seq<TaskOrder>, key: SlippyTileDownloadTaskKey) -> bool {
    forall|j: int| 0 <= j < orders.len() ==> order_key(#[trigger] orders[j]) != key
}

/// Every request for the tile that waits may use the cache, and its file is
/// in storage.
pub open spec fn waits_with_file(
    buffered: Seq<BufferedTile>,
    key: SlippyTileDownloadTaskKey,
    files_on_disk: Seq<Seq<char>>,
) -> bool {
    forall|i: int|
        0 <= i < buffered.len() && (#[trigger] buffered[i]).key == key ==> buffered[i].use_cache
            && files_on_disk.contains(buffered[i].filename)
}

/// No request for the tile that waits has its file in storage.
pub open spec fn waits_without_file(
    buffered: Seq<BufferedTile>,
    key: SlippyTileDownloadTaskKey,
    files_on_disk: Seq<Seq<char>>,
) -> bool {
    forall|i: int|
        0 <= i < buffered.len() && (#[trigger] buffered[i]).key == key
            ==> !files_on_disk.contains(buffered[i].filename)
}

/// Whether a request asks for the tile: it has the tile's zoom level and
/// size, and the tile lies in its region.
pub open spec fn asks_for(event: DownloadSlippyTilesEvent, key: SlippyTileDownloadTaskKey) -> bool {
    &&& event.zoom_level == key.zoom_level
    &&& event.tile_size == key.tile_size
    &&& region(event.coordinates, event.radius.0).contains(key.slippy_tile_coordinates)
}

/// Every request that asks for the tile may use the cache.
pub open spec fn all_ask_with_cache(
    events: Seq<DownloadSlippyTilesEvent>,
    key: SlippyTileDownloadTaskKey,
) -> bool {
    forall|e: int| 0 <= e < events.len() && asks_for(#[trigger] events[e], key) ==> events[e].use_cache
}

/// How a tile fares while its file is in storage and every request for it may
/// use the cache.
proof fn lemma_cached_tile_through_queue(
    state: Downloads,
    key: SlippyTileDownloadTaskKey,
    files_on_disk: Seq<Seq<char>>,
    now: u64,
    settings: SlippyTilesSettings,
)
    requires
        waits_with_file(state.buffered, key, files_on_disk),
    ensures
        no_transfer_of(state.process_buffered(files_on_disk, now, settings).1, key),
        waits_with_file(
            state.process_buffered(files_on_disk, now, settings).0.buffered,
            key,
            files_on_disk,
        ),
    decreases state.buffered.len(),
{
    if state.buffered.len() > 0 {
        let (asked, admitted) = state.ask_admission(now, settings);
        if admitted {
            let first = state.buffered[0];
            let waiting = Downloads { buffered: state.buffered.drop_first(), ..asked };
            let (decided, order) = waiting.decide_tile(
                first.key,
                first.endpoint,
                first.filename,
                first.use_cache,
                files_on_disk,
                settings,
            );
            assert forall|i: int|
                0 <= i < decided.buffered.len() && (#[trigger] decided.buffered[i]).key
                    == key implies decided.buffered[i].use_cache && files_on_disk.contains(
                decided.buffered[i].filename,
            ) by {
                assert(decided.buffered[i] == state.buffered[i + 1]);
            }
            lemma_cached_tile_through_queue(decided, key, files_on_disk, now, settings);
            let (last, orders) = decided.process_buffered(files_on_disk, now, settings);
            let all = state.process_buffered(files_on_disk, now, settings).1;
            assert forall|j: int| 0 <= j < all.len() implies !is_transfer_of(
                #[trigger] all[j],
                key,
            ) by {
                if order is Some {
                    if j > 0 {
                        assert(all[j] == orders[j - 1]);
                    }
                }
            }
        }
    }
}

proof fn lemma_cached_tile_through_region(
    state: Downloads,
    key: SlippyTileDownloadTaskKey,
    tiles: Seq<SlippyTileCoordinates>,
    event: DownloadSlippyTilesEvent,
    files_on_disk: Seq<Seq<char>>,
    now: u64,
    settings: SlippyTilesSettings,
)
    requires
        waits_with_file(state.buffered, key, files_on_disk),
        files_on_disk.contains(key_filename(key, settings)),
        forall|i: int|
            0 <= i < tiles.len() && requested_key(#[trigger] tiles[i], event) == key
                ==> event.use_cache,
    ensures
        no_transfer_of(state.request_region(tiles, event, files_on_disk, now, settings).1, key),
        waits_with_file(
            state.request_region(tiles, event, files_on_disk, now, settings).0.buffered,
            key,
            files_on_disk,
        ),
    decreases tiles.len(),
{
    if tiles.len() > 0 {
        let (before, orders) = state.request_region(
            tiles.drop_last(),
            event,
            files_on_disk,
            now,
            settings,
        );
        assert forall|i: int|
            0 <= i < tiles.drop_last().len() && requested_key(
                #[trigger] tiles.drop_last()[i],
                event,
            ) == key implies event.use_cache by {
            assert(tiles.drop_last()[i] == tiles[i]);
        }
        lemma_cached_tile_through_region(
            state,
            key,
            tiles.drop_last(),
            event,
            files_on_disk,
            now,
            settings,
        );
        let asked = requested_key(tiles.last(), event);
        assert(tiles.last() == tiles[tiles.len() - 1]);
        let (after, order) = before.request_tile(
            asked,
            event.use_cache,
            files_on_disk,
            now,
            settings,
        );
        assert forall|i: int|
            0 <= i < after.buffered.len() && (#[trigger] after.buffered[i]).key
                == key implies after.buffered[i].use_cache && files_on_disk.contains(
            after.buffered[i].filename,
        ) by {
            if i < before.buffered.len() {
                assert(after.buffered[i] == before.buffered[i]);
            }
        }
    }
}

proof fn lemma_cached_tile_through_regions(
    state: Downloads,
    key: SlippyTileDownloadTaskKey,
    events: Seq<DownloadSlippyTilesEvent>,
    files_on_disk: Seq<Seq<char>>,
    now: u64,
    settings: SlippyTilesSettings,
)
    requires
        waits_with_file(state.buffered, key, files_on_disk),
        files_on_disk.contains(key_filename(key, settings)),
        all_ask_with_cache(events, key),
    ensures
        no_transfer_of(state.request_regions(events, files_on_disk, now, settings).1, key),
        waits_with_file(
            state.request_regions(events, files_on_disk, now, settings).0.buffered,
            key,
            files_on_disk,
        ),
    decreases events.len(),
{
    if events.len() > 0 {
        let (before, orders) = state.request_regions(
            events.drop_last(),
            files_on_disk,
            now,
            settings,
        );
        assert forall|e: int|
            0 <= e < events.drop_last().len() && asks_for(
                #[trigger] events.drop_last()[e],
                key,
            ) implies events.drop_last()[e].use_cache by {
            assert(events.drop_last()[e] == events[e]);
        }
        lemma_cached_tile_through_regions(
            state,
            key,
            events.drop_last(),
            files_on_disk,
            now,
            settings,
        );
        let event = events.last();
        assert(event == events[events.len() - 1]);
        let tiles = region(event.coordinates, event.radius.0);
        assert forall|i: int|
            0 <= i < tiles.len() && requested_key(#[trigger] tiles[i], event)
                == key implies event.use_cache by {
            assert(tiles.contains(key.slippy_tile_coordinates));
            assert(asks_for(event, key));
        }
        lemma_cached_tile_through_region(before, key, tiles, event, files_on_disk, now, settings);
    }
}

/// A tile whose file is in storage is never transferred from the network
/// while every request for it may use the cache: not by the request that
/// comes, and not when a request that was put off is taken up on a later
/// tick. The requests for the tile that wait after the tick may use the cache
/// too, so the same holds of the next tick for as long as the file is there.
pub proof fn lemma_cached_tile_is_never_fetched(
    state: Downloads,
    key: SlippyTileDownloadTaskKey,
    events: Seq<DownloadSlippyTilesEvent>,
    files_on_disk: Seq<Seq<char>>,
    now: u64,
    settings: SlippyTilesSettings,
)
    requires
        files_on_disk.contains(key_filename(key, settings)),
        waits_with_file(state.buffered, key, files_on_disk),
        all_ask_with_cache(events, key),
    ensures
        no_transfer_of(state.tick(events, files_on_disk, now, settings).1, key),
        waits_with_file(
            state.tick(events, files_on_disk, now, settings).0.buffered,
            key,
            files_on_disk,
        ),
{
    lemma_cached_tile_through_queue(state, key, files_on_disk, now, settings);
    let (drained, first) = state.process_buffered(files_on_disk, now, settings);
    lemma_cached_tile_through_regions(drained, key, events, files_on_disk, now, settings);
    let (after, more) = drained.request_regions(events, files_on_disk, now, settings);
    let all = first + more;
    assert forall|j: int| 0 <= j < all.len() implies !is_transfer_of(#[trigger] all[j], key) by {
        if j >= first.len() {
            assert(all[j] == more[j - first.len()]);
        }
    }
}

/// What holds of a tile that is being downloaded and has no file in storage:
/// the registry has it as `Downloading` with the record it had, and its task
/// is the one it was.
pub open spec fn still_downloading(
    state: Downloads,
    after: Downloads,
    key: SlippyTileDownloadTaskKey,
) -> bool {
    &&& after.downloading(key)
    &&& after.registry[key] == state.registry[key]
    &&& after.tasks.dom().contains(key) == state.tasks.dom().contains(key)
    &&& after.tasks.dom().contains(key) ==> after.tasks[key] == state.tasks[key]
}

proof fn lemma_downloading_tile_through_queue(
    start: Downloads,
    state: Downloads,
    key: SlippyTileDownloadTaskKey,
    files_on_disk: Seq<Seq<char>>,
    now: u64,
    settings: SlippyTilesSettings,
)
    requires
        still_downloading(start, state, key),
        waits_without_file(state.buffered, key, files_on_disk),
    ensures
        no_task_for(state.process_buffered(files_on_disk, now, settings).1, key),
        still_downloading(start, state.process_buffered(files_on_disk, now, settings).0, key),
        waits_without_file(
            state.process_buffered(files_on_disk, now, settings).0.buffered,
            key,
            files_on_disk,
        ),
    decreases state.buffered.len(),
{
    if state.buffered.len() > 0 {
        let (asked, admitted) = state.ask_admission(now, settings);
        if admitted {
            let first = state.buffered[0];
            let waiting = Downloads { buffered: state.buffered.drop_first(), ..asked };
            let (decided, order) = waiting.decide_tile(
                first.key,
                first.endpoint,
                first.filename,
                first.use_cache,
                files_on_disk,
                settings,
            );
            assert forall|i: int|
                0 <= i < decided.buffered.len() && (#[trigger] decided.buffered[i]).key
                    == key implies !files_on_disk.contains(decided.buffered[i].filename) by {
                assert(decided.buffered[i] == state.buffered[i + 1]);
            }
            lemma_downloading_tile_through_queue(start, decided, key, files_on_disk, now, settings);
            let (last, orders) = decided.process_buffered(files_on_disk, now, settings);
            let all = state.process_buffered(files_on_disk, now, settings).1;
            assert forall|j: int| 0 <= j < all.len() implies order_key(#[trigger] all[j])
                != key by {
                if order is Some {
                    if j > 0 {
                        assert(all[j] == orders[j - 1]);
                    }
                }
            }
        }
    }
}

proof fn lemma_downloading_tile_through_region(
    start: Downloads,
    state: Downloads,
    key: SlippyTileDownloadTaskKey,
    tiles: Seq<SlippyTileCoordinates>,
    event: DownloadSlippyTilesEvent,
    files_on_disk: Seq<Seq<char>>,
    now: u64,
    settings: SlippyTilesSettings,
)
    requires
        still_downloading(start, state, key),
        waits_without_file(state.buffered, key, files_on_disk),
        !files_on_disk.contains(key_filename(key, settings)),
    ensures
        no_task_for(state.request_region(tiles, event, files_on_disk, now, settings).1, key),
        still_downloading(
            start,
            state.request_region(tiles, event, files_on_disk, now, settings).0,
            key,
        ),
        waits_without_file(
            state.request_region(tiles, event, files_on_disk, now, settings).0.buffered,
            key,
            files_on_disk,
        ),
    decreases tiles.len(),
{
    if tiles.len() > 0 {
        let (before, orders) = state.request_region(
            tiles.drop_last(),
            event,
            files_on_disk,
            now,
            settings,
        );
        lemma_downloading_tile_through_region(
            start,
            state,
            key,
            tiles.drop_last(),
            event,
            files_on_disk,
            now,
            settings,
        );
        let (after, order) = before.request_tile(
            requested_key(tiles.last(), event),
            event.use_cache,
            files_on_disk,
            now,
            settings,
        );
        assert forall|i: int|
            0 <= i < after.buffered.len() && (#[trigger] after.buffered[i]).key
                == key implies !files_on_disk.contains(after.buffered[i].filename) by {
            if i < before.buffered.len() {
                assert(after.buffered[i] == before.buffered[i]);
            }
        }
    }
}

proof fn lemma_downloading_tile_through_regions(
    start: Downloads,
    state: Downloads,
    key: SlippyTileDownloadTaskKey,
    events: Seq<DownloadSlippyTilesEvent>,
    files_on_disk: Seq<Seq<char>>,
    now: u64,
    settings: SlippyTilesSettings,
)
    requires
        still_downloading(start, state, key),
        waits_without_file(state.buffered, key, files_on_disk),
        !files_on_disk.contains(key_filename(key, settings)),
    ensures
        no_task_for(state.request_regions(events, files_on_disk, now, settings).1, key),
        still_downloading(
            start,
            state.request_regions(events, files_on_disk, now, settings).0,
            key,
        ),
        waits_without_file(
            state.request_regions(events, files_on_disk, now, settings).0.buffered,
            key,
            files_on_disk,
        ),
    decreases events.len(),
{
    if events.len() > 0 {
        let (before, orders) = state.request_regions(
            events.drop_last(),
            files_on_disk,
            now,
            settings,
        );
        lemma_downloading_tile_through_regions(
            start,
            state,
            key,
            events.drop_last(),
            files_on_disk,
            now,
            settings,
        );
        let event = events.last();
        lemma_downloading_tile_through_region(
            start,
            before,
            key,
            region(event.coordinates, event.radius.0),
            event,
            files_on_disk,
            now,
            settings,
        );
    }
}

/// While a tile is being downloaded and its file is not in storage, no tick
/// starts another task for it, whatever is asked and whatever waits: the one
/// task that is under way stays the only one, and the registry keeps the tile
/// as `Downloading`. With the law on completion this gives one transfer and
/// one announcement for a tile that is asked for again while it is
/// downloaded.
pub proof fn lemma_downloading_tile_gets_no_second_task(
    state: Downloads,
    key: SlippyTileDownloadTaskKey,
    events: Seq<DownloadSlippyTilesEvent>,
    files_on_disk: Seq<Seq<char>>,
    now: u64,
    settings: SlippyTilesSettings,
)
    requires
        state.downloading(key),
        !files_on_disk.contains(key_filename(key, settings)),
        waits_without_file(state.buffered, key, files_on_disk),
    ensures
        no_task_for(state.tick(events, files_on_disk, now, settings).1, key),
        still_downloading(state, state.tick(events, files_on_disk, now, settings).0, key),
        waits_without_file(
            state.tick(events, files_on_disk, now, settings).0.buffered,
            key,
            files_on_disk,
        ),
{
    lemma_downloading_tile_through_queue(state, state, key, files_on_disk, now, settings);
    let (drained, first) = state.process_buffered(files_on_disk, now, settings);
    lemma_downloading_tile_through_regions(
        state,
        drained,
        key,
        events,
        files_on_disk,
        now,
        settings,
    );
    let (after, more) = drained.request_regions(events, files_on_disk, now, settings);
    let all = first + more;
    assert forall|j: int| 0 <= j < all.len() implies order_key(#[trigger] all[j]) != key by {
        if j >= first.len() {
            assert(all[j] == more[j - first.len()]);
        }
    }
}

/// A transfer takes one slot when it is started and gives it back when its
/// end is reported, whatever it reports: the count of slots is then what it
/// was before the transfer, and a second report gives nothing back.
pub proof fn lemma_transfer_holds_one_slot(
    state: Downloads,
    key: SlippyTileDownloadTaskKey,
    path: Seq<char>,
    report: DownloadedTile,
    again: DownloadedTile,
)
    requires
        state.slots_accounted(),
        !state.transfers(key),
        report.key == key,
        again.key == key,
    ensures
        state.start_transfer(key, path).active == state.active + 1,
        state.start_transfer(key, path).complete(report).0.active == state.active,
        state.start_transfer(key, path).complete(report).0.complete(again).0.active
            == state.active,
        state.start_transfer(key, path).complete(report).0.slots_accounted(),
{
    lemma_slots_follow_tasks(state, key, path);
    lemma_slots_follow_tasks(state.start_transfer(key, path), key, report.path);
}

} // verus!
