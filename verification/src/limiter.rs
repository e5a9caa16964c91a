//! Admission control: the sliding window that limits requests per unit of time,
//! the queue of requests that wait for admission, and the count that bounds the
//! number of downloads under way.
use vstd::prelude::*;
use std::collections::VecDeque;
use crate::coordinates::SlippyTileCoordinates;
use crate::download::SlippyTileDownloadTaskKey;
use crate::settings::SlippyTilesSettings;
use crate::types::{TileSize, ZoomLevel};

verus! {

/// A request for one tile that was put off: the tile, the endpoint to fetch
/// it from, the file to store it under, and whether the request may be
/// answered from that file.
#[derive(Debug)]
pub struct BufferedRequest {
    pub coords: (u32, u32),
    pub zoom_level: ZoomLevel,
    pub tile_size: TileSize,
    pub endpoint: String,
    pub filename: String,
    pub use_cache: bool,
}

/// A buffered request as a plain value.
pub struct BufferedTile {
    pub key: SlippyTileDownloadTaskKey,
    pub endpoint: Seq<char>,
    pub filename: Seq<char>,
    pub use_cache: bool,
}

impl View for BufferedRequest {
    type V = BufferedTile;

    open spec fn view(&self) -> BufferedTile {
        BufferedTile {
            key: SlippyTileDownloadTaskKey {
                slippy_tile_coordinates: SlippyTileCoordinates {
                    x: self.coords.0,
                    y: self.coords.1,
                },
                zoom_level: self.zoom_level,
                tile_size: self.tile_size,
            },
            endpoint: self.endpoint@,
            filename: self.filename@,
            use_cache: self.use_cache,
        }
    }
}

/// Whether an admission at `time` has left the window that ends at `now`: it
/// has when more than `window` has passed since. A time that is not before
/// `now` has not.
pub open spec fn expired(time: u64, now: u64, window: u64) -> bool {
    now - time > window
}

/// The admission times that are left after eviction: expired times are dropped
/// from the front, up to the first time that has not expired.
pub open spec fn live_window(times: Seq<u64>, now: u64, window: u64) -> Seq<u64>
    decreases times.len(),
{
    if times.len() > 0 && expired(times[0], now, window) {
        live_window(times.drop_first(), now, window)
    } else {
        times
    }
}

/// Whether the times never go back from one entry to the next.
pub open spec fn in_time_order(times: Seq<u64>) -> bool {
    forall|i: int, j: int| 0 <= i <= j < times.len() ==> times[i] <= times[j]
}

/// Eviction keeps a tail of the window: every time that was dropped had
/// expired, and the first time that is kept has not.
pub proof fn lemma_live_window_is_tail(times: Seq<u64>, now: u64, window: u64)
    ensures
        live_window(times, now, window).len() <= times.len(),
        live_window(times, now, window) == times.skip(
            times.len() - live_window(times, now, window).len(),
        ),
        forall|i: int|
            0 <= i < times.len() - live_window(times, now, window).len() ==> expired(
                #[trigger] times[i],
                now,
                window,
            ),
        live_window(times, now, window).len() > 0 ==> !expired(
            live_window(times, now, window)[0],
            now,
            window,
        ),
    decreases times.len(),
{
    let live = live_window(times, now, window);
    if times.len() > 0 && expired(times[0], now, window) {
        let rest = times.drop_first();
        lemma_live_window_is_tail(rest, now, window);
        let dropped = times.len() - live.len();
        assert(live =~= times.skip(dropped));
        assert forall|i: int| 0 <= i < dropped implies expired(#[trigger] times[i], now, window) by {
            if i > 0 {
                assert(times[i] == rest[i - 1]);
            }
        }
    } else {
        assert(live =~= times.skip(0));
    }
}

/// Where the admission times are in time order, no time that is kept has
/// expired: the window holds exactly the admissions of the last `window`.
pub proof fn lemma_live_window_in_time_order(times: Seq<u64>, now: u64, window: u64)
    requires
        in_time_order(times),
    ensures
        in_time_order(live_window(times, now, window)),
        forall|i: int|
            0 <= i < live_window(times, now, window).len() ==> !expired(
                #[trigger] live_window(times, now, window)[i],
                now,
                window,
            ),
{
    lemma_live_window_is_tail(times, now, window);
    let live = live_window(times, now, window);
    let dropped = times.len() - live.len();
    assert forall|i: int, j: int| 0 <= i <= j < live.len() implies live[i] <= live[j] by {
        assert(live[i] == times[i + dropped]);
        assert(live[j] == times[j + dropped]);
    }
    assert forall|i: int| 0 <= i < live.len() implies !expired(#[trigger] live[i], now, window) by {
        assert(live[0] <= live[i]);
    }
}

/// Where time does not go back, admissions keep the window in time order and
/// within the limit: after an admission at `now` the window holds at most
/// `limit` times, none of them expired, with `now` as the last.
pub proof fn lemma_admission_keeps_time_order(times: Seq<u64>, now: u64, window: u64, limit: nat)
    requires
        in_time_order(times),
        times.len() > 0 ==> times.last() <= now,
        live_window(times, now, window).len() < limit,
    ensures
        in_time_order(live_window(times, now, window).push(now)),
        live_window(times, now, window).push(now).len() <= limit,
        forall|i: int|
            0 <= i < live_window(times, now, window).push(now).len() ==> !expired(
                #[trigger] live_window(times, now, window).push(now)[i],
                now,
                window,
            ),
{
    lemma_live_window_is_tail(times, now, window);
    lemma_live_window_in_time_order(times, now, window);
    let live = live_window(times, now, window);
    let dropped = times.len() - live.len();
    let admitted = live.push(now);
    assert forall|i: int, j: int| 0 <= i <= j < admitted.len() implies admitted[i]
        <= admitted[j] by {
        if i < live.len() {
            assert(live[i] == times[i + dropped]);
            assert(times[i + dropped] <= times.last());
        }
    }
    assert forall|i: int| 0 <= i < admitted.len() implies !expired(
        #[trigger] admitted[i],
        now,
        window,
    ) by {
        if i < live.len() {
            assert(admitted[i] == live[i]);
        }
    }
}

/// Sliding window rate limiter with the queue of requests that it held back.
pub struct DownloadRateLimiter {
    requests: VecDeque<u64>,
    buffered_requests: VecDeque<BufferedRequest>,
}

impl DownloadRateLimiter {
    /// The times of the admissions that are still counted, oldest first.
    pub closed spec fn window(&self) -> Seq<u64> {
        self.requests@
    }

    /// The requests that wait for admission, in the order in which they came.
    pub closed spec fn buffered(&self) -> Seq<BufferedTile> {
        self.buffered_requests@.map_values(|request: BufferedRequest| request@)
    }

    /// A limiter that has admitted nothing and holds nothing back.
    pub fn new() -> (limiter: DownloadRateLimiter)
        ensures
            limiter.window() == Seq::<u64>::empty(),
            limiter.buffered() == Seq::<BufferedTile>::empty(),
    {
        let limiter = DownloadRateLimiter {
            requests: VecDeque::new(),
            buffered_requests: VecDeque::new(),
        };
        assert(limiter.buffered() =~= Seq::<BufferedTile>::empty());
        limiter
    }

    /// The number of requests that wait for admission.
    pub fn buffered_len(&self) -> (len: usize)
        ensures
            len == self.buffered().len(),
    {
        self.buffered_requests.len()
    }

    /// The files of the tiles that wait, in the order of the queue. These are
    /// the paths to look for in storage before the queue is taken up.
    pub fn buffered_filenames(&self) -> (filenames: Vec<String>)
        ensures
            filenames@.len() == self.buffered().len(),
            forall|i: int|
                0 <= i < filenames@.len() ==> (#[trigger] filenames@[i])@
                    == self.buffered()[i].filename,
    {
        let mut filenames: Vec<String> = Vec::new();
        let mut i: usize = 0;
        while i < self.buffered_requests.len()
            invariant
                i <= self.buffered_requests.len(),
                filenames@.len() == i,
                forall|j: int|
                    0 <= j < i ==> (#[trigger] filenames@[j])@ == self.buffered()[j].filename,
            decreases self.buffered_requests.len() - i,
        {
            filenames.push(self.buffered_requests[i].filename.clone());
            i = i + 1;
        }
        filenames
    }

    /// Asks to make a request at time `now`.
    ///
    /// Admissions that have left the window are dropped from its front first.
    /// The request is admitted, and `now` recorded, when fewer than
    /// `rate_limit_requests` admissions are left; else nothing is recorded.
    pub fn can_make_request(&mut self, now: u64, settings: &SlippyTilesSettings) -> (admitted:
        bool)
        ensures
            admitted == (live_window(old(self).window(), now, settings.rate_limit_window).len()
                < settings.rate_limit_requests),
            final(self).window() == if admitted {
                live_window(old(self).window(), now, settings.rate_limit_window).push(now)
            } else {
                live_window(old(self).window(), now, settings.rate_limit_window)
            },
            final(self).buffered() == old(self).buffered(),
    {
        let window = settings.rate_limit_window;
        let mut evicting = true;
        while evicting
            invariant
                self.buffered_requests@ == old(self).buffered_requests@,
                window == settings.rate_limit_window,
                live_window(old(self).requests@, now, window) == if evicting {
                    live_window(self.requests@, now, window)
                } else {
                    self.requests@
                },
            decreases self.requests@.len() + if evicting { 1nat } else { 0nat },
        {
            let ghost before = self.requests@;
            if self.requests.len() > 0 && now > self.requests[0] && now - self.requests[0]
                > window {
                self.requests.pop_front();
                assert(self.requests@ =~= before.drop_first());
            } else {
                evicting = false;
            }
        }
        if self.requests.len() < settings.rate_limit_requests {
            self.requests.push_back(now);
            true
        } else {
            false
        }
    }

    /// Puts a request at the back of the queue of those that wait.
    pub fn buffer_request(
        &mut self,
        coords: (u32, u32),
        zoom_level: ZoomLevel,
        tile_size: TileSize,
        endpoint: String,
        filename: String,
        use_cache: bool,
    )
        ensures
            final(self).buffered() == old(self).buffered().push(
                BufferedTile {
                    key: SlippyTileDownloadTaskKey {
                        slippy_tile_coordinates: SlippyTileCoordinates { x: coords.0, y: coords.1 },
                        zoom_level,
                        tile_size,
                    },
                    endpoint: endpoint@,
                    filename: filename@,
                    use_cache,
                },
            ),
            final(self).window() == old(self).window(),
    {
        let request = BufferedRequest {
            coords,
            zoom_level,
            tile_size,
            endpoint,
            filename,
            use_cache,
        };
        self.buffered_requests.push_back(request);
        assert(self.buffered() =~= old(self).buffered().push(request@));
    }

    /// Takes the request that has waited longest out of the queue; `None`
    /// where none waits.
    pub fn next_buffered(&mut self) -> (request: Option<BufferedRequest>)
        ensures
            match request {
                Some(first) => old(self).buffered().len() > 0 && first@ == old(self).buffered()[0]
                    && final(self).buffered() == old(self).buffered().drop_first(),
                None => old(self).buffered().len() == 0 && final(self).buffered() == old(
                    self,
                ).buffered(),
            },
            final(self).window() == old(self).window(),
    {
        let request = self.buffered_requests.pop_front();
        assert(request.is_some() ==> self.buffered() =~= old(self).buffered().drop_first());
        request
    }
}

impl Default for DownloadRateLimiter {
    fn default() -> (limiter: Self)
        ensures
            limiter.window() == Seq::<u64>::empty(),
            limiter.buffered() == Seq::<BufferedTile>::empty(),
    {
        Self::new()
    }
}

/// The slots held after a slot was asked for: one more where fewer than
/// `bound` were held, else as many as before.
pub open spec fn after_acquire(active: nat, bound: nat) -> nat {
    if active < bound {
        active + 1
    } else {
        active
    }
}

/// The slots held after one was given back: one fewer, and none where none
/// was held.
pub open spec fn after_release(active: nat) -> nat {
    if active > 0 {
        (active - 1) as nat
    } else {
        0
    }
}

/// Slots are never held beyond the bound. A slot that is taken and given
/// back leaves the count as it was. And where the last free slot was taken,
/// the next one asked for is refused, until one is given back: then a slot is
/// free again.
pub proof fn lemma_slots_stay_within_bound(active: nat, bound: nat)
    ensures
        active <= bound ==> after_acquire(active, bound) <= bound,
        after_release(active) <= active,
        active < bound ==> after_release(after_acquire(active, bound)) == active,
        active < bound && after_acquire(active, bound) == bound ==> after_acquire(
            after_acquire(active, bound),
            bound,
        ) == bound && after_release(after_acquire(active, bound)) < bound,
{
}

/// The number of downloads under way. A download takes a slot only while
/// fewer than the bound are held.
#[derive(Debug)]
pub struct ActiveDownloads {
    count: usize,
}

impl ActiveDownloads {
    /// The number of downloads that hold a slot.
    pub closed spec fn active(&self) -> nat {
        self.count as nat
    }

    /// No download holds a slot.
    pub fn new() -> (slots: ActiveDownloads)
        ensures
            slots.active() == 0,
    {
        ActiveDownloads { count: 0 }
    }

    /// The number of downloads that hold a slot.
    pub fn count(&self) -> (count: usize)
        ensures
            count == self.active(),
    {
        self.count
    }

    /// Takes a slot if fewer than `bound` are held, and says whether it did.
    pub fn try_acquire(&mut self, bound: usize) -> (acquired: bool)
        ensures
            acquired == (old(self).active() < bound),
            final(self).active() == after_acquire(old(self).active(), bound as nat),
    {
        if self.count < bound {
            self.count = self.count + 1;
            true
        } else {
            false
        }
    }

    /// Gives a slot back. Where none is held, none is given back.
    pub fn release(&mut self)
        ensures
            final(self).active() == after_release(old(self).active()),
    {
        if self.count > 0 {
            self.count = self.count - 1;
        }
    }
}

impl Default for ActiveDownloads {
    fn default() -> (slots: Self)
        ensures
            slots.active() == 0,
    {
        Self::new()
    }
}

} // verus!
