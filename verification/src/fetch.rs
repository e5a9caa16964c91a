//! The transfer of one tile, as a state machine.
//!
//! A transfer requests the tile, stores what it got, and tries again when
//! either fails, up to a bound on the number of attempts. The requests and the
//! writes are done by the caller: it performs the action that the machine
//! returns and hands back what came of it as the next event.
use vstd::prelude::*;
use crate::download::SlippyTileDownloadTaskResult;

verus! {

/// Where a transfer stands.
#[derive(Debug, Clone, Copy, PartialEq, Eq, Structural)]
pub enum FetchPhase {
    /// A request for the tile is under way.
    Requesting,
    /// The tile has arrived and is being written to storage.
    Storing,
    /// The transfer has ended.
    Done,
}

/// What came of the action that a transfer asked for.
#[derive(Debug, Clone, Copy, PartialEq, Eq, Structural)]
pub enum FetchEvent {
    /// The server answered with this HTTP status.
    Response { status: u16 },
    /// The request failed before any answer arrived.
    TransportFailed,
    /// The tile has been written and its file closed.
    Stored,
    /// Writing the tile failed.
    StoreFailed,
}

/// What a transfer asks its caller to do next.
#[derive(Debug, Clone, Copy, PartialEq, Eq, Structural)]
pub enum FetchAction {
    /// Request the tile from its URL.
    Get,
    /// Write the body of the answer to the tile's path and close the file.
    Store,
    /// The transfer has ended, with the tile stored or with the attempts used
    /// up: report its result, on which its slot is given back.
    Finish { succeeded: bool },
    /// Nothing: the event was not one that the transfer waits for.
    Wait,
}

/// The HTTP status with which a server hands out a tile.
pub const HTTP_OK: u16 = 200;

/// The request that asks a tile server for a tile.
#[derive(Debug)]
pub struct TileRequest {
    pub method: String,
    pub url: String,
    pub headers: Vec<(String, String)>,
}

/// A header of a request as a plain value: its name and its value.
pub type HeaderText = (Seq<char>, Seq<char>);

/// The headers of a list as plain values.
pub open spec fn header_texts(headers: Seq<(String, String)>) -> Seq<HeaderText> {
    headers.map_values(|header: (String, String)| (header.0@, header.1@))
}

/// The headers that go with every request for a tile: who asks, with the
/// address at which the project is found, and that a PNG image is wanted.
pub open spec fn tile_request_headers() -> Seq<HeaderText> {
    seq![("User-Agent"@, "bevy_slippy_tiles/0.7.0 (https://github.com/edouardpoitras/bevy_slippy_tiles)"@), ("Accept"@, "image/png"@)]
}

/// A transfer as a plain value: the attempts that failed, the bound on the
/// attempts and the phase.
pub struct FetchState {
    pub retries: nat,
    pub max_retries: nat,
    pub phase: FetchPhase,
}

impl FetchState {
    /// While a transfer has not ended, fewer attempts have failed than are
    /// allowed.
    pub open spec fn valid(self) -> bool {
        self.phase != FetchPhase::Done ==> self.retries < self.max_retries
    }

    /// The transfer after one more failed attempt, with the action that
    /// follows: another request, or the end where no attempt is left.
    pub open spec fn after_failure(self) -> (FetchState, FetchAction) {
        if self.retries + 1 >= self.max_retries {
            (
                FetchState { retries: self.retries + 1, phase: FetchPhase::Done, ..self },
                FetchAction::Finish { succeeded: false },
            )
        } else {
            (
                FetchState { retries: self.retries + 1, phase: FetchPhase::Requesting, ..self },
                FetchAction::Get,
            )
        }
    }

    /// The number of requests that the transfer may still ask for.
    pub open spec fn requests_left(self) -> nat {
        if self.phase == FetchPhase::Done || self.retries + 1 >= self.max_retries {
            0
        } else {
            (self.max_retries - self.retries - 1) as nat
        }
    }
}

/// A new transfer with the action it starts with: the first request, or the
/// end at once where not one attempt is allowed.
pub open spec fn fetch_start(max_retries: nat) -> (FetchState, FetchAction) {
    if max_retries == 0 {
        (
            FetchState { retries: 0, max_retries, phase: FetchPhase::Done },
            FetchAction::Finish { succeeded: false },
        )
    } else {
        (FetchState { retries: 0, max_retries, phase: FetchPhase::Requesting }, FetchAction::Get)
    }
}

/// One step of a transfer: the state after the event and the action that the
/// event calls for.
///
/// While requesting, status 200 leads to storing, and any other answer or a
/// failed request counts as a failed attempt. While storing, a written tile
/// ends the transfer with success, and a failed write counts as a failed
/// attempt. An event that the phase does not wait for changes nothing.
pub open spec fn fetch_step(state: FetchState, event: FetchEvent) -> (FetchState, FetchAction) {
    match (state.phase, event) {
        (FetchPhase::Requesting, FetchEvent::Response { status }) => if status == HTTP_OK {
            (FetchState { phase: FetchPhase::Storing, ..state }, FetchAction::Store)
        } else {
            state.after_failure()
        },
        (FetchPhase::Requesting, FetchEvent::TransportFailed) => state.after_failure(),
        (FetchPhase::Storing, FetchEvent::Stored) => (
            FetchState { phase: FetchPhase::Done, ..state },
            FetchAction::Finish { succeeded: true },
        ),
        (FetchPhase::Storing, FetchEvent::StoreFailed) => state.after_failure(),
        _ => (state, FetchAction::Wait),
    }
}

/// A transfer run over a sequence of events: the state at the end and the
/// actions it asked for, one for each event.
pub open spec fn fetch_run(state: FetchState, events: Seq<FetchEvent>) -> (
    FetchState,
    Seq<FetchAction>,
)
    decreases events.len(),
{
    if events.len() == 0 {
        (state, Seq::empty())
    } else {
        let (next, action) = fetch_step(state, events[0]);
        let (last, actions) = fetch_run(next, events.drop_first());
        (last, seq![action] + actions)
    }
}

/// The number of requests among the actions.
pub open spec fn requests_in(actions: Seq<FetchAction>) -> nat
    decreases actions.len(),
{
    if actions.len() == 0 {
        0
    } else {
        (if actions[0] == FetchAction::Get {
            1nat
        } else {
            0nat
        }) + requests_in(actions.drop_first())
    }
}

/// The number of times the actions end the transfer.
pub open spec fn finishes_in(actions: Seq<FetchAction>) -> nat
    decreases actions.len(),
{
    if actions.len() == 0 {
        0
    } else {
        (if actions[0] is Finish {
            1nat
        } else {
            0nat
        }) + finishes_in(actions.drop_first())
    }
}

/// Whatever the events, a transfer asks for no more requests than it has
/// attempts left, ends at most once, and once ended stays so.
pub proof fn lemma_fetch_run_is_bounded(state: FetchState, events: Seq<FetchEvent>)
    requires
        state.valid(),
    ensures
        fetch_run(state, events).0.valid(),
        fetch_run(state, events).0.max_retries == state.max_retries,
        fetch_run(state, events).1.len() == events.len(),
        requests_in(fetch_run(state, events).1) <= state.requests_left(),
        finishes_in(fetch_run(state, events).1) <= if state.phase == FetchPhase::Done {
            0nat
        } else {
            1nat
        },
        finishes_in(fetch_run(state, events).1) == 1 <==> state.phase != FetchPhase::Done
            && fetch_run(state, events).0.phase == FetchPhase::Done,
        state.phase == FetchPhase::Done ==> fetch_run(state, events).0 == state,
    decreases events.len(),
{
    if events.len() > 0 {
        let (next, action) = fetch_step(state, events[0]);
        let (last, actions) = fetch_run(next, events.drop_first());
        lemma_fetch_run_is_bounded(next, events.drop_first());
        assert((seq![action] + actions).drop_first() =~= actions);
        assert((seq![action] + actions)[0] == action);
    }
}

/// From its start to its end a transfer makes at most `max_retries` requests,
/// the first one included.
pub proof fn lemma_fetch_attempts_are_bounded(max_retries: nat, events: Seq<FetchEvent>)
    ensures
        requests_in(seq![fetch_start(max_retries).1] + fetch_run(fetch_start(max_retries).0, events).1)
            <= max_retries,
        finishes_in(seq![fetch_start(max_retries).1] + fetch_run(fetch_start(max_retries).0, events).1)
            <= 1,
{
    let (state, first) = fetch_start(max_retries);
    let actions = fetch_run(state, events).1;
    lemma_fetch_run_is_bounded(state, events);
    assert((seq![first] + actions).drop_first() =~= actions);
    assert((seq![first] + actions)[0] == first);
}

/// The transfer of one tile from a URL to a path, with its attempts counted.
#[derive(Debug)]
pub struct TileFetch {
    url: String,
    path: String,
    retries: u32,
    max_retries: u32,
    phase: FetchPhase,
}

impl View for TileFetch {
    type V = FetchState;

    closed spec fn view(&self) -> FetchState {
        FetchState {
            retries: self.retries as nat,
            max_retries: self.max_retries as nat,
            phase: self.phase,
        }
    }
}

impl TileFetch {
    #[verifier::type_invariant]
    spec fn attempts_left_while_running(self) -> bool {
        self.phase != FetchPhase::Done ==> self.retries < self.max_retries
    }

    /// The URL that the tile is requested from.
    pub closed spec fn spec_url(&self) -> Seq<char> {
        self.url@
    }

    /// The path that the tile is stored under.
    pub closed spec fn spec_path(&self) -> Seq<char> {
        self.path@
    }

    /// Starts a transfer. The action returned with it is the first request, or
    /// the end at once where `max_retries` is 0.
    pub fn new(url: String, path: String, max_retries: u32) -> (started: (TileFetch, FetchAction))
        ensures
            (started.0@, started.1) == fetch_start(max_retries as nat),
            started.0@.valid(),
            started.0.spec_url() == url@,
            started.0.spec_path() == path@,
    {
        if max_retries == 0 {
            (
                TileFetch { url, path, retries: 0, max_retries, phase: FetchPhase::Done },
                FetchAction::Finish { succeeded: false },
            )
        } else {
            (
                TileFetch { url, path, retries: 0, max_retries, phase: FetchPhase::Requesting },
                FetchAction::Get,
            )
        }
    }

    /// The URL that the tile is requested from.
    pub fn url(&self) -> (url: &String)
        ensures
            url@ == self.spec_url(),
    {
        &self.url
    }

    /// The path that the tile is stored under.
    pub fn path(&self) -> (path: &String)
        ensures
            path@ == self.spec_path(),
    {
        &self.path
    }

    /// The request to make when the transfer asks for a `Get`: a GET of the
    /// tile's URL that says who asks and accepts a PNG image.
    pub fn request(&self) -> (request: TileRequest)
        ensures
            request.method@ == "GET"@,
            request.url@ == self.spec_url(),
            header_texts(request.headers@) == tile_request_headers(),
    {
        let mut headers: Vec<(String, String)> = Vec::new();
        headers.push((String::from_str("User-Agent"), String::from_str("bevy_slippy_tiles/0.7.0 (https://github.com/edouardpoitras/bevy_slippy_tiles)")));
        headers.push((String::from_str("Accept"), String::from_str("image/png")));
        assert(header_texts(headers@) =~= tile_request_headers());
        TileRequest { method: String::from_str("GET"), url: self.url.clone(), headers }
    }

    /// Whether the transfer has ended.
    pub fn is_done(&self) -> (done: bool)
        ensures
            done == (self@.phase == FetchPhase::Done),
            self@.valid(),
    {
        proof {
            use_type_invariant(self);
        }
        self.phase == FetchPhase::Done
    }

    /// Counts one more failed attempt and says what follows.
    fn fail(&mut self) -> (action: FetchAction)
        requires
            old(self).phase != FetchPhase::Done,
        ensures
            (final(self)@, action) == old(self)@.after_failure(),
            final(self).url == old(self).url,
            final(self).path == old(self).path,
    {
        proof {
            use_type_invariant(&*self);
        }
        if self.retries + 1 >= self.max_retries {
            self.phase = FetchPhase::Done;
            self.retries = self.retries + 1;
            FetchAction::Finish { succeeded: false }
        } else {
            self.phase = FetchPhase::Requesting;
            self.retries = self.retries + 1;
            FetchAction::Get
        }
    }

    /// Takes what came of the last action and says what to do next.
    pub fn next(&mut self, event: FetchEvent) -> (action: FetchAction)
        ensures
            (final(self)@, action) == fetch_step(old(self)@, event),
            final(self)@.valid(),
            final(self).spec_url() == old(self).spec_url(),
            final(self).spec_path() == old(self).spec_path(),
    {
        proof {
            use_type_invariant(&*self);
        }
        match self.phase {
            FetchPhase::Requesting => match event {
                FetchEvent::Response { status } => {
                    if status == HTTP_OK {
                        self.phase = FetchPhase::Storing;
                        FetchAction::Store
                    } else {
                        self.fail()
                    }
                },
                FetchEvent::TransportFailed => self.fail(),
                _ => FetchAction::Wait,
            },
            FetchPhase::Storing => match event {
                FetchEvent::Stored => {
                    self.phase = FetchPhase::Done;
                    FetchAction::Finish { succeeded: true }
                },
                FetchEvent::StoreFailed => self.fail(),
                _ => FetchAction::Wait,
            },
            FetchPhase::Done => FetchAction::Wait,
        }
    }

    /// What the transfer reports when it has ended: the path of the tile,
    /// whether the tile arrived or the attempts ran out.
    pub fn result(&self) -> (result: SlippyTileDownloadTaskResult)
        ensures
            result.path@ == self.spec_path(),
    {
        SlippyTileDownloadTaskResult { path: self.path.clone() }
    }
}

} // verus!
