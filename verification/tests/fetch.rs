use bevy_slippy_tiles::{FetchAction, FetchEvent, TileFetch};

fn start(max_retries: u32) -> (TileFetch, FetchAction) {
    TileFetch::new("url".into(), "path".into(), max_retries)
}

#[test]
fn fetch_succeeds_on_first_attempt() {
    let (mut fetch, first) = start(3);
    assert_eq!(first, FetchAction::Get);
    assert_eq!(fetch.url(), "url");
    assert_eq!(fetch.path(), "path");
    assert!(!fetch.is_done());
    assert_eq!(fetch.next(FetchEvent::Response { status: 200 }), FetchAction::Store);
    assert!(!fetch.is_done());
    assert_eq!(fetch.next(FetchEvent::Stored), FetchAction::Finish { succeeded: true });
    assert!(fetch.is_done());
    assert_eq!(fetch.result().path, "path");
}

#[test]
fn fetch_gives_up_after_max_retries_attempts() {
    let (mut fetch, first) = start(3);
    assert_eq!(first, FetchAction::Get);
    assert_eq!(fetch.next(FetchEvent::TransportFailed), FetchAction::Get);
    assert_eq!(fetch.next(FetchEvent::Response { status: 404 }), FetchAction::Get);
    assert_eq!(
        fetch.next(FetchEvent::Response { status: 500 }),
        FetchAction::Finish { succeeded: false }
    );
    assert!(fetch.is_done());
    // The result carries the path all the same.
    assert_eq!(fetch.result().path, "path");
}

#[test]
fn fetch_counts_failed_writes_as_attempts() {
    let (mut fetch, _) = start(2);
    assert_eq!(fetch.next(FetchEvent::Response { status: 200 }), FetchAction::Store);
    assert_eq!(fetch.next(FetchEvent::StoreFailed), FetchAction::Get);
    assert_eq!(fetch.next(FetchEvent::Response { status: 200 }), FetchAction::Store);
    assert_eq!(fetch.next(FetchEvent::StoreFailed), FetchAction::Finish { succeeded: false });
    assert!(fetch.is_done());
}

#[test]
fn fetch_recovers_after_failures() {
    let (mut fetch, _) = start(3);
    assert_eq!(fetch.next(FetchEvent::Response { status: 503 }), FetchAction::Get);
    assert_eq!(fetch.next(FetchEvent::TransportFailed), FetchAction::Get);
    assert_eq!(fetch.next(FetchEvent::Response { status: 200 }), FetchAction::Store);
    assert_eq!(fetch.next(FetchEvent::Stored), FetchAction::Finish { succeeded: true });
}

#[test]
fn fetch_without_attempts_ends_at_once() {
    let (mut fetch, first) = start(0);
    assert_eq!(first, FetchAction::Finish { succeeded: false });
    assert!(fetch.is_done());
    assert_eq!(fetch.next(FetchEvent::Response { status: 200 }), FetchAction::Wait);
    assert_eq!(fetch.result().path, "path");
}

#[test]
fn fetch_ignores_events_it_does_not_wait_for() {
    let (mut fetch, _) = start(1);
    assert_eq!(fetch.next(FetchEvent::Stored), FetchAction::Wait);
    assert_eq!(fetch.next(FetchEvent::StoreFailed), FetchAction::Wait);
    assert_eq!(fetch.next(FetchEvent::Response { status: 200 }), FetchAction::Store);
    assert_eq!(fetch.next(FetchEvent::Response { status: 200 }), FetchAction::Wait);
    assert_eq!(fetch.next(FetchEvent::TransportFailed), FetchAction::Wait);
    assert_eq!(fetch.next(FetchEvent::Stored), FetchAction::Finish { succeeded: true });
    assert_eq!(fetch.next(FetchEvent::Stored), FetchAction::Wait);
    assert_eq!(fetch.next(FetchEvent::TransportFailed), FetchAction::Wait);
}

#[test]
fn fetch_only_status_200_is_success() {
    for status in [0u16, 199, 201, 204, 301, 404, 500, u16::MAX] {
        let (mut fetch, _) = start(1);
        assert_eq!(
            fetch.next(FetchEvent::Response { status }),
            FetchAction::Finish { succeeded: false }
        );
    }
}

#[test]
fn fetch_request_is_a_get_for_a_png() {
    let (fetch, _) = TileFetch::new("https://tiles.example/1/2/3.png".into(), "path".into(), 3);
    let request = fetch.request();
    assert_eq!(request.method, "GET");
    assert_eq!(request.url, "https://tiles.example/1/2/3.png");
    assert_eq!(
        request.headers,
        vec![
            (
                "User-Agent".to_string(),
                "bevy_slippy_tiles/0.7.0 (https://github.com/edouardpoitras/bevy_slippy_tiles)"
                    .to_string(),
            ),
            ("Accept".to_string(), "image/png".to_string()),
        ]
    );
}
