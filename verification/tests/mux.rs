use rathole::mux::{
    stream_failure_text, BackoffAction, MuxPool, MuxSelect, MuxServerAction, MuxServerEvent,
    OpenAction, OpenStream, StreamFailure, TargetStep,
};
use rathole::protocol::{ControlChannelMuxResp, MuxRespKind};

fn resp(kind: MuxRespKind, max_pool: u16) -> ControlChannelMuxResp {
    ControlChannelMuxResp {
        kind,
        max_pool,
        active: 0,
    }
}

const NOTHING: TargetStep = TargetStep {
    notify: false,
    reset_backoff: false,
    request: false,
};

#[test]
fn new_pool_is_empty() {
    let pool = MuxPool::new(MuxSelect::LeastStreams, 4, 256, 0);
    assert_eq!(pool.pending(), 0);
    assert_eq!(pool.session_count(), 0);
    assert_eq!(pool.max_streams(), 256);
    assert_eq!(pool.idle_timeout(), None);
    assert_eq!(pool.next_session_id(), 1);
    let pool = MuxPool::new(MuxSelect::RoundRobin, 4, 256, 300);
    assert_eq!(pool.idle_timeout(), Some(300));
}

#[test]
fn stream_waits_until_one_is_released() {
    let mut pool = MuxPool::new(MuxSelect::LeastStreams, 1, 1, 0);
    let (id, _) = pool.add_session(0);
    let mut first: OpenStream<&str> = OpenStream::start();
    assert!(matches!(first.look(&mut pool, 1), OpenAction::Ask(i) if i == id));
    let mut second: OpenStream<&str> = OpenStream::start();
    assert!(matches!(second.look(&mut pool, 2), OpenAction::Wait));
    pool.release_stream(id, 3);
    assert!(matches!(second.look(&mut pool, 4), OpenAction::Ask(i) if i == id));
}

#[test]
fn failed_connection_is_not_asked_again() {
    let mut pool = MuxPool::new(MuxSelect::LeastStreams, 1, 1, 0);
    let (bad, _) = pool.add_session(0);
    let (good, _) = pool.add_session(0);
    let mut attempt: OpenStream<&str> = OpenStream::start();
    assert!(matches!(attempt.look(&mut pool, 1), OpenAction::Ask(i) if i == bad));
    attempt.on_failure(&mut pool, bad, "closed", 1);
    assert_eq!(pool.session(bad).unwrap().in_use, 0);
    assert!(matches!(attempt.look(&mut pool, 2), OpenAction::Ask(i) if i == good));
    assert_eq!(pool.session(good).unwrap().in_use, 1);
    // Once both have failed, the last failure ends the attempt.
    attempt.on_failure(&mut pool, good, "dropped", 3);
    assert!(matches!(attempt.look(&mut pool, 4), OpenAction::Fail("dropped")));
    assert_eq!(pool.session(bad).unwrap().in_use, 0);
    assert_eq!(pool.session(good).unwrap().in_use, 0);
}

#[test]
fn third_connection_is_asked_after_two_have_failed() {
    for select in [MuxSelect::LeastStreams, MuxSelect::RoundRobin] {
        let mut pool = MuxPool::new(select, 3, 8, 0);
        for _ in 0..3 {
            pool.add_session(0);
        }
        let mut attempt: OpenStream<&str> = OpenStream::start();
        let mut asked = Vec::new();
        for error in ["closed", "dropped"] {
            let OpenAction::Ask(id) = attempt.look(&mut pool, 1) else {
                panic!("there is a connection to ask");
            };
            assert!(!asked.contains(&id));
            asked.push(id);
            attempt.on_failure(&mut pool, id, error, 1);
        }
        let OpenAction::Ask(last) = attempt.look(&mut pool, 2) else {
            panic!("the third connection is to be asked");
        };
        asked.push(last);
        asked.sort();
        assert_eq!(asked, vec![1, 2, 3]);
        for id in 1..4 {
            assert_eq!(pool.session(id).unwrap().in_use, (id == last) as usize);
        }
    }
}

#[test]
fn connection_that_comes_meanwhile_is_asked_too() {
    let mut pool = MuxPool::new(MuxSelect::LeastStreams, 2, 1, 0);
    let (first, _) = pool.add_session(0);
    let mut attempt: OpenStream<&str> = OpenStream::start();
    assert!(matches!(attempt.look(&mut pool, 1), OpenAction::Ask(i) if i == first));
    attempt.on_failure(&mut pool, first, "closed", 1);
    let (second, _) = pool.add_session(2);
    assert!(matches!(attempt.look(&mut pool, 3), OpenAction::Ask(i) if i == second));
}

#[test]
fn sole_failed_connection_ends_the_attempt() {
    let mut pool = MuxPool::new(MuxSelect::LeastStreams, 1, 1, 0);
    let (id, _) = pool.add_session(0);
    let mut attempt: OpenStream<&str> = OpenStream::start();
    assert!(matches!(attempt.look(&mut pool, 1), OpenAction::Ask(_)));
    attempt.on_failure(&mut pool, id, "closed", 1);
    assert!(matches!(attempt.look(&mut pool, 2), OpenAction::Fail("closed")));
}

#[test]
fn failures_of_streams_are_told() {
    let mut pool = MuxPool::new(MuxSelect::LeastStreams, 1, 1, 0);
    let (id, _) = pool.add_session(0);
    for (failure, text) in [
        (StreamFailure::ChannelClosed, "mux session channel closed"),
        (StreamFailure::OpenFailed("too many".to_string()), "open mux stream failed: too many"),
        (StreamFailure::SessionDropped, "mux session dropped"),
    ] {
        let mut attempt: OpenStream<StreamFailure> = OpenStream::start();
        assert!(matches!(attempt.look(&mut pool, 1), OpenAction::Ask(i) if i == id));
        attempt.on_failure(&mut pool, id, failure, 1);
        match attempt.look(&mut pool, 2) {
            OpenAction::Fail(e) => assert_eq!(stream_failure_text(&e), text),
            other => panic!("{:?}", other),
        }
    }
}

#[test]
fn stale_requests_are_dropped() {
    let mut pool = MuxPool::new(MuxSelect::LeastStreams, 1, 1, 0);
    pool.on_mux_request_sent(0);
    assert_eq!(pool.pending(), 1);
    assert!(!pool.cleanup_stale_pending(29_999));
    assert_eq!(pool.pending(), 1);
    assert!(pool.cleanup_stale_pending(30_000));
    assert_eq!(pool.pending(), 0);
    assert!(!pool.cleanup_stale_pending(90_000));

    pool.on_mux_request_sent(0);
    pool.on_mux_request_sent(20_000);
    assert!(pool.cleanup_stale_pending(31_000));
    assert_eq!(pool.pending(), 1);
}

#[test]
fn connections_are_asked_for_one_at_a_time() {
    let mut pool = MuxPool::new(MuxSelect::LeastStreams, 2, 8, 0);
    let wanted = TargetStep { request: true, ..NOTHING };
    assert_eq!(pool.ensure_target(0), wanted);
    assert_eq!(pool.ensure_target(0), wanted);
    pool.on_mux_request_sent(0);
    assert_eq!(pool.ensure_target(1), NOTHING);
    let (id, step) = pool.add_session(2);
    assert_eq!(id, 1);
    assert_eq!(step, wanted);
    assert_eq!(pool.pending(), 0);
    pool.on_mux_request_sent(3);
    // With the one on its way there are enough.
    let enough = TargetStep { reset_backoff: true, ..NOTHING };
    assert_eq!(pool.ensure_target(4), enough);
    let (id, step) = pool.add_session(5);
    assert_eq!((id, step), (2, enough));
    assert_eq!(pool.calc_effective_and_target(2), (2, 2, 0));

    // A lost request is made again.
    let (gone, step) = pool.on_session_end(1, 6);
    assert!(gone);
    assert_eq!(step, wanted);
    pool.on_mux_request_sent(10);
    let step = pool.ensure_target(40_000);
    assert_eq!(step, TargetStep { notify: true, ..wanted });
    assert_eq!(pool.on_session_end(1, 40_000), (false, wanted));
}

#[test]
fn client_bounds_the_pool() {
    let mut pool = MuxPool::new(MuxSelect::LeastStreams, 4, 8, 0);
    pool.on_mux_request_sent(0);
    assert!(!pool.on_mux_resp(resp(MuxRespKind::Accepted, 1)));
    assert_eq!(pool.pending(), 1);
    let (_, step) = pool.add_session(1);
    assert!(!step.request);
    assert_eq!(pool.calc_effective_and_target(1), (1, 1, 0));

    pool.on_mux_request_sent(2);
    assert!(pool.on_mux_resp(resp(MuxRespKind::Rejected, 2)));
    assert_eq!(pool.pending(), 0);
    assert!(pool.ensure_target(3).request);
    assert!(!pool.on_mux_resp(resp(MuxRespKind::Failed, u16::MAX)));
    assert_eq!(pool.calc_effective_and_target(1), (1, 4, 0));
    assert_eq!(pool.calc_effective_and_target(usize::MAX).0, usize::MAX);
}

#[test]
fn delay_comes_before_the_request() {
    let mut pool = MuxPool::new(MuxSelect::LeastStreams, 1, 1, 0);
    assert_eq!(pool.ensure_target_with_backoff(0, false).1, BackoffAction::Delay);
    assert_eq!(pool.ensure_target_with_backoff(1, true).1, BackoffAction::Request);
    pool.on_mux_request_sent(2);
    assert_eq!(pool.ensure_target_with_backoff(3, true).1, BackoffAction::Nothing);
}

#[test]
fn least_streams_takes_the_first_of_the_least_loaded() {
    let mut pool = MuxPool::new(MuxSelect::LeastStreams, 3, 2, 0);
    for _ in 0..3 {
        pool.add_session(0);
    }
    assert_eq!(pool.acquire_stream(&[], 1), Some(1));
    assert_eq!(pool.acquire_stream(&[], 1), Some(2));
    assert_eq!(pool.acquire_stream(&[3], 1), Some(1));
    assert_eq!(pool.acquire_stream(&[], 1), Some(3));
    assert_eq!(pool.acquire_stream(&[], 1), Some(2));
    assert_eq!(pool.acquire_stream(&[3], 1), None);
    assert_eq!(pool.acquire_stream(&[], 1), Some(3));
    assert_eq!(pool.acquire_stream(&[], 1), None);
    for id in 1..4 {
        assert_eq!(pool.session(id).unwrap().in_use, 2);
        assert_eq!(pool.session(id).unwrap().last_active_ms, 1);
    }
}

#[test]
fn round_robin_goes_round() {
    let mut pool = MuxPool::new(MuxSelect::RoundRobin, 3, 2, 0);
    assert_eq!(pool.acquire_stream(&[], 0), None);
    for _ in 0..3 {
        pool.add_session(0);
    }
    let order: Vec<_> = (0..4).map(|_| pool.acquire_stream(&[], 0)).collect();
    assert_eq!(order, vec![Some(1), Some(2), Some(3), Some(1)]);
    // The turn is that of the second; the excluded one is passed over.
    assert_eq!(pool.acquire_stream(&[2], 0), Some(3));
    // The turn is that of the third, which is full, as is the first.
    assert_eq!(pool.acquire_stream(&[], 0), Some(2));
    assert_eq!(pool.acquire_stream(&[], 0), None);
}

#[test]
fn removing_a_connection() {
    let mut pool = MuxPool::new(MuxSelect::LeastStreams, 2, 2, 0);
    pool.add_session(0);
    pool.add_session(0);
    assert!(pool.remove_session(1));
    assert!(!pool.remove_session(1));
    assert!(pool.session(1).is_none());
    assert_eq!(pool.session_count(), 1);
    // A stream of a connection that is gone is given back without effect.
    pool.release_stream(1, 5);
    assert_eq!(pool.session(2).unwrap().in_use, 0);
    assert_eq!(pool.add_session(0).0, 3);
}

#[test]
fn connections_answer_their_events() {
    let mut pool = MuxPool::new(MuxSelect::LeastStreams, 1, 2, 10);
    let (id, _) = pool.add_session(1_000);
    let mut at = |event, now| pool.on_mux_server_event(id, event, now);
    assert_eq!(at(MuxServerEvent::IdleCheck, 10_999), MuxServerAction::Continue);
    assert_eq!(at(MuxServerEvent::IdleCheck, 11_000), MuxServerAction::Close);
    assert_eq!(at(MuxServerEvent::Open, 11_000), MuxServerAction::OpenOutbound);
    assert_eq!(at(MuxServerEvent::IdleCheck, 20_999), MuxServerAction::Continue);
    assert_eq!(at(MuxServerEvent::InboundStream, 21_000), MuxServerAction::IgnoreInbound);
    assert_eq!(at(MuxServerEvent::IdleCheck, 30_999), MuxServerAction::Continue);
    for event in [
        MuxServerEvent::InboundError,
        MuxServerEvent::InboundEnd,
        MuxServerEvent::Closed,
        MuxServerEvent::Shutdown,
    ] {
        assert_eq!(at(event, 21_000), MuxServerAction::Close);
    }
    // A connection that carries a stream is not idle.
    assert_eq!(pool.acquire_stream(&[], 21_000), Some(id));
    assert_eq!(
        pool.on_mux_server_event(id, MuxServerEvent::IdleCheck, 99_000),
        MuxServerAction::Continue
    );

    let mut pool = MuxPool::new(MuxSelect::LeastStreams, 1, 2, 0);
    let (id, _) = pool.add_session(0);
    assert_eq!(
        pool.on_mux_server_event(id, MuxServerEvent::IdleCheck, u64::MAX),
        MuxServerAction::Continue
    );
    assert!(!pool.session(id).unwrap().idle_for(0, u64::MAX));
}
