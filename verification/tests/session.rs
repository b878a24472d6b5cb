use moq::coding::Reader;
use moq::error::Error;
use moq::ietf::goaway::{goaway_frame, read_frame, run_goaway, run_setup_with_goaway, GoAway};
use moq::ietf::session::{
    finish, run_dispatch, run_uni_group, run_unis, start, Handler, NamespaceStream, Start, Uni,
};
use moq::ietf::Version as Ietf;
use moq::path::Path;
use moq::session::{
    await_goaway, run_send_bandwidth, sourced_paths_new, Bandwidth, BandwidthEvent, GoawayPayload, GoawayReceived,
    GoingAwayFlag, Session, Signal, Version,
};
use moq::time::Duration;

fn session() -> Session {
    Session::new(1, Version::Ietf(Ietf::Draft17), None, false)
}

#[test]
fn drain_claim_is_single_shot_and_retryable() {
    let mut s = session();
    let drain = s.drain().expect("first claim");
    assert!(s.drain().is_none());
    drain.release(&mut s);
    let drain = s.drain().expect("claim after release");
    let draining = drain.start(&mut s, "moqt://elsewhere".to_string());
    assert!(s.drain().is_none());
    assert!(draining.timeout.is_none());
    assert_eq!(s.goaway.as_ref().unwrap().uri, "moqt://elsewhere");
    // Without a deadline the session is never force-closed.
    assert!(draining.complete(true).is_none());
}

#[test]
fn a_claim_is_good_for_its_session() {
    let mut s = session();
    let mut other = Session::new(2, Version::Ietf(Ietf::Draft17), None, false);
    let drain = s.drain().unwrap();
    let other_drain = other.drain().unwrap();
    assert_eq!((drain.session(), other_drain.session()), (1, 2));
    other_drain.release(&mut other);
    assert!(s.drain().is_none());
    assert!(other.drain().is_some());
}

#[test]
fn a_snapshot_shows_the_session() {
    let mut s = session();
    let mut sourced = sourced_paths_new();
    sourced.insert(Path::new("live"));
    s.attach_subscriber_state(sourced, 7);
    s.goaway_received = Some(GoawayReceived::new("u".to_string(), None));
    s.going_away.set();
    let snapshot = s.snapshot();
    assert_eq!((snapshot.id, snapshot.version, snapshot.origin), (1, s.version(), Some(7)));
    assert!(snapshot.going_away && !snapshot.send_bandwidth && !snapshot.recv_bandwidth);
    assert_eq!(snapshot.goaway_received.unwrap().uri, "u");
    assert_eq!(snapshot.sourced_paths[0].as_str(), "live");
    // One session going away says nothing of another.
    assert!(!session().is_going_away());
}

#[test]
fn a_missed_deadline_closes_with_goaway_timeout() {
    let mut s = session();
    let drain = s.drain().unwrap();
    let draining = drain.start_with_timeout(&mut s, String::new(), Duration::from_millis(1500));
    assert_eq!(s.goaway.as_ref().unwrap().timeout, Some(Duration { secs: 1, nanos: 500_000_000 }));
    assert!(draining.complete(false).is_none());
    let close = draining.complete(true).unwrap();
    assert_eq!(close.code, 32);
    assert_eq!(close.reason, "goaway timeout");
    assert!(matches!(Error::from_code(close.code), Error::GoawayTimeout));
}

#[test]
fn a_session_closes_once() {
    let mut s = session();
    assert_eq!(s.dropped().unwrap().code, 0);
    assert_eq!(s.dropped().unwrap().reason, "dropped");
    let close = s.close(Error::Unauthorized).unwrap();
    assert_eq!((close.code, close.reason.as_str()), (6, "unauthorized"));
    assert!(s.close(Error::Cancel).is_none());
    assert!(s.dropped().is_none());
}

#[test]
fn failover_needs_an_origin_and_paths() {
    let mut s = session();
    assert!(s.begin_failover().is_none());
    s.attach_subscriber_state(sourced_paths_new(), 7);
    assert!(s.begin_failover().is_none());
    let mut sourced = sourced_paths_new();
    assert!(sourced.insert(Path::new("a/b")));
    assert!(sourced.insert(Path::new("c")));
    // A path is there once.
    assert!(!sourced.insert(Path::new("/a//b/")));
    assert!(sourced.contains(&Path::new("c")) && !sourced.contains(&Path::new("a")));
    assert_eq!(sourced.len(), 2);
    s.attach_subscriber_state(sourced, 7);
    let paths = s.begin_failover().unwrap();
    assert_eq!(paths.len(), 2);
    assert_eq!(paths[0].as_str(), "a/b");
}

#[test]
fn bandwidth_is_known_where_it_is_estimated() {
    let s = Session::new(1, Version::Ietf(Ietf::Draft14), Some(1_000_000), true);
    assert!(s.send_bandwidth() && s.recv_bandwidth());
    assert!(!session().send_bandwidth() && !session().recv_bandwidth());
    let polling = run_send_bandwidth(Bandwidth::Idle, BandwidthEvent::Used(true));
    assert_eq!(polling, Bandwidth::Polling);
    assert_eq!(run_send_bandwidth(polling, BandwidthEvent::Tick(true)), Bandwidth::Polling);
    assert_eq!(run_send_bandwidth(polling, BandwidthEvent::Unused(true)), Bandwidth::Idle);
    assert_eq!(run_send_bandwidth(polling, BandwidthEvent::Tick(false)), Bandwidth::Stopped);
    assert_eq!(run_send_bandwidth(Bandwidth::Stopped, BandwidthEvent::Used(true)), Bandwidth::Stopped);
}

#[test]
fn a_gone_signal_is_an_empty_goaway() {
    assert!(await_goaway(Signal::Waiting).is_none());
    let gone = await_goaway(Signal::Gone).unwrap();
    assert_eq!(gone.uri, "");
    assert!(gone.timeout.is_none());
    let received = Session::goaway(Signal::Fired(GoawayReceived::new("u".to_string(), None)));
    assert_eq!(received.unwrap().unwrap().uri, "u");
    assert!(Session::goaway(Signal::Gone).unwrap().is_none());
    assert!(Session::goaway(Signal::Waiting).is_none());
}

#[test]
fn what_a_drain_sends_is_received() {
    let payload = GoawayPayload {
        uri: "https://relay.example/b".to_string(),
        timeout: Some(Duration::from_millis(5000)),
    };
    for (version, kept) in [
        (Ietf::Draft14, false),
        (Ietf::Draft16, false),
        (Ietf::Draft17, true),
        (Ietf::Draft18, true),
        (Ietf::Draft19, true),
    ] {
        let frame = goaway_frame(&payload, version).unwrap();
        assert_eq!(run_setup_with_goaway(Some(&payload), version).unwrap(), Some(frame.clone()));
        let mut signal = None;
        let mut flag = GoingAwayFlag::new();
        assert!(!flag.is_set());
        run_goaway(&mut Reader::new(&frame), version, &mut signal, &mut flag).unwrap();
        assert!(flag.is_set());
        let got = signal.unwrap();
        assert_eq!(got.uri, "https://relay.example/b");
        assert_eq!(got.timeout, if kept { Some(Duration::from_millis(5000)) } else { None });
    }
    assert!(run_setup_with_goaway(None, Ietf::Draft17).unwrap().is_none());
}

#[test]
fn the_bytes_of_a_goaway_frame() {
    let payload = GoawayPayload { uri: "ab".to_string(), timeout: Some(Duration::from_millis(5)) };
    assert_eq!(goaway_frame(&payload, Ietf::Draft17).unwrap(), vec![0x10, 0, 4, 2, b'a', b'b', 5]);
    assert_eq!(goaway_frame(&payload, Ietf::Draft14).unwrap(), vec![0x10, 0, 3, 2, b'a', b'b']);
    let (id, body) = read_frame(&mut Reader::new(&[0x10, 0, 1, 0]), Ietf::Draft14).unwrap().unwrap();
    assert_eq!((id, body), (GoAway::ID, vec![0]));
}

#[test]
fn a_goaway_that_is_too_long_is_refused() {
    let payload = GoawayPayload { uri: "x".repeat(70_000), timeout: None };
    assert!(matches!(goaway_frame(&payload, Ietf::Draft17), Err(Error::BoundsExceeded(_))));
}

#[test]
fn another_frame_is_no_goaway() {
    let mut signal = None;
    let mut flag = GoingAwayFlag::new();
    let res = run_goaway(&mut Reader::new(&[0x11, 0, 0]), Ietf::Draft17, &mut signal, &mut flag);
    assert!(matches!(res, Err(Error::UnexpectedMessage)));
    run_goaway(&mut Reader::new(&[]), Ietf::Draft17, &mut signal, &mut flag).unwrap();
    let res = run_goaway(&mut Reader::new(&[0x10, 0]), Ietf::Draft17, &mut signal, &mut flag);
    assert!(matches!(res, Err(Error::Decode(_))));
    assert!(signal.is_none() && !flag.is_set());
}

#[test]
fn what_each_draft_starts() {
    match start(Ietf::Draft14, false, true) {
        Start::Refuse(close) => {
            assert_eq!(close.code, 15);
            assert_eq!(close.reason, "setup stream required");
        }
        _ => panic!("must refuse"),
    }
    assert!(matches!(start(Ietf::Draft16, true, true), Start::Control { namespace: Some(NamespaceStream::Native) }));
    assert!(matches!(start(Ietf::Draft15, true, true), Start::Control { namespace: Some(NamespaceStream::Session) }));
    assert!(matches!(start(Ietf::Draft15, true, false), Start::Control { namespace: None }));
    assert!(matches!(start(Ietf::Draft19, false, true), Start::Streams { namespace: Some(NamespaceStream::Session) }));
}

#[test]
fn how_a_session_ends() {
    assert_eq!(finish(Ok(())).code, 0);
    assert_eq!(finish(Err(Error::Transport("x".to_string()))).code, 1);
    let close = finish(Err(Error::Duplicate));
    assert_eq!((close.code, close.reason.as_str()), (12, "duplicate"));
}

#[test]
fn where_streams_go() {
    assert!(matches!(run_unis(0x2f00), Ok(Uni::Setup)));
    for kind in [0x10, 0x1d, 0x30, 0x3d, 0x50, 0x7d] {
        assert!(matches!(run_unis(kind), Ok(Uni::Group)));
    }
    assert!(matches!(run_uni_group(0x05), Err(Error::Unsupported)));
    assert!(matches!(run_uni_group(0x2f00), Err(Error::UnexpectedStream)));
    assert!(matches!(run_uni_group(0x90), Err(Error::UnexpectedStream)));
    assert!(matches!(run_uni_group(0x110), Err(Error::UnexpectedStream)));
    for id in [0x03, 0x16, 0x50, 0x11, 0x0d] {
        assert!(matches!(run_dispatch(id), Ok(Handler::Publisher)));
    }
    for id in [0x1d, 0x06] {
        assert!(matches!(run_dispatch(id), Ok(Handler::Subscriber)));
    }
    assert!(matches!(run_dispatch(0x99), Err(Error::UnexpectedStream)));
}
