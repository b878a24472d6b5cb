use moq::error::Error;
use moq::ietf::Version as Ietf;
use moq::path::Path;
use moq::reconnect::{begin_reconnect, drained, finish_reconnect, Farewell, ReconnectOptions, Retry};
use moq::session::{sourced_paths_new, GoawayReceived, Session, Version};
use moq::time::Duration;

fn session(origin: Option<u64>) -> Session {
    let mut s = Session::new(1, Version::Ietf(Ietf::Draft17), None, false);
    if let Some(origin) = origin {
        let mut sourced = sourced_paths_new();
        sourced.insert(Path::new("live/cam"));
        s.attach_subscriber_state(sourced, origin);
    }
    s
}

fn replacement(origin: Option<u64>) -> Session {
    let mut s = session(origin);
    s.id = 2;
    s
}

fn told(origin: Option<u64>, uri: &str, timeout: Option<Duration>) -> Session {
    let mut s = session(origin);
    s.goaway_received = Some(GoawayReceived::new(uri.to_string(), timeout));
    s
}

#[test]
fn without_a_goaway_it_is_too_early() {
    let res = begin_reconnect(&session(None), &ReconnectOptions::new());
    assert!(matches!(res, Err(Error::NotReady)));
}

#[test]
fn the_timeout_on_the_goaway_wins() {
    let options = ReconnectOptions::new().with_drain_timeout(Duration::from_millis(9));
    let s = told(Some(1), "u", Some(Duration::from_millis(5)));
    assert_eq!(begin_reconnect(&s, &options).unwrap().drain, Some(Duration::from_millis(5)));
    let s = told(Some(1), "u", None);
    assert_eq!(begin_reconnect(&s, &options).unwrap().drain, Some(Duration::from_millis(9)));
}

#[test]
fn what_makes_a_handoff_seamless() {
    let options = ReconnectOptions::new().with_drain_timeout(Duration::from_millis(9));
    let seamless = begin_reconnect(&told(Some(1), "u", None), &options).unwrap();
    assert_eq!(seamless.failover.unwrap()[0].as_str(), "live/cam");
    assert!(begin_reconnect(&told(Some(1), "", None), &options).unwrap().failover.is_none());
    assert!(begin_reconnect(&told(None, "u", None), &options).unwrap().failover.is_none());
    let plain = ReconnectOptions::default();
    assert!(begin_reconnect(&told(Some(1), "u", None), &plain).unwrap().failover.is_none());
}

#[test]
fn retries_back_off() {
    let options = ReconnectOptions::new().with_max_retries(3);
    let mut retries = begin_reconnect(&told(None, "", None), &options).unwrap().retries;
    for expected in [100, 200, 400] {
        match retries.failed(Error::Timeout) {
            Retry::After(delay) => assert_eq!(delay.as_millis(), expected),
            Retry::Fail(_) => panic!("too early"),
        }
    }
    assert!(matches!(retries.failed(Error::Unroutable), Retry::Fail(Error::Unroutable)));
}

#[test]
fn one_attempt_by_default() {
    let mut retries = begin_reconnect(&told(None, "", None), &ReconnectOptions::new()).unwrap().retries;
    assert!(matches!(retries.failed(Error::Timeout), Retry::Fail(Error::Timeout)));
}

#[test]
fn a_plain_handoff_closes_the_old_session() {
    let mut s = told(None, "", None);
    let mut other = replacement(Some(9));
    let handoff = begin_reconnect(&s, &ReconnectOptions::new()).unwrap();
    let handed = finish_reconnect(&mut s, handoff, &mut other).unwrap();
    assert_eq!((s.id, s.origin), (2, Some(9)));
    assert_eq!((handed.ret.id, handed.ret.origin), (2, Some(9)));
    assert_eq!(other.id, 1);
    assert!(other.closed && !s.closed);
    match handed.farewell {
        Farewell::Close(Some(close)) => assert_eq!((close.code, close.reason.as_str()), (0, "cancelled")),
        _ => panic!("must close"),
    }
}

#[test]
fn a_seamless_handoff_drains_the_old_session() {
    let mut s = told(Some(1), "moqt://b", Some(Duration::from_millis(250)));
    let mut other = replacement(Some(1));
    let handoff = begin_reconnect(&s, &ReconnectOptions::new()).unwrap();
    let handed = finish_reconnect(&mut s, handoff, &mut other).unwrap();
    assert_eq!((s.id, s.origin), (2, Some(1)));
    assert_eq!(handed.ret.id, 2);
    match handed.farewell {
        Farewell::Drain { timeout, ref successors, origin } => {
            assert_eq!(timeout, Duration::from_millis(250));
            assert_eq!(successors[0].as_str(), "live/cam");
            assert_eq!(origin, 1);
        }
        _ => panic!("must drain"),
    }
    assert_eq!(other.id, 1);
    assert!(drained(&mut other, false).is_none());
    assert_eq!(drained(&mut other, true).unwrap().code, 32);
    assert!(other.closed);
}

#[test]
fn a_seamless_handoff_needs_the_origin() {
    for (origin, said) in [(None, "no origin"), (Some(2), "another origin")] {
        let mut s = told(Some(1), "moqt://b", Some(Duration::from_millis(250)));
        let mut other = replacement(origin);
        let handoff = begin_reconnect(&s, &ReconnectOptions::new()).unwrap();
        let res = finish_reconnect(&mut s, handoff, &mut other);
        assert!(matches!(res, Err(Error::Transport(m)) if m.contains(said)));
        assert_eq!((s.id, s.origin), (1, Some(1)));
        assert_eq!((other.id, other.origin), (2, origin));
        assert!(!s.closed && !other.closed);
    }
}
