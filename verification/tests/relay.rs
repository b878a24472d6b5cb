use moq::error::Error;
use moq::relay::{
    admission, auth_source, limits, Admission, AuthSource, Connection, Event, Serve, Signal, Stage,
    Step, Tier, Token,
};
use moq::time::Duration;

fn token(publish: bool, subscribe: bool) -> Token {
    Token { internal: false, expires: None, publish, subscribe }
}

fn conn() -> Connection {
    Connection::new(3, Duration::from_millis(10_000))
}

#[test]
fn defaults() {
    let l = limits(None, Some(7), None);
    assert_eq!((l.client_max_streams, l.server_max_streams), (10_000, 7));
    assert_eq!(l.drain_timeout, Duration { secs: 10, nanos: 0 });
    assert_eq!(limits(None, None, Some(3)).drain_timeout.secs, 3);
}

#[test]
fn somebody_must_be_able_to_authenticate() {
    assert_eq!(admission(false, false), Admission::Tokens);
    assert_eq!(admission(true, true), Admission::OnlyMtls);
    assert_eq!(admission(true, false), Admission::Nobody);
}

#[test]
fn what_authenticates() {
    assert_eq!(auth_source(true, true), AuthSource::Mtls);
    assert_eq!(auth_source(true, false), AuthSource::Url);
    assert_eq!(auth_source(false, true), AuthSource::Setup);
    assert_eq!(token(true, true).with_certificate(Some(5)).expires, Some(5));
}

#[test]
fn a_rejected_request_is_closed_with_its_status() {
    let mut c = conn();
    assert!(matches!(c.on_event(Event::Rejected(401)), Step::Reject(401)));
    assert_eq!(c.stage, Stage::Finished);
}

#[test]
fn no_access_is_forbidden() {
    let mut c = conn();
    assert!(matches!(c.on_event(Event::Admitted(token(false, false))), Step::Reject(403)));
}

#[test]
fn publish_and_subscribe_are_crossed() {
    let mut c = conn();
    let mut t = token(true, false);
    t.internal = true;
    match c.on_event(Event::Admitted(t)) {
        Step::Accept { publish, consume, tier } => {
            assert!(!publish && consume);
            assert_eq!(tier, Tier::Internal);
        }
        _ => panic!("must accept"),
    }
}

#[test]
fn a_credential_bounds_the_session() {
    let mut c = conn();
    let mut t = token(true, true);
    t.expires = Some(1_000);
    c.on_event(Event::Admitted(t));
    assert!(matches!(c.on_event(Event::Accepted(Ok(400))), Step::Serve { at_most: Some(600) }));
    assert!(matches!(c.on_event(Event::Expired), Step::CloseSession(Error::Unauthorized)));
    let mut c = conn();
    c.on_event(Event::Admitted(t));
    assert!(matches!(c.on_event(Event::Accepted(Ok(5_000))), Step::Serve { at_most: Some(0) }));
}

#[test]
fn a_shutdown_drains() {
    let mut c = conn();
    c.on_event(Event::Admitted(token(true, true)));
    assert!(matches!(c.on_event(Event::Accepted(Ok(0))), Step::Serve { at_most: None }));
    match c.on_event(Event::Shutdown(true)) {
        Step::Drain { timeout } => assert_eq!(timeout.secs, 10),
        _ => panic!("must drain"),
    }
    assert!(matches!(c.on_event(Event::Drained), Step::Done(Ok(()))));
    let mut c = conn();
    c.on_event(Event::Admitted(token(true, true)));
    c.on_event(Event::Accepted(Ok(0)));
    assert!(matches!(c.on_event(Event::Shutdown(false)), Step::Done(Ok(()))));
    let mut c = conn();
    c.on_event(Event::Admitted(token(true, true)));
    assert!(matches!(c.on_event(Event::Accepted(Err(Error::Version))), Step::Done(Err(Error::Version))));
}

#[test]
fn connections_are_numbered_until_the_first_signal() {
    let mut s = Serve::new(Duration::from_millis(1));
    assert_eq!(s.on_request(true).unwrap().id, 0);
    assert_eq!(s.on_request(true).unwrap().id, 1);
    assert_eq!(s.on_signal(), Signal::Drain);
    assert!(!s.accepting);
    assert_eq!(s.on_signal(), Signal::Exit);
    let mut s = Serve::new(Duration::from_millis(1));
    assert!(s.on_request(false).is_none());
    assert!(!s.accepting);
}
