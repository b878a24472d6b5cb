use moq::coding::{BoundsExceeded, DecodeError, EncodeError};
use moq::error::Error;

#[test]
fn codes_come_back() {
    for code in 0..=33 {
        assert_eq!(Error::from_code(code).to_code(), code);
    }
    assert_eq!(Error::from_code(64 + 500).to_code(), 564);
}

#[test]
fn each_known_code_is_its_error() {
    assert!(matches!(Error::from_code(0), Error::Cancel));
    assert!(matches!(Error::from_code(1), Error::RequiredExtension));
    assert!(matches!(Error::from_code(2), Error::Old));
    assert!(matches!(Error::from_code(3), Error::Timeout));
    assert!(matches!(Error::from_code(6), Error::Unauthorized));
    assert!(matches!(Error::from_code(9), Error::Version));
    assert!(matches!(Error::from_code(10), Error::UnexpectedStream));
    assert!(matches!(Error::from_code(11), Error::BoundsExceeded(_)));
    assert!(matches!(Error::from_code(12), Error::Duplicate));
    assert!(matches!(Error::from_code(13), Error::NotFound));
    assert!(matches!(Error::from_code(15), Error::ProtocolViolation));
    assert!(matches!(Error::from_code(30), Error::Unroutable));
    assert!(matches!(Error::from_code(31), Error::GoingAway));
    assert!(matches!(Error::from_code(32), Error::GoawayTimeout));
    assert!(matches!(Error::from_code(33), Error::NotReady));
}

#[test]
fn detail_that_is_not_on_the_wire_becomes_remote() {
    for code in [4, 5, 18, 21, 7, 28, 63] {
        assert!(matches!(Error::from_code(code), Error::Remote(c) if c == code));
    }
    assert_eq!(Error::Transport("x".to_string()).to_code(), 4);
    assert_eq!(Error::Decode(DecodeError::Short).to_code(), 5);
    assert_eq!(Error::Encode(EncodeError::Version).to_code(), 18);
    assert_eq!(Error::UnknownAlpn("h3".to_string()).to_code(), 21);
    assert_eq!(Error::BoundsExceeded(BoundsExceeded).to_code(), 11);
}

#[test]
fn application_codes_start_at_64() {
    assert_eq!(Error::App(0).to_code(), 64);
    assert_eq!(Error::App(u16::MAX).to_code(), 65599);
    assert!(matches!(Error::from_code(64), Error::App(0)));
    assert!(matches!(Error::from_code(65599), Error::App(u16::MAX)));
    // An application code has 16 bits: what lies beyond is no such code.
    assert!(matches!(Error::from_code(65600), Error::Remote(65600)));
    assert!(matches!(Error::from_code(u32::MAX), Error::Remote(u32::MAX)));
}

#[test]
fn messages() {
    assert_eq!(Error::App(7).message(), "app code=7");
    assert_eq!(Error::Remote(40).message(), "remote error: code=40");
    assert_eq!(Error::UnknownAlpn("h3".to_string()).message(), "unknown ALPN: h3");
    assert_eq!(Error::Transport("reset".to_string()).message(), "transport: reset");
    assert_eq!(Error::GoawayTimeout.message(), "goaway timeout");
    assert_eq!(Error::Unauthorized.message(), "unauthorized");
}

#[test]
fn the_session_code_comes_before_the_stream_code() {
    let both = Error::from_transport(Some((32, "bye".to_string())), Some(13), "lost".to_string());
    assert!(matches!(both, Error::GoawayTimeout));
    let stream = Error::from_transport(None, Some(13), "lost".to_string());
    assert!(matches!(stream, Error::NotFound));
    let neither = Error::from_transport(None, None, "lost".to_string());
    assert!(matches!(neither, Error::Transport(m) if m == "lost"));
}
