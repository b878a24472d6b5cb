use moq::coding::{DecodeError, EncodeError, Reader};
use moq::lite::goaway::Goaway;
use moq::lite::Version;

#[test]
fn roundtrip_with_uri() {
    let msg = Goaway {
        uri: "https://relay.example/new".to_string(),
    };
    let mut buf = Vec::new();
    msg.encode_msg(&mut buf, Version::Lite04).unwrap();

    let decoded = Goaway::decode_msg(&mut Reader::new(&buf), Version::Lite04).unwrap();
    assert_eq!(decoded.uri, "https://relay.example/new");
}

#[test]
fn roundtrip_empty() {
    let msg = Goaway { uri: "".to_string() };
    let mut buf = Vec::new();
    msg.encode_msg(&mut buf, Version::Lite04).unwrap();

    let decoded = Goaway::decode_msg(&mut Reader::new(&buf), Version::Lite04).unwrap();
    assert_eq!(decoded.uri, "");
}

#[test]
fn rejected_before_lite04() {
    let msg = Goaway {
        uri: "https://relay.example/new".to_string(),
    };
    let mut buf = Vec::new();

    // Encoding should fail on Lite03.
    assert!(msg.encode_msg(&mut buf, Version::Lite03).is_err());

    // Even if we have valid bytes, decoding on Lite03 should fail.
    let mut encode_buf = Vec::new();
    msg.encode_msg(&mut encode_buf, Version::Lite04).unwrap();
    assert!(Goaway::decode_msg(&mut Reader::new(&encode_buf), Version::Lite03).is_err());
}

#[test]
fn lite_goaway_bytes() {
    let msg = Goaway { uri: "ab".to_string() };
    let mut buf = vec![9];
    msg.encode_msg(&mut buf, Version::Lite05).unwrap();
    assert_eq!(buf, vec![9, 2, b'a', b'b']);
    let mut buf = vec![9];
    assert_eq!(msg.encode_msg(&mut buf, Version::Lite01).unwrap_err(), EncodeError::Version);
    assert_eq!(buf, vec![9]);
    assert_eq!(
        Goaway::decode_msg(&mut Reader::new(&[2, b'a', b'b']), Version::Lite02).unwrap_err(),
        DecodeError::Version
    );
    assert_eq!(
        Goaway::decode_msg(&mut Reader::new(&[1, 0xff]), Version::Lite04).unwrap_err(),
        DecodeError::InvalidString
    );
}
