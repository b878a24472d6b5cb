use moq::coding::{DecodeError, EncodeError, Reader};
use moq::ietf::subscribe::{
    FilterType, Subscribe, SubscribeError, SubscribeOk, SubscribeUpdate, Unsubscribe,
};
use moq::ietf::{GroupOrder, Location, RequestId, Version};
use moq::path::Path;

trait Message: Sized {
    fn write(&self, w: &mut Vec<u8>, version: Version) -> Result<(), EncodeError>;
    fn read(r: &mut Reader, version: Version) -> Result<Self, DecodeError>;
}

impl Message for Subscribe {
    fn write(&self, w: &mut Vec<u8>, version: Version) -> Result<(), EncodeError> {
        self.encode_msg(w, version)
    }

    fn read(r: &mut Reader, version: Version) -> Result<Self, DecodeError> {
        Subscribe::decode_msg(r, version)
    }
}

impl Message for SubscribeOk {
    fn write(&self, w: &mut Vec<u8>, version: Version) -> Result<(), EncodeError> {
        self.encode_msg(w, version)
    }

    fn read(r: &mut Reader, version: Version) -> Result<Self, DecodeError> {
        SubscribeOk::decode_msg(r, version)
    }
}

impl Message for SubscribeError {
    fn write(&self, w: &mut Vec<u8>, version: Version) -> Result<(), EncodeError> {
        self.encode_msg(w, version)
    }

    fn read(r: &mut Reader, version: Version) -> Result<Self, DecodeError> {
        SubscribeError::decode_msg(r, version)
    }
}

impl Message for Unsubscribe {
    fn write(&self, w: &mut Vec<u8>, version: Version) -> Result<(), EncodeError> {
        self.encode_msg(w, version)
    }

    fn read(r: &mut Reader, version: Version) -> Result<Self, DecodeError> {
        Unsubscribe::decode_msg(r, version)
    }
}

impl Message for SubscribeUpdate {
    fn write(&self, w: &mut Vec<u8>, version: Version) -> Result<(), EncodeError> {
        self.encode_msg(w, version)
    }

    fn read(r: &mut Reader, version: Version) -> Result<Self, DecodeError> {
        SubscribeUpdate::decode_msg(r, version)
    }
}

fn encode_message<M: Message>(msg: &M, version: Version) -> Vec<u8> {
    let mut buf = Vec::new();
    msg.write(&mut buf, version).unwrap();
    buf
}

fn decode_message<M: Message>(bytes: &[u8], version: Version) -> Result<M, DecodeError> {
    M::read(&mut Reader::new(bytes), version)
}

#[test]
fn test_subscribe_round_trip() {
    let msg = Subscribe {
        request_id: RequestId(1),
        track_namespace: Path::new("test"),
        track_name: "video".to_string(),
        subscriber_priority: 128,
        group_order: GroupOrder::Descending,
        filter_type: FilterType::LargestObject,
        start_location: None,
        end_group: None,
    };

    let encoded = encode_message(&msg, Version::Draft14);
    let decoded: Subscribe = decode_message(&encoded, Version::Draft14).unwrap();

    assert_eq!(decoded.request_id, RequestId(1));
    assert_eq!(decoded.track_namespace.as_str(), "test");
    assert_eq!(decoded.track_name, "video");
    assert_eq!(decoded.subscriber_priority, 128);
}

#[test]
fn test_subscribe_round_trip_v15() {
    let msg = Subscribe {
        request_id: RequestId(1),
        track_namespace: Path::new("test"),
        track_name: "video".to_string(),
        subscriber_priority: 128,
        group_order: GroupOrder::Descending,
        filter_type: FilterType::LargestObject,
        start_location: None,
        end_group: None,
    };

    let encoded = encode_message(&msg, Version::Draft15);
    let decoded: Subscribe = decode_message(&encoded, Version::Draft15).unwrap();

    assert_eq!(decoded.request_id, RequestId(1));
    assert_eq!(decoded.track_namespace.as_str(), "test");
    assert_eq!(decoded.track_name, "video");
    assert_eq!(decoded.subscriber_priority, 128);
}

#[test]
fn test_subscribe_nested_namespace() {
    let msg = Subscribe {
        request_id: RequestId(100),
        track_namespace: Path::new("conference/room123"),
        track_name: "audio".to_string(),
        subscriber_priority: 255,
        group_order: GroupOrder::Descending,
        filter_type: FilterType::LargestObject,
        start_location: None,
        end_group: None,
    };

    let encoded = encode_message(&msg, Version::Draft14);
    let decoded: Subscribe = decode_message(&encoded, Version::Draft14).unwrap();

    assert_eq!(decoded.track_namespace.as_str(), "conference/room123");
}

#[test]
fn test_subscribe_ok() {
    let msg = SubscribeOk {
        request_id: Some(RequestId(42)),
        track_alias: 42,
    };

    let encoded = encode_message(&msg, Version::Draft14);
    let decoded: SubscribeOk = decode_message(&encoded, Version::Draft14).unwrap();

    assert_eq!(decoded.request_id, Some(RequestId(42)));
}

#[test]
fn test_subscribe_ok_v15() {
    let msg = SubscribeOk {
        request_id: Some(RequestId(42)),
        track_alias: 42,
    };

    let encoded = encode_message(&msg, Version::Draft15);
    let decoded: SubscribeOk = decode_message(&encoded, Version::Draft15).unwrap();

    assert_eq!(decoded.request_id, Some(RequestId(42)));
    assert_eq!(decoded.track_alias, 42);
}

#[test]
fn test_subscribe_error() {
    let msg = SubscribeError {
        request_id: RequestId(123),
        error_code: 500,
        reason_phrase: "Not found".to_string(),
    };

    let encoded = encode_message(&msg, Version::Draft14);
    let decoded: SubscribeError = decode_message(&encoded, Version::Draft14).unwrap();

    assert_eq!(decoded.request_id, RequestId(123));
    assert_eq!(decoded.error_code, 500);
    assert_eq!(decoded.reason_phrase, "Not found");
}

#[test]
fn test_unsubscribe() {
    let msg = Unsubscribe {
        request_id: RequestId(999),
    };

    let encoded = encode_message(&msg, Version::Draft14);
    let decoded: Unsubscribe = decode_message(&encoded, Version::Draft14).unwrap();

    assert_eq!(decoded.request_id, RequestId(999));
}

#[test]
fn test_subscribe_rejects_invalid_filter_type() {
    let invalid_bytes = vec![
        0x01, // subscribe_id
        0x02, // track_alias
        0x01, // namespace length
        0x04, 0x74, 0x65, 0x73, 0x74, // "test"
        0x05, 0x76, 0x69, 0x64, 0x65, 0x6f, // "video"
        0x80, // subscriber_priority
        0x02, // group_order
        0x99, // INVALID filter_type
        0x00, // num_params
    ];

    let result: Result<Subscribe, _> = decode_message(&invalid_bytes, Version::Draft14);
    assert!(result.is_err());
}

#[test]
fn test_subscribe_update_v15_round_trip() {
    let msg = SubscribeUpdate {
        request_id: RequestId(10),
        subscription_request_id: Some(RequestId(5)),
        start_location: Location { group: 0, object: 0 },
        end_group: 0,
        subscriber_priority: 200,
        forward: true,
    };

    let encoded = encode_message(&msg, Version::Draft15);
    let decoded: SubscribeUpdate = decode_message(&encoded, Version::Draft15).unwrap();

    assert_eq!(decoded.request_id, RequestId(10));
    assert_eq!(decoded.subscription_request_id, Some(RequestId(5)));
    assert_eq!(decoded.subscriber_priority, 200);
    assert!(decoded.forward);
}

#[test]
fn test_subscribe_update_v14_round_trip() {
    let msg = SubscribeUpdate {
        request_id: RequestId(10),
        subscription_request_id: Some(RequestId(5)),
        start_location: Location { group: 1, object: 2 },
        end_group: 100,
        subscriber_priority: 200,
        forward: true,
    };

    let encoded = encode_message(&msg, Version::Draft14);
    let decoded: SubscribeUpdate = decode_message(&encoded, Version::Draft14).unwrap();

    assert_eq!(decoded.request_id, RequestId(10));
    assert_eq!(decoded.subscription_request_id, Some(RequestId(5)));
    assert_eq!(decoded.start_location, Location { group: 1, object: 2 });
    assert_eq!(decoded.end_group, 100);
    assert_eq!(decoded.subscriber_priority, 200);
    assert!(decoded.forward);
}

#[test]
fn test_subscribe_ok_rejects_non_zero_expires() {
    let invalid_bytes = vec![
        0x01, // subscribe_id
        0x05, // INVALID: expires = 5
        0x02, // group_order
        0x00, // content_exists
        0x00, // num_params
    ];

    let result: Result<SubscribeOk, _> = decode_message(&invalid_bytes, Version::Draft14);
    assert!(result.is_err());
}

#[test]
fn test_subscribe_v17_round_trip() {
    let msg = Subscribe {
        request_id: RequestId(1),
        track_namespace: Path::new("test"),
        track_name: "video".to_string(),
        subscriber_priority: 128,
        group_order: GroupOrder::Descending,
        filter_type: FilterType::LargestObject,
        start_location: None,
        end_group: None,
    };

    let encoded = encode_message(&msg, Version::Draft17);
    let decoded: Subscribe = decode_message(&encoded, Version::Draft17).unwrap();

    assert_eq!(decoded.request_id, RequestId(1));
    assert_eq!(decoded.track_namespace.as_str(), "test");
    assert_eq!(decoded.track_name, "video");
    assert_eq!(decoded.subscriber_priority, 128);
}

#[test]
fn test_subscribe_ok_v17_round_trip() {
    let msg = SubscribeOk {
        request_id: None,
        track_alias: 42,
    };

    let encoded = encode_message(&msg, Version::Draft17);
    let decoded: SubscribeOk = decode_message(&encoded, Version::Draft17).unwrap();

    assert_eq!(decoded.request_id, None);
    assert_eq!(decoded.track_alias, 42);
}

#[test]
fn test_subscribe_update_v17_round_trip() {
    let msg = SubscribeUpdate {
        request_id: RequestId(10),
        subscription_request_id: None,
        start_location: Location { group: 0, object: 0 },
        end_group: 0,
        subscriber_priority: 200,
        forward: true,
    };

    let encoded = encode_message(&msg, Version::Draft17);
    let decoded: SubscribeUpdate = decode_message(&encoded, Version::Draft17).unwrap();

    assert_eq!(decoded.request_id, RequestId(10));
    assert_eq!(decoded.subscription_request_id, None);
    assert_eq!(decoded.subscriber_priority, 200);
    assert!(decoded.forward);
}

#[test]
fn test_subscribe_v18_round_trip() {
    let msg = Subscribe {
        request_id: RequestId(1),
        track_namespace: Path::new("test"),
        track_name: "video".to_string(),
        subscriber_priority: 128,
        group_order: GroupOrder::Descending,
        filter_type: FilterType::LargestObject,
        start_location: None,
        end_group: None,
    };

    let encoded = encode_message(&msg, Version::Draft18);
    let decoded: Subscribe = decode_message(&encoded, Version::Draft18).unwrap();

    assert_eq!(decoded.request_id, RequestId(1));
    assert_eq!(decoded.track_namespace.as_str(), "test");
    assert_eq!(decoded.track_name, "video");
    assert_eq!(decoded.subscriber_priority, 128);
}

#[test]
fn test_subscribe_ok_v18_round_trip() {
    let msg = SubscribeOk {
        request_id: None,
        track_alias: 42,
    };

    let encoded = encode_message(&msg, Version::Draft18);
    let decoded: SubscribeOk = decode_message(&encoded, Version::Draft18).unwrap();

    assert_eq!(decoded.request_id, None);
    assert_eq!(decoded.track_alias, 42);
}

/// Draft-18 removes the `required_request_id_delta` field (#1615), so the
/// REQUEST_UPDATE wire format is 1 varint shorter than draft-17.
#[test]
fn test_subscribe_update_v18_round_trip() {
    let msg = SubscribeUpdate {
        request_id: RequestId(10),
        subscription_request_id: None,
        start_location: Location { group: 0, object: 0 },
        end_group: 0,
        subscriber_priority: 200,
        forward: true,
    };

    let encoded = encode_message(&msg, Version::Draft18);
    let decoded: SubscribeUpdate = decode_message(&encoded, Version::Draft18).unwrap();

    assert_eq!(decoded.request_id, RequestId(10));
    assert_eq!(decoded.subscription_request_id, None);
    assert_eq!(decoded.subscriber_priority, 200);
    assert!(decoded.forward);
}

/// Cross-check: draft-17 emits an extra 0-byte (required_request_id_delta) that
/// draft-18 does not. So a draft-18 encoding should be exactly 1 byte shorter
/// than draft-17 for SUBSCRIBE_UPDATE.
#[test]
fn test_subscribe_update_v17_v18_size_differs() {
    let v17_msg = SubscribeUpdate {
        request_id: RequestId(10),
        subscription_request_id: None,
        start_location: Location { group: 0, object: 0 },
        end_group: 0,
        subscriber_priority: 200,
        forward: true,
    };
    let v18_msg = SubscribeUpdate { ..v17_msg.clone() };

    let v17 = encode_message(&v17_msg, Version::Draft17);
    let v18 = encode_message(&v18_msg, Version::Draft18);
    assert_eq!(v17.len(), v18.len() + 1);
}

#[test]
fn test_subscribe_next_group_v14_round_trip() {
    let msg = Subscribe {
        request_id: RequestId(5),
        track_namespace: Path::new("live"),
        track_name: "video".to_string(),
        subscriber_priority: 200,
        group_order: GroupOrder::Descending,
        filter_type: FilterType::NextGroup,
        start_location: None,
        end_group: None,
    };

    let encoded = encode_message(&msg, Version::Draft14);
    let decoded: Subscribe = decode_message(&encoded, Version::Draft14).unwrap();

    assert_eq!(decoded.filter_type, FilterType::NextGroup);
    assert_eq!(decoded.start_location, None);
}

#[test]
fn test_subscribe_next_group_v17_round_trip() {
    let msg = Subscribe {
        request_id: RequestId(5),
        track_namespace: Path::new("live"),
        track_name: "video".to_string(),
        subscriber_priority: 200,
        group_order: GroupOrder::Descending,
        filter_type: FilterType::NextGroup,
        start_location: None,
        end_group: None,
    };

    let encoded = encode_message(&msg, Version::Draft17);
    let decoded: Subscribe = decode_message(&encoded, Version::Draft17).unwrap();

    assert_eq!(decoded.filter_type, FilterType::NextGroup);
    assert_eq!(decoded.start_location, None);
}

#[test]
fn test_subscribe_next_group_v18_round_trip() {
    let msg = Subscribe {
        request_id: RequestId(5),
        track_namespace: Path::new("live"),
        track_name: "video".to_string(),
        subscriber_priority: 200,
        group_order: GroupOrder::Descending,
        filter_type: FilterType::NextGroup,
        start_location: None,
        end_group: None,
    };

    let encoded = encode_message(&msg, Version::Draft18);
    let decoded: Subscribe = decode_message(&encoded, Version::Draft18).unwrap();

    assert_eq!(decoded.filter_type, FilterType::NextGroup);
    assert_eq!(decoded.start_location, None);
}

#[test]
fn test_subscribe_absolute_start_v14_round_trip() {
    let msg = Subscribe {
        request_id: RequestId(7),
        track_namespace: Path::new("vod"),
        track_name: "audio".to_string(),
        subscriber_priority: 128,
        group_order: GroupOrder::Descending,
        filter_type: FilterType::AbsoluteStart,
        start_location: Some(Location { group: 42, object: 3 }),
        end_group: None,
    };

    let encoded = encode_message(&msg, Version::Draft14);
    let decoded: Subscribe = decode_message(&encoded, Version::Draft14).unwrap();

    assert_eq!(decoded.filter_type, FilterType::AbsoluteStart);
    assert_eq!(decoded.start_location, Some(Location { group: 42, object: 3 }));
}

#[test]
fn test_subscribe_absolute_start_v17_round_trip() {
    let msg = Subscribe {
        request_id: RequestId(7),
        track_namespace: Path::new("vod"),
        track_name: "audio".to_string(),
        subscriber_priority: 128,
        group_order: GroupOrder::Descending,
        filter_type: FilterType::AbsoluteStart,
        start_location: Some(Location { group: 42, object: 3 }),
        end_group: None,
    };

    let encoded = encode_message(&msg, Version::Draft17);
    let decoded: Subscribe = decode_message(&encoded, Version::Draft17).unwrap();

    assert_eq!(decoded.filter_type, FilterType::AbsoluteStart);
    assert_eq!(decoded.start_location, Some(Location { group: 42, object: 3 }));
}

#[test]
fn test_subscribe_absolute_start_v18_round_trip() {
    let msg = Subscribe {
        request_id: RequestId(7),
        track_namespace: Path::new("vod"),
        track_name: "audio".to_string(),
        subscriber_priority: 128,
        group_order: GroupOrder::Descending,
        filter_type: FilterType::AbsoluteStart,
        start_location: Some(Location { group: 100, object: 0 }),
        end_group: None,
    };

    let encoded = encode_message(&msg, Version::Draft18);
    let decoded: Subscribe = decode_message(&encoded, Version::Draft18).unwrap();

    assert_eq!(decoded.filter_type, FilterType::AbsoluteStart);
    assert_eq!(decoded.start_location, Some(Location { group: 100, object: 0 }));
}

#[test]
fn test_subscribe_absolute_range_v14_round_trip() {
    let msg = Subscribe {
        request_id: RequestId(9),
        track_namespace: Path::new("vod"),
        track_name: "video".to_string(),
        subscriber_priority: 128,
        group_order: GroupOrder::Descending,
        filter_type: FilterType::AbsoluteRange,
        start_location: Some(Location { group: 1, object: 0 }),
        end_group: Some(5),
    };

    let encoded = encode_message(&msg, Version::Draft14);
    let decoded: Subscribe = decode_message(&encoded, Version::Draft14).unwrap();

    assert_eq!(decoded.filter_type, FilterType::AbsoluteRange);
    assert_eq!(decoded.start_location, Some(Location { group: 1, object: 0 }));
    assert_eq!(decoded.end_group, Some(5));
}

#[test]
fn test_subscribe_absolute_range_v17_round_trip() {
    let msg = Subscribe {
        request_id: RequestId(9),
        track_namespace: Path::new("vod"),
        track_name: "video".to_string(),
        subscriber_priority: 128,
        group_order: GroupOrder::Descending,
        filter_type: FilterType::AbsoluteRange,
        start_location: Some(Location { group: 1, object: 0 }),
        end_group: Some(2),
    };

    let encoded = encode_message(&msg, Version::Draft17);
    let decoded: Subscribe = decode_message(&encoded, Version::Draft17).unwrap();

    assert_eq!(decoded.filter_type, FilterType::AbsoluteRange);
    assert_eq!(decoded.start_location, Some(Location { group: 1, object: 0 }));
    assert_eq!(decoded.end_group, Some(2));
    // Verify no leftover bytes (simulates publisher's !data.is_empty() check)
}

#[test]
fn test_subscribe_absolute_range_v17_no_leftover() {
    let msg = Subscribe {
        request_id: RequestId(9),
        track_namespace: Path::new("vod"),
        track_name: "video".to_string(),
        subscriber_priority: 128,
        group_order: GroupOrder::Descending,
        filter_type: FilterType::AbsoluteRange,
        start_location: Some(Location { group: 1, object: 0 }),
        end_group: Some(2),
    };

    // Encode, then decode using the raw Message trait (same path the publisher uses).
    let mut buf = Vec::new();
    msg.encode_msg(&mut buf, Version::Draft17).unwrap();
    let mut data = Reader::new(&buf);
    let _decoded = Subscribe::decode_msg(&mut data, Version::Draft17).unwrap();
    assert!(!data.has_remaining(), "leftover bytes after decode: {} remaining", data.remaining());
}

#[test]
fn exact_bytes_of_draft_14() {
    let msg = Subscribe {
        request_id: RequestId(1),
        track_namespace: Path::new("a/bc"),
        track_name: "v".to_string(),
        subscriber_priority: 128,
        group_order: GroupOrder::Descending,
        filter_type: FilterType::LargestObject,
        start_location: None,
        end_group: None,
    };
    assert_eq!(
        encode_message(&msg, Version::Draft14),
        vec![1, 2, 1, b'a', 2, b'b', b'c', 1, b'v', 128, 2, 1, 2, 0]
    );
}

#[test]
fn every_draft_round_trips() {
    for version in [
        Version::Draft14,
        Version::Draft15,
        Version::Draft16,
        Version::Draft17,
        Version::Draft18,
        Version::Draft19,
    ] {
        let msg = Subscribe {
            request_id: RequestId(77),
            track_namespace: Path::new("one/two/three"),
            track_name: "track".to_string(),
            subscriber_priority: 3,
            group_order: GroupOrder::Ascending,
            filter_type: FilterType::AbsoluteRange,
            start_location: Some(Location { group: 300, object: 70_000 }),
            end_group: Some(1 << 40),
        };
        let decoded: Subscribe = decode_message(&encode_message(&msg, version), version).unwrap();
        assert_eq!(decoded.request_id, RequestId(77));
        assert_eq!(decoded.track_namespace.as_str(), "one/two/three");
        assert_eq!(decoded.start_location, Some(Location { group: 300, object: 70_000 }));
        assert_eq!(decoded.end_group, Some(1 << 40));
        assert_eq!(decoded.filter_type, FilterType::AbsoluteRange);
    }
}

#[test]
fn a_short_message_is_short() {
    let msg = Unsubscribe { request_id: RequestId(70_000) };
    let encoded = encode_message(&msg, Version::Draft14);
    assert_eq!(encoded, vec![0x80, 0x01, 0x11, 0x70]);
    let res: Result<Unsubscribe, _> = decode_message(&encoded[..3], Version::Draft14);
    assert_eq!(res.unwrap_err(), DecodeError::Short);
}

#[test]
fn an_id_that_62_bits_do_not_hold_is_refused() {
    let msg = Unsubscribe { request_id: RequestId(1 << 62) };
    let mut buf = Vec::new();
    assert!(msg.encode_msg(&mut buf, Version::Draft14).is_err());
    assert!(msg.encode_msg(&mut Vec::new(), Version::Draft17).is_ok());
}
