//! How messages lie on the wire: integer after integer.

use crate::coding::{bytes_field, string_field, DecodeError, EncodeError, VarInt};
use crate::ietf::decode_laws::number;
use crate::ietf::goaway::{frame_bytes, goaway_bytes};
use crate::ietf::namespace::{fields, namespace_field};
use crate::ietf::params::{parse_param, Known, Params, MAX_PARAMS};
use crate::ietf::subscribe::{
    filter_field, filter_field_14, filter_inner, parse_filter, subscribe_bytes,
    subscribe_error_bytes, subscribe_head, subscribe_ok_bytes, subscribe_params, update_bytes, FilterType, FilterWithLocation,
    Subscribe, SubscribeError, SubscribeOk, SubscribeUpdate, SubscribeView, Unsubscribe,
};
use crate::ietf::{location_field, GroupOrder, Location, RequestId, Version};
use vstd::prelude::*;
use vstd::utf8::encode_utf8;

verus! {

/// The types of the messages.
pub proof fn law_message_types()
    ensures
        SubscribeUpdate::ID == 0x02,
        Subscribe::ID == 0x03,
        SubscribeOk::ID == 0x04,
        SubscribeError::ID == 0x05,
        Unsubscribe::ID == 0x0a,
        MAX_PARAMS == 64,
{
}

/// A string is the number of its bytes, and the bytes; so is every run of bytes.
pub proof fn law_string_layout(enc: VarInt, text: Seq<char>, b: Seq<u8>)
    ensures
        string_field(enc, text) is Ok ==> string_field(enc, text)->Ok_0 == number(
            enc,
            encode_utf8(text).len() as u64,
        ) + encode_utf8(text),
        bytes_field(enc, b) is Ok ==> bytes_field(enc, b)->Ok_0 == number(enc, b.len() as u64) + b,
{
}

/// A location is its group and its object, and a namespace the number of its parts and one string
/// after another.
pub proof fn law_namespace_layout(enc: VarInt, parts: Seq<Seq<char>>, loc: Location)
    ensures
        location_field(loc, enc) is Ok ==> location_field(loc, enc)->Ok_0 == number(enc, loc.group)
            + number(enc, loc.object),
        namespace_field(enc, parts) is Ok ==> namespace_field(enc, parts)->Ok_0 == number(
            enc,
            parts.len() as u64,
        ) + fields(enc, parts)->Ok_0,
        fields(enc, Seq::empty()) == Ok::<_, EncodeError>(Seq::<u8>::empty()),
        parts.len() > 0 && fields(enc, parts) is Ok ==> fields(enc, parts)->Ok_0 == string_field(
            enc,
            parts[0],
        )->Ok_0 + fields(enc, parts.skip(1))->Ok_0,
{
}

/// Where a filter starts that has a start.
pub open spec fn start_of(f: FilterWithLocation) -> Location {
    match f.start_location {
        Some(loc) => loc,
        None => Location { group: 0, object: 0 },
    }
}

/// A filter is its number, then the start if it is absolute, and then the end of a range: how many
/// groups it lies behind the start, but under draft 14 the group itself.
pub proof fn law_filter_layout(enc: VarInt, f: FilterWithLocation)
    ensures
        ({
            let place = number(enc, start_of(f).group) + number(enc, start_of(f).object);
            let inner = filter_inner(enc, f);
            let plain = filter_field_14(enc, f);
            &&& f.filter_type == FilterType::NextGroup ==> inner == enc.bytes_of(1) && plain
                == enc.bytes_of(1)
            &&& f.filter_type == FilterType::LargestObject ==> inner == enc.bytes_of(2) && plain
                == enc.bytes_of(2)
            &&& f.filter_type == FilterType::AbsoluteStart && inner is Ok ==> inner->Ok_0 == number(
                enc,
                3,
            ) + place
            &&& f.filter_type == FilterType::AbsoluteStart ==> plain == inner
            &&& f.filter_type == FilterType::AbsoluteRange && inner is Ok ==> {
                let far = if f.end_group is Some && f.end_group->Some_0 >= start_of(f).group {
                    (f.end_group->Some_0 - start_of(f).group) as u64
                } else {
                    0
                };
                inner->Ok_0 == number(enc, 4) + place + number(enc, far)
            }
            &&& f.filter_type == FilterType::AbsoluteRange && plain is Ok ==> {
                let end = match f.end_group {
                    Some(end) => end,
                    None => 0,
                };
                plain->Ok_0 == number(enc, 4) + place + number(enc, end)
            }
            &&& filter_field(enc, f) is Ok ==> filter_field(enc, f)->Ok_0 == number(
                enc,
                inner->Ok_0.len() as u64,
            ) + inner->Ok_0
        }),
{
}

/// The identifier that draft 17 has behind that of the request: always zero.
pub open spec fn waits_for(version: Version) -> Seq<u8> {
    if version == Version::Draft17 {
        number(version.varint(), 0)
    } else {
        Seq::empty()
    }
}

/// Whether keys are told by their distance from the key before them.
pub open spec fn counts_keys(version: Version) -> bool {
    version != Version::Draft14 && version != Version::Draft15
}

/// A subscription under draft 14: the request, the namespace, the name, the priority, the order,
/// that it is forwarded, the filter, and that there are no parameters.
pub proof fn law_subscribe_14_layout(m: SubscribeView)
    requires
        subscribe_bytes(m, Version::Draft14) is Ok,
    ensures
        ({
            let enc = VarInt::Quic;
            subscribe_bytes(m, Version::Draft14)->Ok_0 == number(enc, m.request_id.0)
                + namespace_field(enc, m.track_namespace)->Ok_0 + string_field(
                enc,
                m.track_name,
            )->Ok_0 + seq![m.subscriber_priority, m.group_order.number(), 1u8] + filter_field_14(
                enc,
                m.filter,
            )->Ok_0 + seq![0u8]
        }),
{
    let enc = VarInt::Quic;
    let told = number(enc, m.request_id.0) + namespace_field(enc, m.track_namespace)->Ok_0
        + string_field(enc, m.track_name)->Ok_0 + seq![
        m.subscriber_priority,
        m.group_order.number(),
        1u8,
    ] + filter_field_14(enc, m.filter)->Ok_0 + seq![0u8];
    assert(subscribe_bytes(m, Version::Draft14)->Ok_0 =~= told);
}

/// Nine pieces behind another lie one after another, however they are grouped.
proof fn lemma_pieces(head: Seq<u8>, p: Seq<Seq<u8>>)
    requires
        p.len() == 9,
    ensures
        head + (p[0] + (p[1] + p[2]) + (p[3] + p[4]) + (p[5] + p[6]) + (p[7] + p[8])) == head + p[0]
            + p[1] + p[2] + p[3] + p[4] + p[5] + p[6] + p[7] + p[8],
{
    assert(p[0] + (p[1] + p[2]) =~= p[0] + p[1] + p[2]);
    let a = p[0] + p[1] + p[2];
    assert(a + (p[3] + p[4]) =~= a + p[3] + p[4]);
    let b = a + p[3] + p[4];
    assert(b + (p[5] + p[6]) =~= b + p[5] + p[6]);
    let c = b + p[5] + p[6];
    assert(c + (p[7] + p[8]) =~= c + p[7] + p[8]);
    assert(head + (c + p[7] + p[8]) =~= head + c + p[7] + p[8]);
    assert(head + (b + p[5] + p[6]) =~= head + b + p[5] + p[6]);
    assert(head + (a + p[3] + p[4]) =~= head + a + p[3] + p[4]);
    assert(head + (p[0] + p[1] + p[2]) =~= head + p[0] + p[1] + p[2]);
}

/// A subscription from draft 15 on: the request, the namespace, the name, and four parameters:
/// that it is forwarded, the priority, the filter, and the order.
pub proof fn law_subscribe_layout(m: SubscribeView, version: Version)
    requires
        version != Version::Draft14,
        subscribe_bytes(m, version) is Ok,
    ensures
        ({
            let enc = version.varint();
            let (k1, k2, k3) = if counts_keys(version) {
                (0x10u64, 1u64, 1u64)
            } else {
                (0x20, 0x21, 0x22)
            };
            subscribe_bytes(m, version)->Ok_0 == number(enc, m.request_id.0) + waits_for(version)
                + namespace_field(enc, m.track_namespace)->Ok_0 + string_field(
                enc,
                m.track_name,
            )->Ok_0 + number(enc, 4) + number(enc, 0x10) + number(enc, 1) + number(enc, k1)
                + number(enc, m.subscriber_priority as u64) + number(enc, k2) + filter_field(
                enc,
                m.filter,
            )->Ok_0 + number(enc, k3) + number(enc, m.group_order.number() as u64)
        }),
{
    let enc = version.varint();
    let (k1, k2, k3) = if counts_keys(version) {
        (0x10u64, 1u64, 1u64)
    } else {
        (0x20, 0x21, 0x22)
    };
    let head = subscribe_head(m, version)->Ok_0;
    let told = number(enc, 4) + (number(enc, 0x10) + number(enc, 1)) + (number(enc, k1) + number(
        enc,
        m.subscriber_priority as u64,
    )) + (number(enc, k2) + filter_field(enc, m.filter)->Ok_0) + (number(enc, k3) + number(
        enc,
        m.group_order.number() as u64,
    ));
    assert(subscribe_params(m, version) == Ok::<_, EncodeError>(told));
    assert(head == number(enc, m.request_id.0) + waits_for(version) + namespace_field(
        enc,
        m.track_namespace,
    )->Ok_0 + string_field(enc, m.track_name)->Ok_0);
    lemma_pieces(
        head,
        seq![
            number(enc, 4),
            number(enc, 0x10),
            number(enc, 1),
            number(enc, k1),
            number(enc, m.subscriber_priority as u64),
            number(enc, k2),
            filter_field(enc, m.filter)->Ok_0,
            number(enc, k3),
            number(enc, m.group_order.number() as u64),
        ],
    );
}

/// An acceptance: the request, where the draft names it, the alias, and then that it does not
/// expire, in descending order, without content or parameters under draft 14, and under all others
/// the one parameter of the order.
pub proof fn law_subscribe_ok_layout(m: SubscribeOk, version: Version)
    requires
        m.request_id is Some <==> version.names_request(),
        subscribe_ok_bytes(m, version) is Ok,
    ensures
        ({
            let enc = version.varint();
            let head = match m.request_id {
                Some(id) => number(enc, id.0),
                None => Seq::empty(),
            } + number(enc, m.track_alias);
            subscribe_ok_bytes(m, version)->Ok_0 == if version == Version::Draft14 {
                head + number(enc, 0) + seq![2u8, 0u8, 0u8]
            } else {
                head + number(enc, 1) + number(enc, 0x22) + number(enc, 2)
            }
        }),
{
    let enc = version.varint();
    let head = match m.request_id {
        Some(id) => number(enc, id.0),
        None => Seq::empty(),
    } + number(enc, m.track_alias);
    if version == Version::Draft14 {
        assert(subscribe_ok_bytes(m, version)->Ok_0 =~= head + number(enc, 0) + seq![
            2u8,
            0u8,
            0u8,
        ]);
    } else {
        assert(subscribe_ok_bytes(m, version)->Ok_0 =~= head + number(enc, 1) + number(enc, 0x22)
            + number(enc, 2));
    }
}

/// A refusal: the request, the code and the reason.
pub proof fn law_subscribe_error_layout(id: RequestId, code: u64, reason: Seq<char>, version: Version)
    requires
        subscribe_error_bytes(id, code, reason, version) is Ok,
    ensures
        subscribe_error_bytes(id, code, reason, version)->Ok_0 == number(version.varint(), id.0)
            + number(version.varint(), code) + string_field(version.varint(), reason)->Ok_0,
{
}

/// An update: the request, the subscription, where the draft names it, and then start, end,
/// priority and whether it is forwarded under draft 14, and under all others three parameters:
/// whether it is forwarded, the priority, and a filter from the largest object on.
pub proof fn law_update_layout(m: SubscribeUpdate, version: Version)
    requires
        m.subscription_request_id is Some <==> version.names_request(),
        update_bytes(m, version) is Ok,
    ensures
        ({
            let enc = version.varint();
            let forward = if m.forward {
                1u64
            } else {
                0
            };
            let (k1, k2) = if counts_keys(version) {
                (0x10u64, 1u64)
            } else {
                (0x20, 0x21)
            };
            let head = number(enc, m.request_id.0) + match m.subscription_request_id {
                Some(id) => number(enc, id.0),
                None => waits_for(version),
            };
            update_bytes(m, version)->Ok_0 == if version == Version::Draft14 {
                head + number(enc, m.start_location.group) + number(enc, m.start_location.object)
                    + number(enc, m.end_group) + seq![m.subscriber_priority, forward as u8, 0u8]
            } else {
                head + number(enc, 3) + number(enc, 0x10) + number(enc, forward) + number(enc, k1)
                    + number(enc, m.subscriber_priority as u64) + number(enc, k2) + number(
                    enc,
                    number(enc, 2).len() as u64,
                ) + number(enc, 2)
            }
        }),
{
    let enc = version.varint();
    let forward = if m.forward {
        1u64
    } else {
        0
    };
    let (k1, k2) = if counts_keys(version) {
        (0x10u64, 1u64)
    } else {
        (0x20, 0x21)
    };
    let head = number(enc, m.request_id.0) + match m.subscription_request_id {
        Some(id) => number(enc, id.0),
        None => waits_for(version),
    };
    if version == Version::Draft14 {
        assert(update_bytes(m, version)->Ok_0 =~= head + number(enc, m.start_location.group)
            + number(enc, m.start_location.object) + number(enc, m.end_group) + seq![
            m.subscriber_priority,
            forward as u8,
            0u8,
        ]);
    } else {
        assert(update_bytes(m, version)->Ok_0 =~= head + number(enc, 3) + number(enc, 0x10)
            + number(enc, forward) + number(enc, k1) + number(enc, m.subscriber_priority as u64)
            + number(enc, k2) + number(enc, number(enc, 2).len() as u64) + number(enc, 2));
    }
}

/// The message that ends a session: where to go, and from draft 17 on how long it may take. It lies
/// in a frame: its type, its length in two bytes, the high one first, and the message.
pub proof fn law_goaway_layout(uri: Seq<char>, timeout: u64, version: Version, body: Seq<u8>)
    requires
        goaway_bytes(uri, timeout, version) is Ok,
        body.len() < 0x1_0000,
    ensures
        ({
            let enc = version.varint();
            let text = string_field(enc, uri)->Ok_0;
            &&& goaway_bytes(uri, timeout, version)->Ok_0 == if version == Version::Draft14
                || version == Version::Draft15 || version == Version::Draft16 {
                text
            } else {
                text + number(enc, timeout)
            }
            &&& exists|high: u8, low: u8|
                high * 256 + low == body.len() && frame_bytes(0x10, body, version) == number(
                    enc,
                    0x10,
                ) + #[trigger] seq![high, low] + body
        }),
{
    let enc = version.varint();
    let high = (body.len() / 256) as u8;
    let low = (body.len() % 256) as u8;
    assert(frame_bytes(0x10, body, version) =~= number(enc, 0x10) + seq![high, low] + body);
}

/// What the parameters of a subscription may say: a flag is zero or one, a priority is one byte,
/// an order has a number of its own, and what they say is what is read. Nothing else changes.
pub proof fn law_parameter_values(version: Version, s: Seq<u8>, acc: Params, v: u64, rest: Seq<u8>)
    requires
        version.varint().parse(s) == Ok::<_, DecodeError>((v, rest)),
    ensures
        ({
            let subscribe = |key: u64| parse_param(Known::Subscribe, version, key, s, acc);
            let invalid = Err::<(Params, Seq<u8>), _>(DecodeError::InvalidValue);
            &&& v <= 1 ==> subscribe(0x10) == Ok::<_, DecodeError>(
                (Params { forward: Some(v == 1), ..acc }, rest),
            )
            &&& v > 1 ==> subscribe(0x10) == invalid
            &&& v <= 255 ==> subscribe(0x20) == Ok::<_, DecodeError>(
                (Params { subscriber_priority: Some(v as u8), ..acc }, rest),
            )
            &&& v > 255 ==> subscribe(0x20) == invalid
            &&& GroupOrder::of_number_spec(v) is Ok ==> subscribe(0x22) == Ok::<_, DecodeError>(
                (Params { group_order: Some(GroupOrder::of_number_spec(v)->Ok_0), ..acc }, rest),
            )
            &&& GroupOrder::of_number_spec(v) is Err ==> subscribe(0x22) is Err
        }),
        parse_filter(version.varint(), s) is Ok ==> parse_param(
            Known::Subscribe,
            version,
            0x21,
            s,
            acc,
        ) == Ok::<_, DecodeError>(
            (
                Params { filter: Some(parse_filter(version.varint(), s)->Ok_0.0), ..acc },
                parse_filter(version.varint(), s)->Ok_0.1,
            ),
        ),
        parse_param(Known::SubscribeUpdate, version, 0x10, s, acc) == parse_param(
            Known::Subscribe,
            version,
            0x10,
            s,
            acc,
        ),
        parse_param(Known::SubscribeUpdate, version, 0x20, s, acc) == parse_param(
            Known::Subscribe,
            version,
            0x20,
            s,
            acc,
        ),
        parse_param(Known::SubscribeOk, version, 0x22, s, acc) == parse_param(
            Known::Subscribe,
            version,
            0x22,
            s,
            acc,
        ),
        parse_param(Known::Nothing, version, 0x22, s, acc) == Ok::<_, DecodeError>((acc, rest)),
{
}

} // verus!
