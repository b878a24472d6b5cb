//! What is read of a message that was written.

use crate::coding::{
    lemma_bytes_round_trip, lemma_string_round_trip, parse_bool, parse_string, parse_u8, pow256, string_field,
    DecodeError, VarInt,
};
use crate::ietf::namespace::{lemma_namespace_round_trip, namespace_field, parse_namespace};
use crate::path::is_path;
use crate::ietf::params::{
    key_field, lemma_entry, no_params, parse_entries, parse_params, parse_properties, Known,
    Params, FILTER, FORWARD, GROUP_ORDER, SUBSCRIBER_PRIORITY,
};
use crate::ietf::subscribe::{
    delta_field, end_14, entry, filter_field, filter_field_14, filter_type_param, flag,
    lemma_filter_round_trip, origin, parse_filter_14, parse_filter_type_param, parse_subscribe,
    parse_subscribe_error, parse_subscribe_fields, parse_subscribe_ok, parse_subscribe_params,
    parse_unsubscribe, parse_update, parse_update_fields, parse_update_params, read_back, skip_delta, subscribe_bytes,
    subscribe_error_bytes, subscribe_fields, subscribe_head, subscribe_ok_bytes,
    subscribe_params, update_bytes, update_fields, update_head, update_params, FilterType,
    FilterWithLocation, SubscribeOk, SubscribeUpdate, SubscribeView, Unsubscribe,
};
use crate::ietf::{
    lemma_location_round_trip, location_field, parse_request_id, GroupOrder, RequestId, Version,
};
use vstd::prelude::*;
use vstd::utf8::encode_utf8;

verus! {

/// No parameters follow a zero.
pub proof fn lemma_no_params(known: Known, rest: Seq<u8>)
    ensures
        parse_params(known, Version::Draft14, seq![0u8] + rest) == Ok::<_, DecodeError>(
            (no_params(), rest),
        ),
{
    reveal(VarInt::parse);
    crate::coding::lemma_pow256();
    let s = seq![0u8] + rest;
    assert(s.subrange(1, 1) =~= Seq::<u8>::empty());
    assert((s[0] - 0) * pow256(0) == 0);
    assert(s.skip(1) =~= rest);
}

/// The one parameter whose value is a single integer.
proof fn lemma_integer_entry(
    known: Known,
    version: Version,
    prev: u64,
    key: u64,
    value: u64,
    rest: Seq<u8>,
    n: nat,
    seen: Seq<u64>,
    acc: Params,
    next: Params,
)
    requires
        n > 0,
        prev <= key,
        !seen.contains(key),
        entry(version, prev, key, version.varint().bytes_of(value)) is Ok,
        match known {
            Known::Subscribe => (key == FORWARD && value <= 1 && next == (Params {
                forward: Some(value == 1),
                ..acc
            })) || (key == SUBSCRIBER_PRIORITY && value <= 0xff && next == (Params {
                subscriber_priority: Some(value as u8),
                ..acc
            })) || (key == GROUP_ORDER && value <= 2 && next == (Params {
                group_order: Some(GroupOrder::of_number_spec(value)->Ok_0),
                ..acc
            })),
            Known::SubscribeOk => key == GROUP_ORDER && value <= 2 && next == (Params {
                group_order: Some(GroupOrder::of_number_spec(value)->Ok_0),
                ..acc
            }),
            Known::SubscribeUpdate => (key == FORWARD && value <= 1 && next == (Params {
                forward: Some(value == 1),
                ..acc
            })) || (key == SUBSCRIBER_PRIORITY && value <= 0xff && next == (Params {
                subscriber_priority: Some(value as u8),
                ..acc
            })),
            Known::Nothing => false,
        },
    ensures
        parse_entries(
            known,
            version,
            entry(version, prev, key, version.varint().bytes_of(value))->Ok_0 + rest,
            n,
            prev,
            seen,
            acc,
        ) == parse_entries(known, version, rest, (n - 1) as nat, key, seen.push(key), next),
{
    let enc = version.varint();
    enc.lemma_round_trip(value, rest);
    lemma_entry(known, version, prev, key, enc.bytes_of(value)->Ok_0, rest, n, seen, acc, next);
}

proof fn lemma_subscribe_params_round_trip(m: SubscribeView, version: Version, rest: Seq<u8>)
    requires
        subscribe_params(m, version) is Ok,
    ensures
        parse_params(Known::Subscribe, version, subscribe_params(m, version)->Ok_0 + rest) == Ok::<
            _,
            DecodeError,
        >(
            (
                Params {
                    forward: Some(true),
                    subscriber_priority: Some(m.subscriber_priority),
                    filter: Some(m.filter.normal()),
                    filter_type: None,
                    group_order: Some(m.group_order),
                },
                rest,
            ),
        ),
{
    let enc = version.varint();
    let known = Known::Subscribe;
    let priority = m.subscriber_priority as u64;
    let order = m.group_order.number() as u64;
    let c = enc.bytes_of(4)->Ok_0;
    let e1 = entry(version, 0, FORWARD, enc.bytes_of(1))->Ok_0;
    let e2 = entry(version, FORWARD, SUBSCRIBER_PRIORITY, enc.bytes_of(priority))->Ok_0;
    let f = filter_field(enc, m.filter)->Ok_0;
    let k3 = key_field(version, SUBSCRIBER_PRIORITY, FILTER)->Ok_0;
    let e3 = k3 + f;
    let e4 = entry(version, FILTER, GROUP_ORDER, enc.bytes_of(order))->Ok_0;
    let r4 = e4 + rest;
    let r3 = e3 + r4;
    let r2 = e2 + r3;
    let r1 = e1 + r2;
    assert(subscribe_params(m, version)->Ok_0 == c + e1 + e2 + e3 + e4);
    assert(c + e1 + e2 + e3 + e4 + rest =~= c + r1);
    enc.lemma_round_trip(4, r1);
    let a0 = no_params();
    let a1 = Params { forward: Some(true), ..a0 };
    let a2 = Params { subscriber_priority: Some(m.subscriber_priority), ..a1 };
    let a3 = Params { filter: Some(m.filter.normal()), ..a2 };
    let a4 = Params { group_order: Some(m.group_order), ..a3 };
    let s0 = Seq::<u64>::empty();
    let s1 = s0.push(FORWARD);
    let s2 = s1.push(SUBSCRIBER_PRIORITY);
    let s3 = s2.push(FILTER);
    lemma_integer_entry(known, version, 0, FORWARD, 1, r2, 4, s0, a0, a1);
    lemma_integer_entry(
        known,
        version,
        FORWARD,
        SUBSCRIBER_PRIORITY,
        priority,
        r3,
        3,
        s1,
        a1,
        a2,
    );
    lemma_filter_round_trip(enc, m.filter, r4);
    lemma_entry(known, version, SUBSCRIBER_PRIORITY, FILTER, f, r4, 2, s2, a2, a3);
    lemma_integer_entry(known, version, FILTER, GROUP_ORDER, order, rest, 1, s3, a3, a4);
}

proof fn lemma_filter_14_round_trip(enc: VarInt, f: FilterWithLocation, rest: Seq<u8>)
    requires
        filter_field_14(enc, f) is Ok,
    ensures
        parse_filter_14(enc, filter_field_14(enc, f)->Ok_0 + rest) == Ok::<_, DecodeError>(
            (read_back(Version::Draft14, f), rest),
        ),
{
    let kind = enc.bytes_of(f.filter_type.number_spec())->Ok_0;
    match f.filter_type {
        FilterType::AbsoluteStart => {
            let loc = location_field(f.start(), enc)->Ok_0;
            enc.lemma_round_trip(f.filter_type.number_spec(), loc + rest);
            assert(kind + loc + rest =~= kind + (loc + rest));
            lemma_location_round_trip(f.start(), enc, rest);
        },
        FilterType::AbsoluteRange => {
            let loc = location_field(f.start(), enc)->Ok_0;
            let end = enc.bytes_of(end_14(f))->Ok_0;
            enc.lemma_round_trip(f.filter_type.number_spec(), loc + (end + rest));
            assert(kind + loc + end + rest =~= kind + (loc + (end + rest)));
            lemma_location_round_trip(f.start(), enc, end + rest);
            enc.lemma_round_trip(end_14(f), rest);
        },
        _ => {
            enc.lemma_round_trip(f.filter_type.number_spec(), rest);
        },
    }
}

/// The identifier that only draft 17 has is read past.
pub proof fn lemma_delta_round_trip(version: Version, rest: Seq<u8>)
    requires
        delta_field(version) is Ok,
    ensures
        skip_delta(version, delta_field(version)->Ok_0 + rest) == Ok::<_, DecodeError>(rest),
{
    if version == Version::Draft17 {
        version.varint().lemma_round_trip(0, rest);
    } else {
        assert(delta_field(version)->Ok_0 + rest =~= rest);
    }
}

/// The part that all drafts have is read, and the rest of the message behind it.
#[verifier::rlimit(40)]
pub proof fn law_subscribe_head_is_read(m: SubscribeView, version: Version, rest: Seq<u8>)
    requires
        is_path(m.track_namespace),
        encode_utf8(m.track_name).len() <= u64::MAX,
        subscribe_head(m, version) is Ok,
    ensures
        parse_subscribe(subscribe_head(m, version)->Ok_0 + rest, version) == if version
            == Version::Draft14 {
            parse_subscribe_fields(m.request_id, m.track_namespace, m.track_name, rest, version)
        } else {
            parse_subscribe_params(m.request_id, m.track_namespace, m.track_name, rest, version)
        },
{
    let enc = version.varint();
    let id = enc.bytes_of(m.request_id.0)->Ok_0;
    let delta = delta_field(version)->Ok_0;
    let namespace = namespace_field(enc, m.track_namespace)->Ok_0;
    let name = string_field(enc, m.track_name)->Ok_0;
    let r3 = name + rest;
    let r2 = namespace + r3;
    let r1 = delta + r2;
    assert(subscribe_head(m, version)->Ok_0 == id + delta + namespace + name);
    assert(id + delta + namespace + name + rest =~= id + r1);
    assert(parse_request_id(id + r1, version) == Ok::<_, DecodeError>((m.request_id, r1))) by {
        enc.lemma_round_trip(m.request_id.0, r1);
    }
    assert(skip_delta(version, r1) == Ok::<_, DecodeError>(r2)) by {
        lemma_delta_round_trip(version, r2);
    }
    assert(parse_namespace(enc, r2) == Ok::<_, DecodeError>((m.track_namespace, r3))) by {
        lemma_namespace_round_trip(enc, m.track_namespace, r3);
    }
    assert(parse_string(enc, r3) == Ok::<_, DecodeError>((m.track_name, rest))) by {
        lemma_string_round_trip(enc, m.track_name, rest);
    }
}

proof fn lemma_subscribe_fields_round_trip(m: SubscribeView, rest: Seq<u8>)
    requires
        subscribe_fields(m, Version::Draft14) is Ok,
    ensures
        parse_subscribe_fields(
            m.request_id,
            m.track_namespace,
            m.track_name,
            subscribe_fields(m, Version::Draft14)->Ok_0 + rest,
            Version::Draft14,
        ) == Ok::<_, DecodeError>(
            (SubscribeView { filter: read_back(Version::Draft14, m.filter), ..m }, rest),
        ),
{
    let enc = VarInt::Quic;
    let plain = seq![m.subscriber_priority, m.group_order.number(), 1u8];
    let filter = filter_field_14(enc, m.filter)->Ok_0;
    let none = seq![0u8];
    let s0 = plain + (filter + (none + rest));
    assert(plain + filter + none + rest =~= s0);
    assert(s0.skip(1).skip(1).skip(1) =~= filter + (none + rest));
    assert(parse_u8(s0) == Ok::<_, DecodeError>((m.subscriber_priority, s0.skip(1))));
    assert(parse_u8(s0.skip(1)) == Ok::<_, DecodeError>(
        (m.group_order.number(), s0.skip(1).skip(1)),
    ));
    assert(parse_bool(s0.skip(1).skip(1)) == Ok::<_, DecodeError>(
        (true, s0.skip(1).skip(1).skip(1)),
    ));
    lemma_filter_14_round_trip(enc, m.filter, none + rest);
    lemma_no_params(Known::Nothing, rest);
}

/// A subscribe message that can be written is read as what it says, and nothing of what
/// follows it: its filter in the normal form of the draft, everything else unchanged.
pub proof fn law_subscribe_round_trip(m: SubscribeView, version: Version, rest: Seq<u8>)
    requires
        m.can_be_read(),
        subscribe_bytes(m, version) is Ok,
    ensures
        parse_subscribe(subscribe_bytes(m, version)->Ok_0 + rest, version) == Ok::<_, DecodeError>(
            (SubscribeView { filter: read_back(version, m.filter), ..m }, rest),
        ),
{
    let head = subscribe_head(m, version)->Ok_0;
    let tail = if version == Version::Draft14 {
        subscribe_fields(m, version)->Ok_0
    } else {
        subscribe_params(m, version)->Ok_0
    };
    assert(head + tail + rest =~= head + (tail + rest));
    law_subscribe_head_is_read(m, version, tail + rest);
    if version == Version::Draft14 {
        lemma_subscribe_fields_round_trip(m, rest);
    } else {
        lemma_subscribe_params_round_trip(m, version, rest);
    }
}

/// A subscribe-ok message that can be written is read as what it says. From draft 17 on
/// properties follow it to the end of its frame, so there nothing else may follow.
pub proof fn law_subscribe_ok_round_trip(m: SubscribeOk, version: Version, rest: Seq<u8>)
    requires
        m.request_id is Some <==> version.names_request(),
        version.names_request() || rest.len() == 0,
        subscribe_ok_bytes(m, version) is Ok,
    ensures
        parse_subscribe_ok(subscribe_ok_bytes(m, version)->Ok_0 + rest, version) == Ok::<
            _,
            DecodeError,
        >((m, rest)),
{
    let enc = version.varint();
    let id = match m.request_id {
        Some(id) => enc.bytes_of(id.0)->Ok_0,
        None => Seq::empty(),
    };
    let alias = enc.bytes_of(m.track_alias)->Ok_0;
    let tail = if version == Version::Draft14 {
        enc.bytes_of(0)->Ok_0 + seq![2u8, 0u8, 0u8]
    } else {
        enc.bytes_of(1)->Ok_0 + entry(version, 0, GROUP_ORDER, enc.bytes_of(2))->Ok_0
    };
    assert(subscribe_ok_bytes(m, version)->Ok_0 == id + alias + tail);
    assert(id + alias + tail + rest =~= id + (alias + (tail + rest)));
    match m.request_id {
        Some(r) => {
            enc.lemma_round_trip(r.0, alias + (tail + rest));
        },
        None => {
            assert(id + (alias + (tail + rest)) =~= alias + (tail + rest));
        },
    }
    enc.lemma_round_trip(m.track_alias, tail + rest);
    if version == Version::Draft14 {
        let end = seq![2u8, 0u8, 0u8] + rest;
        assert(enc.bytes_of(0)->Ok_0 + seq![2u8, 0u8, 0u8] + rest =~= enc.bytes_of(0)->Ok_0 + end);
        enc.lemma_round_trip(0, end);
        assert(end.skip(1).skip(1) =~= seq![0u8] + rest);
        assert(parse_u8(end) == Ok::<_, DecodeError>((2u8, end.skip(1))));
        assert(parse_bool(end.skip(1)) == Ok::<_, DecodeError>((false, end.skip(1).skip(1))));
        lemma_no_params(Known::Nothing, rest);
    } else {
        let e = entry(version, 0, GROUP_ORDER, enc.bytes_of(2))->Ok_0;
        let a0 = no_params();
        let a1 = Params { group_order: Some(GroupOrder::Descending), ..a0 };
        assert(enc.bytes_of(1)->Ok_0 + e + rest =~= enc.bytes_of(1)->Ok_0 + (e + rest));
        enc.lemma_round_trip(1, e + rest);
        lemma_integer_entry(
            Known::SubscribeOk,
            version,
            0,
            GROUP_ORDER,
            2,
            rest,
            1,
            Seq::empty(),
            a0,
            a1,
        );
        assert(parse_properties(version, rest) == Ok::<_, DecodeError>(rest));
    }
}

/// A subscribe-error message that can be written is read as what it says.
pub proof fn law_subscribe_error_round_trip(
    request_id: RequestId,
    error_code: u64,
    reason_phrase: Seq<char>,
    version: Version,
    rest: Seq<u8>,
)
    requires
        encode_utf8(reason_phrase).len() <= u64::MAX,
        subscribe_error_bytes(request_id, error_code, reason_phrase, version) is Ok,
    ensures
        parse_subscribe_error(
            subscribe_error_bytes(request_id, error_code, reason_phrase, version)->Ok_0 + rest,
            version,
        ) == Ok::<_, DecodeError>((request_id, error_code, reason_phrase, rest)),
{
    let enc = version.varint();
    let id = enc.bytes_of(request_id.0)->Ok_0;
    let code = enc.bytes_of(error_code)->Ok_0;
    let reason = string_field(enc, reason_phrase)->Ok_0;
    assert(id + code + reason + rest =~= id + (code + (reason + rest)));
    enc.lemma_round_trip(request_id.0, code + (reason + rest));
    enc.lemma_round_trip(error_code, reason + rest);
    lemma_string_round_trip(enc, reason_phrase, rest);
}

/// An unsubscribe message that can be written is read as what it says.
pub proof fn law_unsubscribe_round_trip(m: Unsubscribe, version: Version, rest: Seq<u8>)
    requires
        version.varint().bytes_of(m.request_id.0) is Ok,
    ensures
        parse_unsubscribe(
            version.varint().bytes_of(m.request_id.0)->Ok_0 + rest,
            version,
        ) == Ok::<_, DecodeError>((m, rest)),
{
    version.varint().lemma_round_trip(m.request_id.0, rest);
}

/// A filter type that was written as a parameter is read as the same.
proof fn lemma_filter_type_round_trip(enc: VarInt, f: FilterType, rest: Seq<u8>)
    requires
        filter_type_param(enc, f) is Ok,
    ensures
        parse_filter_type_param(enc, filter_type_param(enc, f)->Ok_0 + rest) == Ok::<
            _,
            DecodeError,
        >((f, rest)),
{
    let b = enc.bytes_of(f.number_spec())->Ok_0;
    enc.lemma_bytes_len(f.number_spec());
    lemma_bytes_round_trip(enc, b, rest);
    enc.lemma_round_trip(f.number_spec(), Seq::empty());
    assert(b + Seq::<u8>::empty() =~= b);
}

proof fn lemma_update_params_round_trip(m: SubscribeUpdate, version: Version, rest: Seq<u8>)
    requires
        update_params(m, version) is Ok,
    ensures
        parse_params(
            Known::SubscribeUpdate,
            version,
            update_params(m, version)->Ok_0 + rest,
        ) == Ok::<_, DecodeError>(
            (
                Params {
                    forward: Some(m.forward),
                    subscriber_priority: Some(m.subscriber_priority),
                    filter: None,
                    filter_type: Some(FilterType::LargestObject),
                    group_order: None,
                },
                rest,
            ),
        ),
{
    let enc = version.varint();
    let known = Known::SubscribeUpdate;
    let forward = flag(m.forward);
    let priority = m.subscriber_priority as u64;
    let c = enc.bytes_of(3)->Ok_0;
    let e1 = entry(version, 0, FORWARD, enc.bytes_of(forward))->Ok_0;
    let e2 = entry(version, FORWARD, SUBSCRIBER_PRIORITY, enc.bytes_of(priority))->Ok_0;
    let f = filter_type_param(enc, FilterType::LargestObject)->Ok_0;
    let e3 = key_field(version, SUBSCRIBER_PRIORITY, FILTER)->Ok_0 + f;
    let r3 = e3 + rest;
    let r2 = e2 + r3;
    let r1 = e1 + r2;
    assert(update_params(m, version)->Ok_0 == c + e1 + e2 + e3);
    assert(c + e1 + e2 + e3 + rest =~= c + r1);
    enc.lemma_round_trip(3, r1);
    let a0 = no_params();
    let a1 = Params { forward: Some(m.forward), ..a0 };
    let a2 = Params { subscriber_priority: Some(m.subscriber_priority), ..a1 };
    let a3 = Params { filter_type: Some(FilterType::LargestObject), ..a2 };
    let s0 = Seq::<u64>::empty();
    let s1 = s0.push(FORWARD);
    let s2 = s1.push(SUBSCRIBER_PRIORITY);
    lemma_integer_entry(known, version, 0, FORWARD, forward, r2, 3, s0, a0, a1);
    lemma_integer_entry(
        known,
        version,
        FORWARD,
        SUBSCRIBER_PRIORITY,
        priority,
        r3,
        2,
        s1,
        a1,
        a2,
    );
    lemma_filter_type_round_trip(enc, FilterType::LargestObject, rest);
    lemma_entry(known, version, SUBSCRIBER_PRIORITY, FILTER, f, rest, 1, s2, a2, a3);
}

/// The requests that an update names are read, and the rest of the update behind them.
pub proof fn law_update_head_is_read(m: SubscribeUpdate, version: Version, rest: Seq<u8>)
    requires
        m.subscription_request_id is Some <==> version.names_request(),
        update_head(m, version) is Ok,
    ensures
        parse_update(update_head(m, version)->Ok_0 + rest, version) == if version
            == Version::Draft14 {
            parse_update_fields(m.request_id, m.subscription_request_id, rest, version)
        } else {
            parse_update_params(m.request_id, m.subscription_request_id, rest, version)
        },
{
    let enc = version.varint();
    let id = enc.bytes_of(m.request_id.0)->Ok_0;
    let updated = match m.subscription_request_id {
        Some(id) => enc.bytes_of(id.0)->Ok_0,
        None => delta_field(version)->Ok_0,
    };
    assert(id + updated + rest =~= id + (updated + rest));
    enc.lemma_round_trip(m.request_id.0, updated + rest);
    match m.subscription_request_id {
        Some(r) => {
            enc.lemma_round_trip(r.0, rest);
        },
        None => {
            lemma_delta_round_trip(version, rest);
        },
    }
}

/// An update that can be written is read as what it says; from draft 15 on it has no place
/// for a start and an end, which are then read as the start of the track.
pub proof fn law_update_round_trip(m: SubscribeUpdate, version: Version, rest: Seq<u8>)
    requires
        m.subscription_request_id is Some <==> version.names_request(),
        update_bytes(m, version) is Ok,
    ensures
        parse_update(update_bytes(m, version)->Ok_0 + rest, version) == Ok::<_, DecodeError>(
            (
                if version == Version::Draft14 {
                    m
                } else {
                    SubscribeUpdate { start_location: origin(), end_group: 0, ..m }
                },
                rest,
            ),
        ),
{
    let enc = version.varint();
    let id = enc.bytes_of(m.request_id.0)->Ok_0;
    let updated = match m.subscription_request_id {
        Some(id) => enc.bytes_of(id.0)->Ok_0,
        None => delta_field(version)->Ok_0,
    };
    let tail = if version == Version::Draft14 {
        update_fields(m, version)->Ok_0
    } else {
        update_params(m, version)->Ok_0
    };
    assert(update_bytes(m, version)->Ok_0 == id + updated + tail);
    assert(id + updated + tail + rest =~= id + (updated + (tail + rest)));
    enc.lemma_round_trip(m.request_id.0, updated + (tail + rest));
    match m.subscription_request_id {
        Some(r) => {
            enc.lemma_round_trip(r.0, tail + rest);
        },
        None => {
            lemma_delta_round_trip(version, tail + rest);
        },
    }
    if version == Version::Draft14 {
        let loc = location_field(m.start_location, enc)->Ok_0;
        let end = enc.bytes_of(m.end_group)->Ok_0;
        let plain = seq![m.subscriber_priority, flag(m.forward) as u8, 0u8];
        let s0 = plain + rest;
        assert(loc + end + plain + rest =~= loc + (end + s0));
        lemma_location_round_trip(m.start_location, enc, end + s0);
        enc.lemma_round_trip(m.end_group, s0);
        assert(s0.skip(1).skip(1) =~= seq![0u8] + rest);
        assert(parse_u8(s0) == Ok::<_, DecodeError>((m.subscriber_priority, s0.skip(1))));
        assert(parse_bool(s0.skip(1)) == Ok::<_, DecodeError>(
            (m.forward, s0.skip(1).skip(1)),
        ));
        lemma_no_params(Known::Nothing, rest);
    } else {
        lemma_update_params_round_trip(m, version, rest);
    }
}

/// Draft 18 has no identifier of an awaited request: its update is one byte shorter than that
/// of draft 17.
pub proof fn law_update_17_18_size(m: SubscribeUpdate)
    requires
        m.subscription_request_id is None,
    ensures
        update_bytes(m, Version::Draft17) is Ok,
        update_bytes(m, Version::Draft18) is Ok,
        update_bytes(m, Version::Draft17)->Ok_0.len() == update_bytes(
            m,
            Version::Draft18,
        )->Ok_0.len() + 1,
{
    let enc = VarInt::LeadingOnes;
    assert forall|v: u64| #[trigger] enc.bytes_of(v) is Ok by {
        enc.lemma_bytes_ok(v);
    }
    enc.lemma_bytes_len(0);
    assert(filter_type_param(enc, FilterType::LargestObject) is Ok);
    assert(update_params(m, Version::Draft17) == update_params(m, Version::Draft18));
}

/// So is its subscribe message.
pub proof fn law_subscribe_17_18_size(m: SubscribeView)
    requires
        subscribe_bytes(m, Version::Draft17) is Ok,
    ensures
        subscribe_bytes(m, Version::Draft18) is Ok,
        subscribe_bytes(m, Version::Draft17)->Ok_0.len() == subscribe_bytes(
            m,
            Version::Draft18,
        )->Ok_0.len() + 1,
{
    let enc = VarInt::LeadingOnes;
    enc.lemma_bytes_len(0);
    assert(subscribe_params(m, Version::Draft17) == subscribe_params(m, Version::Draft18));
}

} // verus!
