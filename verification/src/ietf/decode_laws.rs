//! What is read of messages that are written otherwise than here.
//!
//! A peer may leave parameters out, add some that nobody asked for, and say of a track that it has
//! content. What is read of such a message is stated here over the integers that it holds.

use crate::coding::{parse_bool, parse_u8, DecodeError, VarInt};
use crate::ietf::params::{
    key_field, lemma_entry, no_params, parse_entries, parse_key, parse_params, parse_properties,
    skip_properties, Known, Params,
};
use crate::ietf::round_trip::{law_subscribe_head_is_read, law_update_head_is_read, lemma_no_params};
use crate::ietf::subscribe::{
    parse_filter_inner, parse_subscribe, parse_subscribe_ok, parse_update, read_back,
    subscribe_head, update_head, FilterType, FilterWithLocation, SubscribeOk, SubscribeUpdate,
    SubscribeView,
};
use crate::ietf::{GroupOrder, Location, RequestId, Version};
use vstd::prelude::*;

verus! {

/// Whether an integer can be written in 62 bits.
pub open spec fn fits_quic(v: u64) -> bool {
    v < 0x4000_0000_0000_0000
}

/// The bytes of an integer that can be written.
pub open spec fn number(enc: VarInt, v: u64) -> Seq<u8> {
    enc.bytes_of(v)->Ok_0
}

/// An acceptance under draft 14 is read alike whether or not the track has content, and whatever
/// the order of its groups: the largest location, if it is there, is read past, and nothing of
/// what follows the message is read.
pub proof fn law_content_is_read_past(
    id: u64,
    alias: u64,
    order: u8,
    group: u64,
    object: u64,
    rest: Seq<u8>,
)
    requires
        fits_quic(id),
        fits_quic(alias),
        fits_quic(group),
        fits_quic(object),
    ensures
        ({
            let enc = VarInt::Quic;
            let head = number(enc, id) + number(enc, alias) + number(enc, 0);
            let ok = SubscribeOk { request_id: Some(RequestId(id)), track_alias: alias };
            &&& parse_subscribe_ok(
                head + seq![order, 1u8] + number(enc, group) + number(enc, object) + seq![0u8] + rest,
                Version::Draft14,
            ) == Ok::<_, DecodeError>((ok, rest))
            &&& parse_subscribe_ok(head + seq![order, 0u8, 0u8] + rest, Version::Draft14) == Ok::<
                _,
                DecodeError,
            >((ok, rest))
        }),
{
    let enc = VarInt::Quic;
    enc.lemma_bytes_ok(id);
    enc.lemma_bytes_ok(alias);
    enc.lemma_bytes_ok(0);
    enc.lemma_bytes_ok(group);
    enc.lemma_bytes_ok(object);
    let head = number(enc, id) + number(enc, alias) + number(enc, 0);
    let place = number(enc, group) + (number(enc, object) + (seq![0u8] + rest));
    let with = seq![order, 1u8] + place;
    assert(head + seq![order, 1u8] + number(enc, group) + number(enc, object) + seq![0u8] + rest
        =~= number(enc, id) + (number(enc, alias) + (number(enc, 0) + with)));
    enc.lemma_round_trip(id, number(enc, alias) + (number(enc, 0) + with));
    enc.lemma_round_trip(alias, number(enc, 0) + with);
    enc.lemma_round_trip(0, with);
    assert(with.skip(1).skip(1) =~= place);
    assert(parse_u8(with) == Ok::<_, DecodeError>((order, with.skip(1))));
    assert(parse_bool(with.skip(1)) == Ok::<_, DecodeError>((true, with.skip(1).skip(1))));
    enc.lemma_round_trip(group, number(enc, object) + (seq![0u8] + rest));
    enc.lemma_round_trip(object, seq![0u8] + rest);
    lemma_no_params(Known::Nothing, rest);

    let without = seq![order, 0u8] + (seq![0u8] + rest);
    assert(head + seq![order, 0u8, 0u8] + rest =~= number(enc, id) + (number(enc, alias) + (number(enc, 0)
        + without)));
    enc.lemma_round_trip(id, number(enc, alias) + (number(enc, 0) + without));
    enc.lemma_round_trip(alias, number(enc, 0) + without);
    enc.lemma_round_trip(0, without);
    assert(without.skip(1).skip(1) =~= seq![0u8] + rest);
    assert(parse_u8(without) == Ok::<_, DecodeError>((order, without.skip(1))));
    assert(parse_bool(without.skip(1)) == Ok::<_, DecodeError>((false, without.skip(1).skip(1))));
}

/// An acceptance under draft 14 that expires, at any time, is not supported, whatever follows.
pub proof fn law_expiry_is_unsupported(id: u64, alias: u64, expires: u64, rest: Seq<u8>)
    requires
        fits_quic(id),
        fits_quic(alias),
        fits_quic(expires),
        expires > 0,
    ensures
        ({
            let enc = VarInt::Quic;
            parse_subscribe_ok(
                number(enc, id) + number(enc, alias) + number(enc, expires) + rest,
                Version::Draft14,
            ) == Err::<(SubscribeOk, Seq<u8>), _>(DecodeError::Unsupported)
        }),
{
    let enc = VarInt::Quic;
    enc.lemma_bytes_ok(id);
    enc.lemma_bytes_ok(alias);
    enc.lemma_bytes_ok(expires);
    assert(number(enc, id) + number(enc, alias) + number(enc, expires) + rest =~= number(enc, id) + (number(
        enc,
        alias,
    ) + (number(enc, expires) + rest)));
    enc.lemma_round_trip(id, number(enc, alias) + (number(enc, expires) + rest));
    enc.lemma_round_trip(alias, number(enc, expires) + rest);
    enc.lemma_round_trip(expires, rest);
}

/// A filter that says what belongs to its type, and no more, with a range that does not end
/// before it starts.
pub open spec fn is_proper(f: FilterWithLocation) -> bool {
    match f.filter_type {
        FilterType::AbsoluteStart => f.start_location is Some && f.end_group is None,
        FilterType::AbsoluteRange => f.start_location matches Some(start) && f.end_group matches Some(
            end,
        ) && start.group <= end,
        _ => f.start_location is None && f.end_group is None,
    }
}

/// Such a filter is read exactly as it was written, under every draft.
pub proof fn law_proper_filter_is_kept(version: Version, f: FilterWithLocation)
    requires
        is_proper(f),
    ensures
        read_back(version, f) == f,
{
}

/// Of any filter that was written, what is read back is of the same type; it has a start exactly
/// if it is absolute, which is the one that was given, if one was; and it has an end exactly if it
/// is a range.
pub proof fn law_filter_keeps_its_type(version: Version, f: FilterWithLocation)
    ensures
        ({
            let g = read_back(version, f);
            &&& g.filter_type == f.filter_type
            &&& g.start_location is Some <==> f.filter_type == FilterType::AbsoluteStart
                || f.filter_type == FilterType::AbsoluteRange
            &&& g.start_location is Some && f.start_location is Some ==> g.start_location
                == f.start_location
            &&& g.start_location is Some && f.start_location is None ==> g.start_location == Some(
                Location { group: 0, object: 0 },
            )
            &&& g.end_group is Some <==> f.filter_type == FilterType::AbsoluteRange
        }),
{
}

/// The types of filters are numbered from one to four, in their order; any other number is
/// refused.
pub proof fn law_filter_numbers(f: FilterType, n: u64)
    ensures
        FilterType::of_number_spec(f.number_spec()) == Ok::<_, DecodeError>(f),
        FilterType::of_number_spec(n) is Ok <==> 1 <= n <= 4,
        FilterType::of_number_spec(n) is Err ==> FilterType::of_number_spec(n) == Err::<
            FilterType,
            _,
        >(DecodeError::InvalidValue),
        FilterType::NextGroup.number_spec() == 1,
        FilterType::LargestObject.number_spec() == 2,
        FilterType::AbsoluteStart.number_spec() == 3,
        FilterType::AbsoluteRange.number_spec() == 4,
{
}

/// The orders of groups are numbered from zero to two; any other number is refused.
pub proof fn law_order_numbers(o: GroupOrder, n: u64)
    ensures
        GroupOrder::of_number_spec(o.number_spec() as u64) == Ok::<_, DecodeError>(o),
        GroupOrder::of_number_spec(n) is Ok <==> n <= 2,
        GroupOrder::of_number_spec(n) is Err ==> GroupOrder::of_number_spec(n) == Err::<
            GroupOrder,
            _,
        >(DecodeError::InvalidValue),
        GroupOrder::Any.number_spec() == 0,
        GroupOrder::Ascending.number_spec() == 1,
        GroupOrder::Descending.number_spec() == 2,
{
}

/// Answers name their request exactly up to draft 16, and integers are written by leading ones
/// exactly from draft 17 on.
pub proof fn law_drafts_differ(version: Version)
    ensures
        version.names_request() <==> version == Version::Draft14 || version == Version::Draft15
            || version == Version::Draft16,
        version.varint() == VarInt::LeadingOnes <==> version == Version::Draft17 || version
            == Version::Draft18 || version == Version::Draft19,
        version.varint() == VarInt::Quic <==> version.names_request(),
{
}

/// A filter parameter that ends behind its type has no place, and one that ends behind its place
/// no end; of a range, the end is as many groups behind the start as it says.
pub proof fn law_short_filters(enc: VarInt, place: Location, delta: u64)
    requires
        enc == VarInt::LeadingOnes || (fits_quic(place.group) && fits_quic(place.object)
            && fits_quic(delta)),
    ensures
        ({
            let start = number(enc, 3);
            let range = number(enc, 4);
            let at = number(enc, place.group) + number(enc, place.object);
            &&& parse_filter_inner(enc, start) == Ok::<_, DecodeError>(
                (FilterWithLocation {
                    filter_type: FilterType::AbsoluteStart,
                    start_location: None,
                    end_group: None,
                }),
            )
            &&& parse_filter_inner(enc, range) == Ok::<_, DecodeError>(
                (FilterWithLocation {
                    filter_type: FilterType::AbsoluteRange,
                    start_location: None,
                    end_group: None,
                }),
            )
            &&& parse_filter_inner(enc, range + at) == Ok::<_, DecodeError>(
                (FilterWithLocation {
                    filter_type: FilterType::AbsoluteRange,
                    start_location: Some(place),
                    end_group: None,
                }),
            )
            &&& parse_filter_inner(enc, range + at + number(enc, delta)) == Ok::<_, DecodeError>(
                (FilterWithLocation {
                    filter_type: FilterType::AbsoluteRange,
                    start_location: Some(place),
                    end_group: Some(
                        if place.group + delta <= u64::MAX {
                            (place.group + delta) as u64
                        } else {
                            u64::MAX
                        },
                    ),
                }),
            )
        }),
{
    enc.lemma_bytes_ok(3);
    enc.lemma_bytes_ok(4);
    enc.lemma_bytes_ok(place.group);
    enc.lemma_bytes_ok(place.object);
    enc.lemma_bytes_ok(delta);
    let none = Seq::<u8>::empty();
    let group = number(enc, place.group);
    let object = number(enc, place.object);
    let far = number(enc, delta);
    assert(number(enc, 3) + none =~= number(enc, 3));
    assert(number(enc, 4) + none =~= number(enc, 4));
    assert(object + none =~= object);
    assert(far + none =~= far);
    enc.lemma_round_trip(3, none);
    enc.lemma_round_trip(4, none);
    enc.lemma_bytes_len(place.group);
    enc.lemma_bytes_len(delta);
    enc.lemma_round_trip(4, group + object);
    enc.lemma_round_trip(place.group, object);
    enc.lemma_round_trip(place.object, none);
    assert(number(enc, 4) + (group + object) + far =~= number(enc, 4) + (group + (object + far)));
    enc.lemma_round_trip(4, group + (object + far));
    enc.lemma_round_trip(place.group, object + far);
    enc.lemma_round_trip(place.object, far);
    enc.lemma_round_trip(delta, none);
}

/// A subscription that leaves all of its parameters out has priority 128, in descending order,
/// from the largest object on: so it is read under every draft that has them.
pub proof fn law_subscribe_defaults(m: SubscribeView, version: Version, rest: Seq<u8>)
    requires
        version != Version::Draft14,
        m.can_be_read(),
        subscribe_head(m, version) is Ok,
    ensures
        parse_subscribe(
            subscribe_head(m, version)->Ok_0 + number(version.varint(), 0) + rest,
            version,
        ) matches Ok((read, left)) && {
            &&& left == rest
            &&& read.request_id == m.request_id
            &&& read.track_namespace == m.track_namespace
            &&& read.track_name == m.track_name
            &&& read.subscriber_priority == 128
            &&& read.group_order == GroupOrder::Descending
            &&& read.filter.filter_type == FilterType::LargestObject
            &&& read.filter.start_location is None
            &&& read.filter.end_group is None
        },
{
    let enc = version.varint();
    enc.lemma_bytes_ok(0);
    let head = subscribe_head(m, version)->Ok_0;
    assert(head + number(enc, 0) + rest =~= head + (number(enc, 0) + rest));
    law_subscribe_head_is_read(m, version, number(enc, 0) + rest);
    enc.lemma_round_trip(0, rest);
}

/// The one parameter that says so.
proof fn lemma_not_forwarded(version: Version, rest: Seq<u8>)
    ensures
        ({
            let enc = version.varint();
            parse_params(
                Known::Subscribe,
                version,
                number(enc, 1) + (number(enc, 0x10) + number(enc, 0) + rest),
            ) == Ok::<_, DecodeError>((Params { forward: Some(false), ..no_params() }, rest))
        }),
{
    let enc = version.varint();
    enc.lemma_bytes_ok(0);
    enc.lemma_bytes_ok(1);
    enc.lemma_bytes_ok(0x10);
    let acc = Params { forward: Some(false), ..no_params() };
    enc.lemma_round_trip(1, number(enc, 0x10) + number(enc, 0) + rest);
    enc.lemma_round_trip(0, rest);
    lemma_entry(
        Known::Subscribe,
        version,
        0,
        0x10,
        number(enc, 0),
        rest,
        1,
        Seq::empty(),
        no_params(),
        acc,
    );
}

/// A subscription that is not to be forwarded is not supported, under any draft, whatever else it
/// says.
pub proof fn law_unforwarded_is_unsupported(
    m: SubscribeView,
    version: Version,
    priority: u8,
    order: GroupOrder,
    rest: Seq<u8>,
)
    requires
        m.can_be_read(),
        subscribe_head(m, version) is Ok,
    ensures
        ({
            let head = subscribe_head(m, version)->Ok_0;
            let enc = version.varint();
            let refused = Err::<(SubscribeView, Seq<u8>), _>(DecodeError::Unsupported);
            &&& version == Version::Draft14 ==> parse_subscribe(
                head + seq![priority, order.number(), 0u8] + rest,
                version,
            ) == refused
            &&& version != Version::Draft14 ==> parse_subscribe(
                head + number(enc, 1) + number(enc, 0x10) + number(enc, 0) + rest,
                version,
            ) == refused
        }),
{
    let enc = version.varint();
    let head = subscribe_head(m, version)->Ok_0;
    if version == Version::Draft14 {
        let s = seq![priority, order.number(), 0u8] + rest;
        assert(head + seq![priority, order.number(), 0u8] + rest =~= head + s);
        law_subscribe_head_is_read(m, version, s);
        assert(parse_u8(s) == Ok::<_, DecodeError>((priority, s.skip(1))));
        assert(parse_u8(s.skip(1)) == Ok::<_, DecodeError>((order.number(), s.skip(1).skip(1))));
        assert(parse_bool(s.skip(1).skip(1)) == Ok::<_, DecodeError>(
            (false, s.skip(1).skip(1).skip(1)),
        ));
    } else {
        enc.lemma_bytes_ok(0);
        enc.lemma_bytes_ok(1);
        enc.lemma_bytes_ok(0x10);
        let s = number(enc, 1) + (number(enc, 0x10) + number(enc, 0) + rest);
        assert(head + number(enc, 1) + number(enc, 0x10) + number(enc, 0) + rest =~= head + s);
        law_subscribe_head_is_read(m, version, s);
        lemma_not_forwarded(version, rest);
    }
}

/// An update that leaves all of its parameters out has priority 128 and is forwarded.
pub proof fn law_update_defaults(m: SubscribeUpdate, version: Version, rest: Seq<u8>)
    requires
        version != Version::Draft14,
        m.subscription_request_id is Some <==> version.names_request(),
        update_head(m, version) is Ok,
    ensures
        parse_update(
            update_head(m, version)->Ok_0 + number(version.varint(), 0) + rest,
            version,
        ) matches Ok((read, left)) && {
            &&& left == rest
            &&& read.request_id == m.request_id
            &&& read.subscription_request_id == m.subscription_request_id
            &&& read.subscriber_priority == 128
            &&& read.forward
        },
{
    let enc = version.varint();
    enc.lemma_bytes_ok(0);
    let head = update_head(m, version)->Ok_0;
    assert(head + number(enc, 0) + rest =~= head + (number(enc, 0) + rest));
    law_update_head_is_read(m, version, number(enc, 0) + rest);
    enc.lemma_round_trip(0, rest);
}

/// A parameter that nobody asked for is read past, whatever its value: an integer under an even
/// key, and bytes behind their length under an odd one. The keys that are asked for are 0x10,
/// 0x20, 0x21 and 0x22.
pub proof fn law_unknown_parameter_is_skipped(
    known: Known,
    version: Version,
    prev: u64,
    key: u64,
    value: u64,
    bytes: Seq<u8>,
    rest: Seq<u8>,
    n: nat,
    seen: Seq<u64>,
    acc: Params,
)
    requires
        n > 0,
        prev <= key,
        !seen.contains(key),
        known == Known::Nothing || (key != 0x10 && key != 0x20 && key != 0x21 && key != 0x22),
        fits_quic(key),
        fits_quic(value),
        fits_quic(bytes.len() as u64),
        bytes.len() <= u64::MAX,
    ensures
        ({
            let enc = version.varint();
            let k = key_field(version, prev, key)->Ok_0;
            let stored = if key % 2 == 0 {
                number(enc, value)
            } else {
                number(enc, bytes.len() as u64) + bytes
            };
            parse_entries(known, version, k + stored + rest, n, prev, seen, acc) == parse_entries(
                known,
                version,
                rest,
                (n - 1) as nat,
                key,
                seen.push(key),
                acc,
            )
        }),
{
    let enc = version.varint();
    enc.lemma_bytes_ok(key);
    enc.lemma_bytes_ok((key - prev) as u64);
    enc.lemma_bytes_ok(value);
    enc.lemma_bytes_ok(bytes.len() as u64);
    if key % 2 == 0 {
        enc.lemma_round_trip(value, rest);
        lemma_entry(known, version, prev, key, number(enc, value), rest, n, seen, acc, acc);
    } else {
        let stored = number(enc, bytes.len() as u64) + bytes;
        crate::coding::lemma_bytes_round_trip(enc, bytes, rest);
        lemma_entry(known, version, prev, key, stored, rest, n, seen, acc, acc);
    }
}

/// A key that occurs again is refused, and so are more than 64 parameters, whatever they are.
pub proof fn law_parameters_are_limited(
    known: Known,
    version: Version,
    key: u64,
    prev: u64,
    count: u64,
    rest: Seq<u8>,
    n: nat,
    seen: Seq<u64>,
    acc: Params,
)
    requires
        n > 0,
        prev <= key,
        seen.contains(key),
        fits_quic(key),
        fits_quic(count),
        count > 64,
    ensures
        parse_entries(
            known,
            version,
            key_field(version, prev, key)->Ok_0 + rest,
            n,
            prev,
            seen,
            acc,
        ) == Err::<(Params, Seq<u8>), _>(DecodeError::Duplicate),
        parse_params(known, version, number(version.varint(), count) + rest) == Err::<
            (Params, Seq<u8>),
            _,
        >(DecodeError::TooMany),
{
    let enc = version.varint();
    enc.lemma_bytes_ok(key);
    enc.lemma_bytes_ok((key - prev) as u64);
    enc.lemma_bytes_ok(count);
    enc.lemma_round_trip(count, rest);
    match version {
        Version::Draft14 | Version::Draft15 => {
            enc.lemma_round_trip(key, rest);
        },
        _ => {
            enc.lemma_round_trip((key - prev) as u64, rest);
        },
    }
}

/// Keys are written as they are up to draft 15, and from draft 16 on as the distance from the key
/// before: so a key is read as the sum, and one that is too large is refused.
pub proof fn law_keys_are_counted_on(version: Version, prev: u64, told: u64, rest: Seq<u8>)
    requires
        fits_quic(told),
    ensures
        ({
            let read = parse_key(version, number(version.varint(), told) + rest, prev);
            if version == Version::Draft14 || version == Version::Draft15 {
                read == Ok::<_, DecodeError>((told, rest))
            } else if prev + told <= u64::MAX {
                read == Ok::<_, DecodeError>(((prev + told) as u64, rest))
            } else {
                read == Err::<(u64, Seq<u8>), _>(DecodeError::InvalidValue)
            }
        }),
{
    version.varint().lemma_bytes_ok(told);
    version.varint().lemma_round_trip(told, rest);
}

/// From draft 17 on properties fill the rest of a message, and are read past one after another;
/// before that nothing of what follows is read.
pub proof fn law_properties_are_skipped(
    version: Version,
    prev: u64,
    told: u64,
    value: u64,
    bytes: Seq<u8>,
    rest: Seq<u8>,
)
    requires
        prev + told <= u64::MAX,
        fits_quic(bytes.len() as u64),
        bytes.len() <= u64::MAX,
    ensures
        version == Version::Draft14 || version == Version::Draft15 || version == Version::Draft16
            ==> parse_properties(version, rest) == Ok::<_, DecodeError>(rest),
        version == Version::Draft17 || version == Version::Draft18 || version == Version::Draft19
            ==> {
            let enc = version.varint();
            let key = (prev + told) as u64;
            let stored = if key % 2 == 0 {
                number(enc, value)
            } else {
                number(enc, bytes.len() as u64) + bytes
            };
            &&& skip_properties(version, number(enc, told) + stored + rest, prev)
                == skip_properties(version, rest, key)
            &&& parse_properties(version, Seq::empty()) == Ok::<_, DecodeError>(Seq::<u8>::empty())
        },
{
    let enc = version.varint();
    if !version.names_request() {
        enc.lemma_bytes_ok(told);
        enc.lemma_bytes_len(told);
        enc.lemma_bytes_ok(value);
        enc.lemma_bytes_ok(bytes.len() as u64);
        let key = (prev + told) as u64;
        let stored = if key % 2 == 0 {
            number(enc, value)
        } else {
            number(enc, bytes.len() as u64) + bytes
        };
        let s = number(enc, told) + stored + rest;
        assert(s =~= number(enc, told) + (stored + rest));
        enc.lemma_round_trip(told, stored + rest);
        enc.lemma_round_trip(value, rest);
        if key % 2 != 0 {
            crate::coding::lemma_bytes_round_trip(enc, bytes, rest);
        }
        assert(s.len() > 0);
    }
}

} // verus!
