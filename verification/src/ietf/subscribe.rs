//! The messages of a subscription.

use crate::coding::{
    bytes_field, cat, encode_bool, encode_bytes, encode_string, lemma_bytes_round_trip,
    lemma_wrote_more, parse_bool, parse_bytes, parse_string, parse_u8, read, string_field,
    wrote, DecodeError, EncodeError, Reader, VarInt,
};
use crate::ietf::namespace::{decode_namespace, encode_namespace, namespace_field, parse_namespace};
use crate::ietf::params::{
    decode_params, encode_key, key_field, parse_params, parse_properties, skip, Known, FILTER,
    FORWARD, GROUP_ORDER, SUBSCRIBER_PRIORITY,
};
use crate::ietf::{
    lemma_location_round_trip, location_field, parse_location, parse_request_id, GroupOrder,
    Location, RequestId, Version,
};
use crate::path::{is_path, Path};
use vstd::prelude::*;
use vstd::utf8::encode_utf8;

verus! {

/// From where on, and how far, a subscription delivers.
#[derive(Debug, Clone, Copy, PartialEq, Eq, Structural)]
pub enum FilterType {
    NextGroup,
    LargestObject,
    AbsoluteStart,
    AbsoluteRange,
}

impl Default for FilterType {
    fn default() -> (f: Self)
        ensures
            f == FilterType::LargestObject,
    {
        FilterType::LargestObject
    }
}

impl FilterType {
    /// The number of a filter type.
    pub open spec fn number_spec(self) -> u64 {
        match self {
            FilterType::NextGroup => 1,
            FilterType::LargestObject => 2,
            FilterType::AbsoluteStart => 3,
            FilterType::AbsoluteRange => 4,
        }
    }

    /// The filter type that has a number.
    pub open spec fn of_number_spec(n: u64) -> Result<FilterType, DecodeError> {
        if n == 1 {
            Ok(FilterType::NextGroup)
        } else if n == 2 {
            Ok(FilterType::LargestObject)
        } else if n == 3 {
            Ok(FilterType::AbsoluteStart)
        } else if n == 4 {
            Ok(FilterType::AbsoluteRange)
        } else {
            Err(DecodeError::InvalidValue)
        }
    }

    /// Writes the number of the filter type.
    pub fn encode(&self, w: &mut Vec<u8>, version: Version) -> (res: Result<(), EncodeError>)
        ensures
            wrote(old(w)@, final(w)@, res, version.varint().bytes_of(self.number_spec())),
    {
        let n: u64 = match self {
            FilterType::NextGroup => 1,
            FilterType::LargestObject => 2,
            FilterType::AbsoluteStart => 3,
            FilterType::AbsoluteRange => 4,
        };
        version.varint().encode(n, w)
    }

    /// Reads a filter type.
    pub fn decode(r: &mut Reader, version: Version) -> (res: Result<Self, DecodeError>)
        ensures
            read(final(r)@, res, parse_filter_type(version.varint(), old(r)@)),
    {
        match r.varint(version.varint())? {
            1 => Ok(FilterType::NextGroup),
            2 => Ok(FilterType::LargestObject),
            3 => Ok(FilterType::AbsoluteStart),
            4 => Ok(FilterType::AbsoluteRange),
            _ => Err(DecodeError::InvalidValue),
        }
    }

    /// Writes the filter type as a parameter's value: its number, in bytes behind their length.
    pub fn param_encode(&self, w: &mut Vec<u8>, version: Version) -> (res: Result<(), EncodeError>)
        ensures
            wrote(old(w)@, final(w)@, res, filter_type_param(version.varint(), *self)),
    {
        let mut buf: Vec<u8> = Vec::new();
        self.encode(&mut buf, version)?;
        assert(buf@ =~= version.varint().bytes_of(self.number_spec())->Ok_0);
        encode_bytes(version.varint(), buf.as_slice(), w)
    }

    /// Reads a filter type that is a parameter's value.
    pub fn param_decode(r: &mut Reader, version: Version) -> (res: Result<Self, DecodeError>)
        ensures
            read(final(r)@, res, parse_filter_type_param(version.varint(), old(r)@)),
    {
        let data = r.bytes(version.varint())?;
        let mut buf = Reader::new(data.as_slice());
        FilterType::decode(&mut buf, version)
    }
}

/// The filter type at the start of `s`, and what follows it.
pub open spec fn parse_filter_type(enc: VarInt, s: Seq<u8>) -> Result<
    (FilterType, Seq<u8>),
    DecodeError,
> {
    match enc.parse(s) {
        Err(e) => Err(e),
        Ok((n, rest)) => match FilterType::of_number_spec(n) {
            Err(e) => Err(e),
            Ok(f) => Ok((f, rest)),
        },
    }
}

/// A filter type as a parameter's value.
pub open spec fn filter_type_param(enc: VarInt, f: FilterType) -> Result<Seq<u8>, EncodeError> {
    match enc.bytes_of(f.number_spec()) {
        Err(e) => Err(e),
        Ok(b) => bytes_field(enc, b),
    }
}

/// The filter type that is the parameter's value at the start of `s`, and what follows it.
pub open spec fn parse_filter_type_param(enc: VarInt, s: Seq<u8>) -> Result<
    (FilterType, Seq<u8>),
    DecodeError,
> {
    match parse_bytes(enc, s) {
        Err(e) => Err(e),
        Ok((data, rest)) => match parse_filter_type(enc, data) {
            Err(e) => Err(e),
            Ok((f, _)) => Ok((f, rest)),
        },
    }
}

/// A filter type with the start location and end group that belong to it.
///
/// As a parameter's value it is the filter type, followed by a location when the filter is
/// absolute, followed for a range by the distance of its end group from its start group.
#[derive(Debug, Clone, Copy)]
pub struct FilterWithLocation {
    pub filter_type: FilterType,
    pub start_location: Option<Location>,
    /// The last group, counted absolutely.
    pub end_group: Option<u64>,
}

impl Default for FilterWithLocation {
    fn default() -> (f: Self)
        ensures
            f == (FilterWithLocation {
                filter_type: FilterType::LargestObject,
                start_location: None,
                end_group: None,
            }),
    {
        FilterWithLocation {
            filter_type: FilterType::LargestObject,
            start_location: None,
            end_group: None,
        }
    }
}

/// The start of the track.
pub open spec fn origin() -> Location {
    Location { group: 0, object: 0 }
}

impl FilterWithLocation {
    /// The start of an absolute filter: the start of the track where none is given.
    pub open spec fn start(self) -> Location {
        match self.start_location {
            Some(loc) => loc,
            None => origin(),
        }
    }

    /// The distance of the end group from the start group, none where the end is missing or
    /// lies before the start.
    pub open spec fn end_delta(self) -> u64 {
        match self.end_group {
            Some(end) => if end > self.start().group {
                (end - self.start().group) as u64
            } else {
                0
            },
            None => 0,
        }
    }

    /// What is read of the filter once it was written as a parameter.
    pub open spec fn normal(self) -> FilterWithLocation {
        FilterWithLocation {
            filter_type: self.filter_type,
            start_location: match self.filter_type {
                FilterType::AbsoluteStart | FilterType::AbsoluteRange => Some(self.start()),
                _ => None,
            },
            end_group: match self.filter_type {
                FilterType::AbsoluteRange => Some((self.start().group + self.end_delta()) as u64),
                _ => None,
            },
        }
    }
}

/// What the value of the filter parameter holds.
pub open spec fn filter_inner(enc: VarInt, f: FilterWithLocation) -> Result<Seq<u8>, EncodeError> {
    let kind = enc.bytes_of(f.filter_type.number_spec());
    match f.filter_type {
        FilterType::AbsoluteStart => cat(kind, location_field(f.start(), enc)),
        FilterType::AbsoluteRange => cat(
            cat(kind, location_field(f.start(), enc)),
            enc.bytes_of(f.end_delta()),
        ),
        _ => kind,
    }
}

/// A filter as a parameter's value.
pub open spec fn filter_field(enc: VarInt, f: FilterWithLocation) -> Result<Seq<u8>, EncodeError> {
    match filter_inner(enc, f) {
        Err(e) => Err(e),
        Ok(b) => bytes_field(enc, b),
    }
}

/// The sum, or the largest integer where the sum is larger.
pub open spec fn saturating_sum(a: u64, b: u64) -> u64 {
    if a + b > u64::MAX {
        u64::MAX
    } else {
        (a + b) as u64
    }
}

/// The filter that the value of the filter parameter holds. The location of an absolute
/// filter may be missing, and so may the end of a range.
pub open spec fn parse_filter_inner(enc: VarInt, data: Seq<u8>) -> Result<
    FilterWithLocation,
    DecodeError,
> {
    match parse_filter_type(enc, data) {
        Err(e) => Err(e),
        Ok((filter_type, rest)) => {
            let absolute = filter_type == FilterType::AbsoluteStart || filter_type
                == FilterType::AbsoluteRange;
            if !absolute || rest.len() == 0 {
                Ok(FilterWithLocation { filter_type, start_location: None, end_group: None })
            } else {
                match parse_location(rest, enc) {
                    Err(e) => Err(e),
                    Ok((loc, rest)) => if filter_type == FilterType::AbsoluteStart || rest.len()
                        == 0 {
                        Ok(
                            FilterWithLocation {
                                filter_type,
                                start_location: Some(loc),
                                end_group: None,
                            },
                        )
                    } else {
                        match enc.parse(rest) {
                            Err(e) => Err(e),
                            Ok((delta, _)) => Ok(
                                FilterWithLocation {
                                    filter_type,
                                    start_location: Some(loc),
                                    end_group: Some(saturating_sum(loc.group, delta)),
                                },
                            ),
                        }
                    },
                }
            }
        },
    }
}

/// The filter that is the parameter's value at the start of `s`, and what follows it.
pub open spec fn parse_filter(enc: VarInt, s: Seq<u8>) -> Result<
    (FilterWithLocation, Seq<u8>),
    DecodeError,
> {
    match parse_bytes(enc, s) {
        Err(e) => Err(e),
        Ok((data, rest)) => match parse_filter_inner(enc, data) {
            Err(e) => Err(e),
            Ok(f) => Ok((f, rest)),
        },
    }
}

impl FilterWithLocation {
    /// Writes the filter as a parameter's value.
    pub fn param_encode(&self, w: &mut Vec<u8>, version: Version) -> (res: Result<(), EncodeError>)
        ensures
            wrote(old(w)@, final(w)@, res, filter_field(version.varint(), *self)),
    {
        let enc = version.varint();
        let mut buf: Vec<u8> = Vec::new();
        self.filter_type.encode(&mut buf, version)?;
        let ghost kind = enc.bytes_of(self.filter_type.number_spec())->Ok_0;
        assert(buf@ =~= kind);
        match self.filter_type {
            FilterType::AbsoluteStart => {
                let loc = self.start_location.unwrap_or(Location { group: 0, object: 0 });
                loc.encode(&mut buf, enc)?;
            },
            FilterType::AbsoluteRange => {
                let loc = self.start_location.unwrap_or(Location { group: 0, object: 0 });
                loc.encode(&mut buf, enc)?;
                let end_abs: u64 = self.end_group.unwrap_or(loc.group);
                let delta: u64 = end_abs.saturating_sub(loc.group);
                enc.encode(delta, &mut buf)?;
            },
            _ => {},
        }
        assert(filter_inner(enc, *self) == Ok::<_, EncodeError>(buf@));
        encode_bytes(enc, buf.as_slice(), w)
    }

    /// Reads a filter that is a parameter's value.
    pub fn param_decode(r: &mut Reader, version: Version) -> (res: Result<Self, DecodeError>)
        ensures
            read(final(r)@, res, parse_filter(version.varint(), old(r)@)),
    {
        let enc = version.varint();
        let data = r.bytes(enc)?;
        let mut buf = Reader::new(data.as_slice());
        let filter_type = FilterType::decode(&mut buf, version)?;
        let (start_location, end_group): (Option<Location>, Option<u64>) = match filter_type {
            FilterType::AbsoluteStart if buf.has_remaining() => {
                let loc = Location::decode(&mut buf, enc)?;
                (Some(loc), None)
            },
            FilterType::AbsoluteRange if buf.has_remaining() => {
                let loc = Location::decode(&mut buf, enc)?;
                let end: Option<u64> = if buf.has_remaining() {
                    let delta: u64 = buf.varint(enc)?;
                    Some(loc.group.saturating_add(delta))
                } else {
                    None
                };
                (Some(loc), end)
            },
            _ => (None, None),
        };
        Ok(FilterWithLocation { filter_type, start_location, end_group })
    }
}

/// Of a filter that was written as a parameter, its normal form is read, and nothing of what
/// follows.
pub proof fn lemma_filter_round_trip(enc: VarInt, f: FilterWithLocation, rest: Seq<u8>)
    requires
        filter_field(enc, f) is Ok,
    ensures
        parse_filter(enc, filter_field(enc, f)->Ok_0 + rest) == Ok::<_, DecodeError>(
            (f.normal(), rest),
        ),
{
    let inner = filter_inner(enc, f)->Ok_0;
    let kind = enc.bytes_of(f.filter_type.number_spec())->Ok_0;
    assert(kind + Seq::<u8>::empty() =~= kind);
    match f.filter_type {
        FilterType::AbsoluteStart => {
            let loc = location_field(f.start(), enc)->Ok_0;
            enc.lemma_round_trip(f.filter_type.number_spec(), loc);
            enc.lemma_bytes_len(f.start().group);
            crate::ietf::lemma_location_round_trip(f.start(), enc, Seq::empty());
            assert(loc + Seq::<u8>::empty() =~= loc);
            assert(inner.len() <= 27) by {
                enc.lemma_bytes_len(f.filter_type.number_spec());
                enc.lemma_bytes_len(f.start().object);
            }
        },
        FilterType::AbsoluteRange => {
            let loc = location_field(f.start(), enc)->Ok_0;
            let end = enc.bytes_of(f.end_delta())->Ok_0;
            enc.lemma_bytes_len(f.end_delta());
            enc.lemma_bytes_len(f.start().group);
            enc.lemma_round_trip(f.filter_type.number_spec(), loc + end);
            assert(kind + loc + end =~= kind + (loc + end));
            crate::ietf::lemma_location_round_trip(f.start(), enc, end);
            enc.lemma_round_trip(f.end_delta(), Seq::empty());
            assert(end + Seq::<u8>::empty() =~= end);
            assert(inner.len() <= 36) by {
                enc.lemma_bytes_len(f.filter_type.number_spec());
                enc.lemma_bytes_len(f.start().object);
            }
        },
        _ => {
            enc.lemma_round_trip(f.filter_type.number_spec(), Seq::empty());
            enc.lemma_bytes_len(f.filter_type.number_spec());
        },
    }
    lemma_bytes_round_trip(enc, inner, rest);
}

/// Subscribe message (0x03).
///
/// Sent by the subscriber to request all future objects for the given track.
#[derive(Debug, Clone)]
pub struct Subscribe {
    pub request_id: RequestId,
    pub track_namespace: Path,
    pub track_name: String,
    pub subscriber_priority: u8,
    pub group_order: GroupOrder,
    pub filter_type: FilterType,
    /// Start location for `FilterType::AbsoluteStart` and `FilterType::AbsoluteRange`.
    /// Ignored for other filter types.
    pub start_location: Option<Location>,
    /// Absolute end group (inclusive) for `FilterType::AbsoluteRange`. The publisher
    /// delivers groups up to and including this sequence, then finishes the subscription.
    /// `None` when the filter has no end bound.
    pub end_group: Option<u64>,
}

/// What a subscribe message says.
pub struct SubscribeView {
    pub request_id: RequestId,
    pub track_namespace: Seq<Seq<char>>,
    pub track_name: Seq<char>,
    pub subscriber_priority: u8,
    pub group_order: GroupOrder,
    pub filter: FilterWithLocation,
}

impl SubscribeView {
    /// Whether the namespace is one of a path, and the name has a length that can be counted:
    /// so it is of every message in memory.
    pub open spec fn can_be_read(self) -> bool {
        is_path(self.track_namespace) && encode_utf8(self.track_name).len() <= u64::MAX
    }
}

impl View for Subscribe {
    type V = SubscribeView;

    open spec fn view(&self) -> SubscribeView {
        SubscribeView {
            request_id: self.request_id,
            track_namespace: self.track_namespace@,
            track_name: self.track_name@,
            subscriber_priority: self.subscriber_priority,
            group_order: self.group_order,
            filter: FilterWithLocation {
                filter_type: self.filter_type,
                start_location: self.start_location,
                end_group: self.end_group,
            },
        }
    }
}

/// The identifier of a request that another one waits for; only draft 17 has it, and it is
/// always zero here.
pub open spec fn delta_field(version: Version) -> Result<Seq<u8>, EncodeError> {
    if version == Version::Draft17 {
        version.varint().bytes_of(0)
    } else {
        Ok(Seq::empty())
    }
}

/// What follows that identifier, whatever it is.
pub open spec fn skip_delta(version: Version, s: Seq<u8>) -> Result<Seq<u8>, DecodeError> {
    if version == Version::Draft17 {
        match version.varint().parse(s) {
            Err(e) => Err(e),
            Ok((_, rest)) => Ok(rest),
        }
    } else {
        Ok(s)
    }
}

/// The filter as draft 14 has it in the message itself: a range ends at an absolute group,
/// which is zero where it is missing.
pub open spec fn filter_field_14(enc: VarInt, f: FilterWithLocation) -> Result<
    Seq<u8>,
    EncodeError,
> {
    let kind = enc.bytes_of(f.filter_type.number_spec());
    match f.filter_type {
        FilterType::AbsoluteStart => cat(kind, location_field(f.start(), enc)),
        FilterType::AbsoluteRange => cat(
            cat(kind, location_field(f.start(), enc)),
            enc.bytes_of(end_14(f)),
        ),
        _ => kind,
    }
}

/// The absolute end group that draft 14 writes for a range.
pub open spec fn end_14(f: FilterWithLocation) -> u64 {
    match f.end_group {
        Some(end) => end,
        None => 0,
    }
}

/// The filter at the start of `s` as draft 14 has it, and what follows it.
pub open spec fn parse_filter_14(enc: VarInt, s: Seq<u8>) -> Result<
    (FilterWithLocation, Seq<u8>),
    DecodeError,
> {
    match parse_filter_type(enc, s) {
        Err(e) => Err(e),
        Ok((filter_type, rest)) => match filter_type {
            FilterType::AbsoluteStart => match parse_location(rest, enc) {
                Err(e) => Err(e),
                Ok((loc, rest)) => Ok(
                    (
                        FilterWithLocation {
                            filter_type,
                            start_location: Some(loc),
                            end_group: None,
                        },
                        rest,
                    ),
                ),
            },
            FilterType::AbsoluteRange => match parse_location(rest, enc) {
                Err(e) => Err(e),
                Ok((loc, rest)) => match enc.parse(rest) {
                    Err(e) => Err(e),
                    Ok((end, rest)) => Ok(
                        (
                            FilterWithLocation {
                                filter_type,
                                start_location: Some(loc),
                                end_group: Some(end),
                            },
                            rest,
                        ),
                    ),
                },
            },
            _ => Ok(
                (FilterWithLocation { filter_type, start_location: None, end_group: None }, rest),
            ),
        },
    }
}

/// What is read of a filter once it was written: under draft 14 a range keeps an end before
/// its start, under the others it then ends where it starts.
pub open spec fn read_back(version: Version, f: FilterWithLocation) -> FilterWithLocation {
    if version == Version::Draft14 && f.filter_type == FilterType::AbsoluteRange {
        FilterWithLocation { end_group: Some(end_14(f)), ..f.normal() }
    } else {
        f.normal()
    }
}

/// One parameter: its key, behind the key `prev`, and its value.
pub open spec fn entry(
    version: Version,
    prev: u64,
    key: u64,
    value: Result<Seq<u8>, EncodeError>,
) -> Result<Seq<u8>, EncodeError> {
    cat(key_field(version, prev, key), value)
}

/// The integer of a yes or no.
pub open spec fn flag(b: bool) -> u64 {
    if b {
        1
    } else {
        0
    }
}

/// The part of a subscribe message before what the drafts write differently.
pub open spec fn subscribe_head(m: SubscribeView, version: Version) -> Result<
    Seq<u8>,
    EncodeError,
> {
    let enc = version.varint();
    cat(
        cat(
            cat(enc.bytes_of(m.request_id.0), delta_field(version)),
            namespace_field(enc, m.track_namespace),
        ),
        string_field(enc, m.track_name),
    )
}

/// The rest of a subscribe message in draft 14: plain fields, and no parameters.
pub open spec fn subscribe_fields(m: SubscribeView, version: Version) -> Result<
    Seq<u8>,
    EncodeError,
> {
    cat(
        cat(
            Ok(seq![m.subscriber_priority, m.group_order.number(), 1u8]),
            filter_field_14(version.varint(), m.filter),
        ),
        Ok(seq![0u8]),
    )
}

/// The rest of a subscribe message from draft 15 on: four parameters.
pub open spec fn subscribe_params(m: SubscribeView, version: Version) -> Result<
    Seq<u8>,
    EncodeError,
> {
    let enc = version.varint();
    cat(
        cat(
            cat(
                cat(enc.bytes_of(4), entry(version, 0, FORWARD, enc.bytes_of(1))),
                entry(
                    version,
                    FORWARD,
                    SUBSCRIBER_PRIORITY,
                    enc.bytes_of(m.subscriber_priority as u64),
                ),
            ),
            entry(version, SUBSCRIBER_PRIORITY, FILTER, filter_field(enc, m.filter)),
        ),
        entry(version, FILTER, GROUP_ORDER, enc.bytes_of(m.group_order.number() as u64)),
    )
}

/// A subscribe message.
pub open spec fn subscribe_bytes(m: SubscribeView, version: Version) -> Result<
    Seq<u8>,
    EncodeError,
> {
    cat(
        subscribe_head(m, version),
        if version == Version::Draft14 {
            subscribe_fields(m, version)
        } else {
            subscribe_params(m, version)
        },
    )
}

/// The rest of a subscribe message at the start of `s` in draft 14, and what follows it. A
/// subscription that does not forward is not supported.
pub open spec fn parse_subscribe_fields(
    request_id: RequestId,
    track_namespace: Seq<Seq<char>>,
    track_name: Seq<char>,
    s: Seq<u8>,
    version: Version,
) -> Result<(SubscribeView, Seq<u8>), DecodeError> {
    let enc = version.varint();
    match parse_u8(s) {
        Err(e) => Err(e),
        Ok((subscriber_priority, s)) => match parse_u8(s) {
            Err(e) => Err(e),
            Ok((order, s)) => match GroupOrder::of_number_spec(order as u64) {
                Err(e) => Err(e),
                Ok(group_order) => match parse_bool(s) {
                    Err(e) => Err(e),
                    Ok((forward, s)) => if !forward {
                        Err(DecodeError::Unsupported)
                    } else {
                        match parse_filter_14(enc, s) {
                            Err(e) => Err(e),
                            Ok((filter, s)) => match parse_params(Known::Nothing, version, s) {
                                Err(e) => Err(e),
                                Ok((_, s)) => Ok(
                                    (
                                        SubscribeView {
                                            request_id,
                                            track_namespace,
                                            track_name,
                                            subscriber_priority,
                                            group_order,
                                            filter,
                                        },
                                        s,
                                    ),
                                ),
                            },
                        }
                    },
                },
            },
        },
    }
}

/// The rest of a subscribe message at the start of `s` from draft 15 on, and what follows it.
/// A parameter that is missing has its default; a subscription that does not forward is not
/// supported.
pub open spec fn parse_subscribe_params(
    request_id: RequestId,
    track_namespace: Seq<Seq<char>>,
    track_name: Seq<char>,
    s: Seq<u8>,
    version: Version,
) -> Result<(SubscribeView, Seq<u8>), DecodeError> {
    match parse_params(Known::Subscribe, version, s) {
        Err(e) => Err(e),
        Ok((params, s)) => if params.forward == Some(false) {
            Err(DecodeError::Unsupported)
        } else {
            Ok(
                (
                    SubscribeView {
                        request_id,
                        track_namespace,
                        track_name,
                        subscriber_priority: match params.subscriber_priority {
                            Some(p) => p,
                            None => 128,
                        },
                        group_order: match params.group_order {
                            Some(o) => o,
                            None => GroupOrder::Descending,
                        },
                        filter: match params.filter {
                            Some(f) => f,
                            None => FilterWithLocation {
                                filter_type: FilterType::LargestObject,
                                start_location: None,
                                end_group: None,
                            },
                        },
                    },
                    s,
                ),
            )
        },
    }
}

/// The subscribe message at the start of `s`, and what follows it.
pub open spec fn parse_subscribe(s: Seq<u8>, version: Version) -> Result<
    (SubscribeView, Seq<u8>),
    DecodeError,
> {
    match parse_request_id(s, version) {
        Err(e) => Err(e),
        Ok((id, s)) => match skip_delta(version, s) {
            Err(e) => Err(e),
            Ok(s) => match parse_namespace(version.varint(), s) {
                Err(e) => Err(e),
                Ok((namespace, s)) => match parse_string(version.varint(), s) {
                    Err(e) => Err(e),
                    Ok((name, s)) => if version == Version::Draft14 {
                        parse_subscribe_fields(id, namespace, name, s, version)
                    } else {
                        parse_subscribe_params(id, namespace, name, s, version)
                    },
                },
            },
        },
    }
}

/// Writes the identifier that only draft 17 has.
fn encode_delta(w: &mut Vec<u8>, version: Version) -> (res: Result<(), EncodeError>)
    ensures
        wrote(old(w)@, final(w)@, res, delta_field(version)),
{
    if version == Version::Draft17 {
        version.varint().encode(0, w)
    } else {
        assert(w@ + Seq::<u8>::empty() =~= w@);
        Ok(())
    }
}

/// Reads past the identifier that only draft 17 has.
fn decode_delta(r: &mut Reader, version: Version) -> (res: Result<(), DecodeError>)
    ensures
        match skip_delta(version, old(r)@) {
            Ok(rest) => res is Ok && final(r)@ == rest,
            Err(e) => res == Err::<(), _>(e),
        },
{
    if version == Version::Draft17 {
        let _required_request_id_delta: u64 = r.varint(version.varint())?;
    }
    Ok(())
}

/// Writes a filter as draft 14 has it.
fn encode_filter_14(f: &FilterWithLocation, w: &mut Vec<u8>, version: Version) -> (res: Result<
    (),
    EncodeError,
>)
    ensures
        wrote(old(w)@, final(w)@, res, filter_field_14(version.varint(), *f)),
{
    let enc = version.varint();
    f.filter_type.encode(w, version)?;
    match f.filter_type {
        FilterType::AbsoluteStart => {
            let loc = f.start_location.unwrap_or(Location { group: 0, object: 0 });
            loc.encode(w, enc)?;
        },
        FilterType::AbsoluteRange => {
            let loc = f.start_location.unwrap_or(Location { group: 0, object: 0 });
            loc.encode(w, enc)?;
            let end: u64 = f.end_group.unwrap_or(0);
            enc.encode(end, w)?;
        },
        _ => {},
    }
    assert(w@ =~= old(w)@ + filter_field_14(enc, *f)->Ok_0);
    Ok(())
}

/// Reads a filter as draft 14 has it.
fn decode_filter_14(r: &mut Reader, version: Version) -> (res: Result<
    FilterWithLocation,
    DecodeError,
>)
    ensures
        read(final(r)@, res, parse_filter_14(version.varint(), old(r)@)),
{
    let enc = version.varint();
    let filter_type = FilterType::decode(r, version)?;
    let (start_location, end_group): (Option<Location>, Option<u64>) = match filter_type {
        FilterType::AbsoluteStart => (Some(Location::decode(r, enc)?), None),
        FilterType::AbsoluteRange => {
            let start = Location::decode(r, enc)?;
            let end: u64 = r.varint(enc)?;
            (Some(start), Some(end))
        },
        FilterType::NextGroup | FilterType::LargestObject => (None, None),
    };
    Ok(FilterWithLocation { filter_type, start_location, end_group })
}

/// Writes a parameter whose value is an integer.
fn encode_entry(w: &mut Vec<u8>, version: Version, prev: u64, key: u64, value: u64) -> (res: Result<
    (),
    EncodeError,
>)
    requires
        prev <= key,
    ensures
        wrote(
            old(w)@,
            final(w)@,
            res,
            entry(version, prev, key, version.varint().bytes_of(value)),
        ),
{
    encode_key(w, version, prev, key)?;
    version.varint().encode(value, w)?;
    assert(w@ =~= old(w)@ + entry(version, prev, key, version.varint().bytes_of(value))->Ok_0);
    Ok(())
}

/// Writes the filter parameter.
fn encode_filter_entry(w: &mut Vec<u8>, version: Version, prev: u64, f: FilterWithLocation) -> (res:
    Result<(), EncodeError>)
    requires
        prev <= FILTER,
    ensures
        wrote(
            old(w)@,
            final(w)@,
            res,
            entry(version, prev, FILTER, filter_field(version.varint(), f)),
        ),
{
    encode_key(w, version, prev, FILTER)?;
    f.param_encode(w, version)?;
    assert(w@ =~= old(w)@ + entry(
        version,
        prev,
        FILTER,
        filter_field(version.varint(), f),
    )->Ok_0);
    Ok(())
}

impl Subscribe {
    /// The type of the message.
    pub const ID: u64 = 0x03;

    /// The filter with what belongs to it.
    fn filter(&self) -> (f: FilterWithLocation)
        ensures
            f == self@.filter,
    {
        FilterWithLocation {
            filter_type: self.filter_type,
            start_location: self.start_location,
            end_group: self.end_group,
        }
    }

    /// Writes the part that all drafts have.
    fn encode_head(&self, w: &mut Vec<u8>, version: Version) -> (res: Result<(), EncodeError>)
        ensures
            wrote(old(w)@, final(w)@, res, subscribe_head(self@, version)),
            res is Ok ==> self@.can_be_read(),
    {
        self.request_id.encode(w, version)?;
        encode_delta(w, version)?;
        encode_namespace(w, &self.track_namespace, version)?;
        encode_string(version.varint(), self.track_name.as_str(), w)?;
        assert(w@ =~= old(w)@ + subscribe_head(self@, version)->Ok_0);
        Ok(())
    }

    /// Writes the plain fields of draft 14.
    fn encode_fields(&self, w: &mut Vec<u8>, version: Version) -> (res: Result<(), EncodeError>)
        ensures
            wrote(old(w)@, final(w)@, res, subscribe_fields(self@, version)),
    {
        w.push(self.subscriber_priority);
        w.push(self.group_order.number());
        encode_bool(true, w)?;
        encode_filter_14(&self.filter(), w, version)?;
        w.push(0);
        assert(w@ =~= old(w)@ + subscribe_fields(self@, version)->Ok_0);
        Ok(())
    }

    /// Writes the parameters of the later drafts.
    fn encode_params(&self, w: &mut Vec<u8>, version: Version) -> (res: Result<(), EncodeError>)
        ensures
            wrote(old(w)@, final(w)@, res, subscribe_params(self@, version)),
    {
        let ghost enc = version.varint();
        let ghost start = w@;
        let priority: u64 = self.subscriber_priority as u64;
        let order: u64 = self.group_order.number() as u64;
        version.varint().encode(4, w)?;
        let ghost w0 = w@;
        let ghost p0 = enc.bytes_of(4);
        let res = encode_entry(w, version, 0, FORWARD, 1);
        let ghost e1 = entry(version, 0, FORWARD, enc.bytes_of(1));
        proof {
            lemma_wrote_more(start, w0, w@, res, p0, e1);
        }
        res?;
        let ghost w1 = w@;
        let ghost p1 = cat(p0, e1);
        let res = encode_entry(w, version, FORWARD, SUBSCRIBER_PRIORITY, priority);
        let ghost e2 = entry(version, FORWARD, SUBSCRIBER_PRIORITY, enc.bytes_of(priority));
        proof {
            lemma_wrote_more(start, w1, w@, res, p1, e2);
        }
        res?;
        let ghost w2 = w@;
        let ghost p2 = cat(p1, e2);
        let res = encode_filter_entry(w, version, SUBSCRIBER_PRIORITY, self.filter());
        let ghost e3 = entry(version, SUBSCRIBER_PRIORITY, FILTER, filter_field(enc, self@.filter));
        proof {
            lemma_wrote_more(start, w2, w@, res, p2, e3);
        }
        res?;
        let ghost w3 = w@;
        let ghost p3 = cat(p2, e3);
        let res = encode_entry(w, version, FILTER, GROUP_ORDER, order);
        let ghost e4 = entry(version, FILTER, GROUP_ORDER, enc.bytes_of(order));
        proof {
            lemma_wrote_more(start, w3, w@, res, p3, e4);
        }
        res
    }

    /// Writes the message.
    pub fn encode_msg(&self, w: &mut Vec<u8>, version: Version) -> (res: Result<(), EncodeError>)
        ensures
            wrote(old(w)@, final(w)@, res, subscribe_bytes(self@, version)),
            res is Ok ==> self@.can_be_read(),
    {
        self.encode_head(w, version)?;
        match version {
            Version::Draft14 => self.encode_fields(w, version)?,
            _ => self.encode_params(w, version)?,
        }
        assert(w@ =~= old(w)@ + subscribe_bytes(self@, version)->Ok_0);
        Ok(())
    }

    /// Reads the message.
    pub fn decode_msg(r: &mut Reader, version: Version) -> (res: Result<Self, DecodeError>)
        ensures
            match parse_subscribe(old(r)@, version) {
                Ok((m, rest)) => res matches Ok(v) && v@ == m && final(r)@ == rest,
                Err(e) => res == Err::<Self, _>(e),
            },
    {
        let request_id = RequestId::decode(r, version)?;
        decode_delta(r, version)?;
        let track_namespace = decode_namespace(r, version)?;
        let track_name = r.string(version.varint())?;
        match version {
            Version::Draft14 => {
                let subscriber_priority: u8 = r.u8()?;
                let group_order = GroupOrder::of_number(r.u8()? as u64)?;
                let forward = r.bool()?;
                if !forward {
                    return Err(DecodeError::Unsupported);
                }
                let filter = decode_filter_14(r, version)?;
                let _params = decode_params(r, Known::Nothing, version)?;
                Ok(
                    Subscribe {
                        request_id,
                        track_namespace,
                        track_name,
                        subscriber_priority,
                        group_order,
                        filter_type: filter.filter_type,
                        start_location: filter.start_location,
                        end_group: filter.end_group,
                    },
                )
            },
            _ => {
                let params = decode_params(r, Known::Subscribe, version)?;
                if let Some(false) = params.forward {
                    return Err(DecodeError::Unsupported);
                }
                let subscriber_priority: u8 = params.subscriber_priority.unwrap_or(128);
                let group_order = params.group_order.unwrap_or(GroupOrder::Descending);
                let filter = match params.filter {
                    Some(filter) => filter,
                    None => FilterWithLocation::default(),
                };
                Ok(
                    Subscribe {
                        request_id,
                        track_namespace,
                        track_name,
                        subscriber_priority,
                        group_order,
                        filter_type: filter.filter_type,
                        start_location: filter.start_location,
                        end_group: filter.end_group,
                    },
                )
            },
        }
    }
}

/// SubscribeOk message (0x04).
#[derive(Debug, Clone, Copy, PartialEq, Eq, Structural)]
pub struct SubscribeOk {
    /// The request that is accepted; drafts 17 and later do not name it.
    pub request_id: Option<RequestId>,
    pub track_alias: u64,
}

/// What a subscribe-ok message holds before what the drafts write differently.
pub open spec fn subscribe_ok_head(m: SubscribeOk, version: Version) -> Result<
    Seq<u8>,
    EncodeError,
> {
    let enc = version.varint();
    cat(
        match m.request_id {
            Some(id) => enc.bytes_of(id.0),
            None => Ok(Seq::empty()),
        },
        enc.bytes_of(m.track_alias),
    )
}

/// A subscribe-ok message: draft 14 says that it does not expire, in descending order, without
/// content or parameters; the later drafts give the order as a parameter.
pub open spec fn subscribe_ok_bytes(m: SubscribeOk, version: Version) -> Result<
    Seq<u8>,
    EncodeError,
> {
    let enc = version.varint();
    cat(
        subscribe_ok_head(m, version),
        if version == Version::Draft14 {
            cat(enc.bytes_of(0), Ok(seq![2u8, 0u8, 0u8]))
        } else {
            cat(enc.bytes_of(1), entry(version, 0, GROUP_ORDER, enc.bytes_of(2)))
        },
    )
}

/// What follows a place that is only there where content exists.
pub open spec fn skip_largest(enc: VarInt, s: Seq<u8>) -> Result<Seq<u8>, DecodeError> {
    match parse_bool(s) {
        Err(e) => Err(e),
        Ok((exists, s)) => if !exists {
            Ok(s)
        } else {
            match parse_location(s, enc) {
                Err(e) => Err(e),
                Ok((_, s)) => Ok(s),
            }
        },
    }
}

/// What follows the rest of a subscribe-ok message. One that expires is not supported.
pub open spec fn skip_subscribe_ok(s: Seq<u8>, version: Version) -> Result<Seq<u8>, DecodeError> {
    let enc = version.varint();
    if version == Version::Draft14 {
        match enc.parse(s) {
            Err(e) => Err(e),
            Ok((expires, s)) => if expires != 0 {
                Err(DecodeError::Unsupported)
            } else {
                match parse_u8(s) {
                    Err(e) => Err(e),
                    Ok((_, s)) => match skip_largest(enc, s) {
                        Err(e) => Err(e),
                        Ok(s) => match parse_params(Known::Nothing, version, s) {
                            Err(e) => Err(e),
                            Ok((_, s)) => Ok(s),
                        },
                    },
                }
            },
        }
    } else {
        match parse_params(Known::SubscribeOk, version, s) {
            Err(e) => Err(e),
            Ok((_, s)) => parse_properties(version, s),
        }
    }
}

/// The request that an answer names at the start of `s`, if the draft names it, and what
/// follows it.
pub open spec fn parse_named_request(s: Seq<u8>, version: Version) -> Result<
    (Option<RequestId>, Seq<u8>),
    DecodeError,
> {
    if version.names_request() {
        match parse_request_id(s, version) {
            Err(e) => Err(e),
            Ok((id, s)) => Ok((Some(id), s)),
        }
    } else {
        Ok((None, s))
    }
}

/// The subscribe-ok message at the start of `s`, and what follows it.
pub open spec fn parse_subscribe_ok(s: Seq<u8>, version: Version) -> Result<
    (SubscribeOk, Seq<u8>),
    DecodeError,
> {
    match parse_named_request(s, version) {
        Err(e) => Err(e),
        Ok((request_id, s)) => match version.varint().parse(s) {
            Err(e) => Err(e),
            Ok((track_alias, s)) => match skip_subscribe_ok(s, version) {
                Err(e) => Err(e),
                Ok(s) => Ok((SubscribeOk { request_id, track_alias }, s)),
            },
        },
    }
}

impl SubscribeOk {
    /// The type of the message.
    pub const ID: u64 = 0x04;

    /// Writes the message. It names its request exactly where the draft has a place for it.
    pub fn encode_msg(&self, w: &mut Vec<u8>, version: Version) -> (res: Result<(), EncodeError>)
        requires
            self.request_id is Some <==> version.names_request(),
        ensures
            wrote(old(w)@, final(w)@, res, subscribe_ok_bytes(*self, version)),
    {
        let enc = version.varint();
        match self.request_id {
            Some(id) => id.encode(w, version)?,
            None => {
                assert(w@ + Seq::<u8>::empty() =~= w@);
            },
        }
        enc.encode(self.track_alias, w)?;
        assert(w@ =~= old(w)@ + subscribe_ok_head(*self, version)->Ok_0);
        match version {
            Version::Draft14 => {
                enc.encode(0, w)?;
                w.push(GroupOrder::Descending.number());
                encode_bool(false, w)?;
                w.push(0);
            },
            _ => {
                enc.encode(1, w)?;
                encode_entry(w, version, 0, GROUP_ORDER, 2)?;
            },
        }
        assert(w@ =~= old(w)@ + subscribe_ok_bytes(*self, version)->Ok_0);
        Ok(())
    }

    /// Reads the message.
    pub fn decode_msg(r: &mut Reader, version: Version) -> (res: Result<Self, DecodeError>)
        ensures
            read(final(r)@, res, parse_subscribe_ok(old(r)@, version)),
    {
        let enc = version.varint();
        let request_id = if version.names_request() {
            Some(RequestId::decode(r, version)?)
        } else {
            None
        };
        let track_alias: u64 = r.varint(enc)?;
        match version {
            Version::Draft14 => {
                let expires: u64 = r.varint(enc)?;
                if expires != 0 {
                    return Err(DecodeError::Unsupported);
                }
                let _group_order: u8 = r.u8()?;
                if r.bool()? {
                    let _largest = Location::decode(r, enc)?;
                }
                let _params = decode_params(r, Known::Nothing, version)?;
            },
            _ => {
                let _params = decode_params(r, Known::SubscribeOk, version)?;
                skip(r, version)?;
            },
        }
        Ok(SubscribeOk { request_id, track_alias })
    }
}

/// SubscribeError message (0x05).
#[derive(Debug, Clone)]
pub struct SubscribeError {
    pub request_id: RequestId,
    pub error_code: u64,
    pub reason_phrase: String,
}

/// A subscribe-error message.
pub open spec fn subscribe_error_bytes(
    request_id: RequestId,
    error_code: u64,
    reason_phrase: Seq<char>,
    version: Version,
) -> Result<Seq<u8>, EncodeError> {
    let enc = version.varint();
    cat(
        cat(enc.bytes_of(request_id.0), enc.bytes_of(error_code)),
        string_field(enc, reason_phrase),
    )
}

/// The subscribe-error message at the start of `s`, and what follows it.
pub open spec fn parse_subscribe_error(s: Seq<u8>, version: Version) -> Result<
    (RequestId, u64, Seq<char>, Seq<u8>),
    DecodeError,
> {
    match parse_request_id(s, version) {
        Err(e) => Err(e),
        Ok((id, s)) => match version.varint().parse(s) {
            Err(e) => Err(e),
            Ok((code, s)) => match parse_string(version.varint(), s) {
                Err(e) => Err(e),
                Ok((reason, s)) => Ok((id, code, reason, s)),
            },
        },
    }
}

impl SubscribeError {
    /// The type of the message.
    pub const ID: u64 = 0x05;

    /// Writes the message.
    pub fn encode_msg(&self, w: &mut Vec<u8>, version: Version) -> (res: Result<(), EncodeError>)
        ensures
            wrote(
                old(w)@,
                final(w)@,
                res,
                subscribe_error_bytes(
                    self.request_id,
                    self.error_code,
                    self.reason_phrase@,
                    version,
                ),
            ),
    {
        self.request_id.encode(w, version)?;
        version.varint().encode(self.error_code, w)?;
        encode_string(version.varint(), self.reason_phrase.as_str(), w)?;
        assert(w@ =~= old(w)@ + subscribe_error_bytes(
            self.request_id,
            self.error_code,
            self.reason_phrase@,
            version,
        )->Ok_0);
        Ok(())
    }

    /// Reads the message.
    pub fn decode_msg(r: &mut Reader, version: Version) -> (res: Result<Self, DecodeError>)
        ensures
            match parse_subscribe_error(old(r)@, version) {
                Ok((id, code, reason, rest)) => {
                    &&& res matches Ok(m)
                    &&& m.request_id == id
                    &&& m.error_code == code
                    &&& m.reason_phrase@ == reason
                    &&& final(r)@ == rest
                },
                Err(e) => res == Err::<Self, _>(e),
            },
    {
        let request_id = RequestId::decode(r, version)?;
        let error_code: u64 = r.varint(version.varint())?;
        let reason_phrase = r.string(version.varint())?;
        Ok(SubscribeError { request_id, error_code, reason_phrase })
    }
}

/// Unsubscribe message (0x0a).
#[derive(Debug, Clone, Copy, PartialEq, Eq, Structural)]
pub struct Unsubscribe {
    pub request_id: RequestId,
}

/// The unsubscribe message at the start of `s`, and what follows it.
pub open spec fn parse_unsubscribe(s: Seq<u8>, version: Version) -> Result<
    (Unsubscribe, Seq<u8>),
    DecodeError,
> {
    match parse_request_id(s, version) {
        Err(e) => Err(e),
        Ok((request_id, s)) => Ok((Unsubscribe { request_id }, s)),
    }
}

impl Unsubscribe {
    /// The type of the message.
    pub const ID: u64 = 0x0a;

    /// Writes the message.
    pub fn encode_msg(&self, w: &mut Vec<u8>, version: Version) -> (res: Result<(), EncodeError>)
        ensures
            wrote(old(w)@, final(w)@, res, version.varint().bytes_of(self.request_id.0)),
    {
        self.request_id.encode(w, version)
    }

    /// Reads the message.
    pub fn decode_msg(r: &mut Reader, version: Version) -> (res: Result<Self, DecodeError>)
        ensures
            read(final(r)@, res, parse_unsubscribe(old(r)@, version)),
    {
        let request_id = RequestId::decode(r, version)?;
        Ok(Unsubscribe { request_id })
    }
}

/// SubscribeUpdate message (0x02).
#[derive(Debug, Clone, Copy, PartialEq, Eq, Structural)]
pub struct SubscribeUpdate {
    pub request_id: RequestId,
    /// The subscription that is updated; drafts 17 and later do not name it.
    pub subscription_request_id: Option<RequestId>,
    pub start_location: Location,
    pub end_group: u64,
    pub subscriber_priority: u8,
    pub forward: bool,
}

/// The requests that an update names.
pub open spec fn update_head(m: SubscribeUpdate, version: Version) -> Result<
    Seq<u8>,
    EncodeError,
> {
    let enc = version.varint();
    cat(
        enc.bytes_of(m.request_id.0),
        match m.subscription_request_id {
            Some(id) => enc.bytes_of(id.0),
            None => delta_field(version),
        },
    )
}

/// The rest of an update in draft 14: plain fields, and no parameters.
pub open spec fn update_fields(m: SubscribeUpdate, version: Version) -> Result<
    Seq<u8>,
    EncodeError,
> {
    let enc = version.varint();
    cat(
        cat(location_field(m.start_location, enc), enc.bytes_of(m.end_group)),
        Ok(seq![m.subscriber_priority, flag(m.forward) as u8, 0u8]),
    )
}

/// The rest of an update from draft 15 on: three parameters, of which the filter is always
/// the same.
pub open spec fn update_params(m: SubscribeUpdate, version: Version) -> Result<
    Seq<u8>,
    EncodeError,
> {
    let enc = version.varint();
    cat(
        cat(
            cat(enc.bytes_of(3), entry(version, 0, FORWARD, enc.bytes_of(flag(m.forward)))),
            entry(
                version,
                FORWARD,
                SUBSCRIBER_PRIORITY,
                enc.bytes_of(m.subscriber_priority as u64),
            ),
        ),
        entry(
            version,
            SUBSCRIBER_PRIORITY,
            FILTER,
            filter_type_param(enc, FilterType::LargestObject),
        ),
    )
}

/// A subscribe-update message.
pub open spec fn update_bytes(m: SubscribeUpdate, version: Version) -> Result<
    Seq<u8>,
    EncodeError,
> {
    cat(
        update_head(m, version),
        if version == Version::Draft14 {
            update_fields(m, version)
        } else {
            update_params(m, version)
        },
    )
}

/// The subscription that an update names at the start of `s`, if the draft names it, and what
/// follows it.
pub open spec fn parse_updated(s: Seq<u8>, version: Version) -> Result<
    (Option<RequestId>, Seq<u8>),
    DecodeError,
> {
    if version.names_request() {
        parse_named_request(s, version)
    } else {
        match skip_delta(version, s) {
            Err(e) => Err(e),
            Ok(s) => Ok((None, s)),
        }
    }
}

/// The update at the start of `s` in draft 14, behind the requests, and what follows it.
pub open spec fn parse_update_fields(
    request_id: RequestId,
    subscription_request_id: Option<RequestId>,
    s: Seq<u8>,
    version: Version,
) -> Result<(SubscribeUpdate, Seq<u8>), DecodeError> {
    let enc = version.varint();
    match parse_location(s, enc) {
        Err(e) => Err(e),
        Ok((start_location, s)) => match enc.parse(s) {
            Err(e) => Err(e),
            Ok((end_group, s)) => match parse_u8(s) {
                Err(e) => Err(e),
                Ok((subscriber_priority, s)) => match parse_bool(s) {
                    Err(e) => Err(e),
                    Ok((forward, s)) => match parse_params(Known::Nothing, version, s) {
                        Err(e) => Err(e),
                        Ok((_, s)) => Ok(
                            (
                                SubscribeUpdate {
                                    request_id,
                                    subscription_request_id,
                                    start_location,
                                    end_group,
                                    subscriber_priority,
                                    forward,
                                },
                                s,
                            ),
                        ),
                    },
                },
            },
        },
    }
}

/// The update at the start of `s` from draft 15 on, behind the requests, and what follows it.
/// It has no place for a start and an end.
pub open spec fn parse_update_params(
    request_id: RequestId,
    subscription_request_id: Option<RequestId>,
    s: Seq<u8>,
    version: Version,
) -> Result<(SubscribeUpdate, Seq<u8>), DecodeError> {
    match parse_params(Known::SubscribeUpdate, version, s) {
        Err(e) => Err(e),
        Ok((params, s)) => Ok(
            (
                SubscribeUpdate {
                    request_id,
                    subscription_request_id,
                    start_location: origin(),
                    end_group: 0,
                    subscriber_priority: match params.subscriber_priority {
                        Some(p) => p,
                        None => 128,
                    },
                    forward: match params.forward {
                        Some(b) => b,
                        None => true,
                    },
                },
                s,
            ),
        ),
    }
}

/// The subscribe-update message at the start of `s`, and what follows it.
pub open spec fn parse_update(s: Seq<u8>, version: Version) -> Result<
    (SubscribeUpdate, Seq<u8>),
    DecodeError,
> {
    match parse_request_id(s, version) {
        Err(e) => Err(e),
        Ok((id, s)) => match parse_updated(s, version) {
            Err(e) => Err(e),
            Ok((updated, s)) => if version == Version::Draft14 {
                parse_update_fields(id, updated, s, version)
            } else {
                parse_update_params(id, updated, s, version)
            },
        },
    }
}

impl SubscribeUpdate {
    /// The type of the message.
    pub const ID: u64 = 0x02;

    /// Writes the requests that the update names.
    fn encode_head(&self, w: &mut Vec<u8>, version: Version) -> (res: Result<(), EncodeError>)
        requires
            self.subscription_request_id is Some <==> version.names_request(),
        ensures
            wrote(old(w)@, final(w)@, res, update_head(*self, version)),
    {
        self.request_id.encode(w, version)?;
        match self.subscription_request_id {
            Some(id) => id.encode(w, version)?,
            None => encode_delta(w, version)?,
        }
        assert(w@ =~= old(w)@ + update_head(*self, version)->Ok_0);
        Ok(())
    }

    /// Writes the plain fields of draft 14.
    fn encode_fields(&self, w: &mut Vec<u8>, version: Version) -> (res: Result<(), EncodeError>)
        ensures
            wrote(old(w)@, final(w)@, res, update_fields(*self, version)),
    {
        let enc = version.varint();
        self.start_location.encode(w, enc)?;
        enc.encode(self.end_group, w)?;
        w.push(self.subscriber_priority);
        encode_bool(self.forward, w)?;
        w.push(0);
        assert(w@ =~= old(w)@ + update_fields(*self, version)->Ok_0);
        Ok(())
    }

    /// Writes the parameters of the later drafts.
    fn encode_params(&self, w: &mut Vec<u8>, version: Version) -> (res: Result<(), EncodeError>)
        ensures
            wrote(old(w)@, final(w)@, res, update_params(*self, version)),
    {
        let ghost enc = version.varint();
        let ghost start = w@;
        let forward: u64 = if self.forward { 1 } else { 0 };
        let priority: u64 = self.subscriber_priority as u64;
        version.varint().encode(3, w)?;
        let ghost w0 = w@;
        let ghost p0 = enc.bytes_of(3);
        let res = encode_entry(w, version, 0, FORWARD, forward);
        let ghost e1 = entry(version, 0, FORWARD, enc.bytes_of(forward));
        proof {
            lemma_wrote_more(start, w0, w@, res, p0, e1);
        }
        res?;
        let ghost w1 = w@;
        let ghost p1 = cat(p0, e1);
        let res = encode_entry(w, version, FORWARD, SUBSCRIBER_PRIORITY, priority);
        let ghost e2 = entry(version, FORWARD, SUBSCRIBER_PRIORITY, enc.bytes_of(priority));
        proof {
            lemma_wrote_more(start, w1, w@, res, p1, e2);
        }
        res?;
        let ghost w2 = w@;
        let ghost p2 = cat(p1, e2);
        let res = encode_filter_type_entry(
            w,
            version,
            SUBSCRIBER_PRIORITY,
            FilterType::LargestObject,
        );
        let ghost e3 = entry(
            version,
            SUBSCRIBER_PRIORITY,
            FILTER,
            filter_type_param(enc, FilterType::LargestObject),
        );
        proof {
            lemma_wrote_more(start, w2, w@, res, p2, e3);
        }
        res
    }

    /// Writes the message. It names the subscription exactly where the draft has a place for
    /// it.
    pub fn encode_msg(&self, w: &mut Vec<u8>, version: Version) -> (res: Result<(), EncodeError>)
        requires
            self.subscription_request_id is Some <==> version.names_request(),
        ensures
            wrote(old(w)@, final(w)@, res, update_bytes(*self, version)),
    {
        self.encode_head(w, version)?;
        match version {
            Version::Draft14 => self.encode_fields(w, version)?,
            _ => self.encode_params(w, version)?,
        }
        assert(w@ =~= old(w)@ + update_bytes(*self, version)->Ok_0);
        Ok(())
    }

    /// Reads the message.
    pub fn decode_msg(r: &mut Reader, version: Version) -> (res: Result<Self, DecodeError>)
        ensures
            read(final(r)@, res, parse_update(old(r)@, version)),
    {
        let enc = version.varint();
        let request_id = RequestId::decode(r, version)?;
        let subscription_request_id = if version.names_request() {
            Some(RequestId::decode(r, version)?)
        } else {
            decode_delta(r, version)?;
            None
        };
        match version {
            Version::Draft14 => {
                let start_location = Location::decode(r, enc)?;
                let end_group: u64 = r.varint(enc)?;
                let subscriber_priority: u8 = r.u8()?;
                let forward = r.bool()?;
                let _params = decode_params(r, Known::Nothing, version)?;
                Ok(
                    SubscribeUpdate {
                        request_id,
                        subscription_request_id,
                        start_location,
                        end_group,
                        subscriber_priority,
                        forward,
                    },
                )
            },
            _ => {
                let params = decode_params(r, Known::SubscribeUpdate, version)?;
                let subscriber_priority: u8 = params.subscriber_priority.unwrap_or(128);
                let forward = params.forward.unwrap_or(true);
                Ok(
                    SubscribeUpdate {
                        request_id,
                        subscription_request_id,
                        start_location: Location { group: 0, object: 0 },
                        end_group: 0,
                        subscriber_priority,
                        forward,
                    },
                )
            },
        }
    }
}

/// Writes the filter parameter that holds a filter type alone.
fn encode_filter_type_entry(w: &mut Vec<u8>, version: Version, prev: u64, f: FilterType) -> (res:
    Result<(), EncodeError>)
    requires
        prev <= FILTER,
    ensures
        wrote(
            old(w)@,
            final(w)@,
            res,
            entry(version, prev, FILTER, filter_type_param(version.varint(), f)),
        ),
{
    encode_key(w, version, prev, FILTER)?;
    f.param_encode(w, version)?;
    assert(w@ =~= old(w)@ + entry(
        version,
        prev,
        FILTER,
        filter_type_param(version.varint(), f),
    )->Ok_0);
    Ok(())
}

} // verus!
