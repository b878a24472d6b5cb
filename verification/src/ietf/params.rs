//! The parameters at the end of a message.

use crate::coding::{parse_bytes, read, wrote, DecodeError, EncodeError, Reader, VarInt};
use crate::ietf::subscribe::{
    parse_filter, parse_filter_type_param, FilterType, FilterWithLocation,
};
use crate::ietf::{GroupOrder, Version};
use vstd::prelude::*;

verus! {

/// The most parameters that a message may hold.
pub const MAX_PARAMS: u64 = 64;

/// The parameter that says whether objects are forwarded.
pub const FORWARD: u64 = 0x10;

/// The parameter that holds the subscriber's priority.
pub const SUBSCRIBER_PRIORITY: u64 = 0x20;

/// The parameter that holds the filter.
pub const FILTER: u64 = 0x21;

/// The parameter that holds the group order.
pub const GROUP_ORDER: u64 = 0x22;

/// The messages that differ in the parameters that they know.
#[derive(Debug, Clone, Copy, PartialEq, Eq, Structural)]
pub enum Known {
    /// None are known: all are skipped.
    Nothing,
    /// Those of a subscription.
    Subscribe,
    /// Those of its acceptance.
    SubscribeOk,
    /// Those of its update.
    SubscribeUpdate,
}

/// The values of the parameters that are known, as far as they are there.
#[derive(Debug, Clone, Copy)]
pub struct Params {
    pub forward: Option<bool>,
    pub subscriber_priority: Option<u8>,
    pub filter: Option<FilterWithLocation>,
    pub filter_type: Option<FilterType>,
    pub group_order: Option<GroupOrder>,
}

/// No parameter is there.
pub open spec fn no_params() -> Params {
    Params {
        forward: None,
        subscriber_priority: None,
        filter: None,
        filter_type: None,
        group_order: None,
    }
}

/// What stands for the key: the key itself up to draft 15, and after that its distance from
/// the key before it.
pub open spec fn key_field(version: Version, prev: u64, key: u64) -> Result<Seq<u8>, EncodeError> {
    match version {
        Version::Draft14 | Version::Draft15 => version.varint().bytes_of(key),
        _ => version.varint().bytes_of((key - prev) as u64),
    }
}

/// The key at the start of `s`, behind the key `prev`, and what follows it.
pub open spec fn parse_key(version: Version, s: Seq<u8>, prev: u64) -> Result<
    (u64, Seq<u8>),
    DecodeError,
> {
    match version.varint().parse(s) {
        Err(e) => Err(e),
        Ok((k, rest)) => match version {
            Version::Draft14 | Version::Draft15 => Ok((k, rest)),
            _ => if prev + k > u64::MAX {
                Err(DecodeError::InvalidValue)
            } else {
                Ok(((prev + k) as u64, rest))
            },
        },
    }
}

/// What follows the value of a parameter that nobody asked for: an integer if its key is
/// even, and else bytes behind their length.
pub open spec fn skip_value(enc: VarInt, key: u64, s: Seq<u8>) -> Result<Seq<u8>, DecodeError> {
    if key % 2 == 0 {
        match enc.parse(s) {
            Err(e) => Err(e),
            Ok((_, rest)) => Ok(rest),
        }
    } else {
        match parse_bytes(enc, s) {
            Err(e) => Err(e),
            Ok((_, rest)) => Ok(rest),
        }
    }
}

/// The parameters with the one that stands at the start of `s` under `key`, and what
/// follows it.
pub open spec fn parse_param(
    known: Known,
    version: Version,
    key: u64,
    s: Seq<u8>,
    acc: Params,
) -> Result<(Params, Seq<u8>), DecodeError> {
    let enc = version.varint();
    if key == FORWARD && (known == Known::Subscribe || known == Known::SubscribeUpdate) {
        match enc.parse(s) {
            Err(e) => Err(e),
            Ok((v, rest)) => if v > 1 {
                Err(DecodeError::InvalidValue)
            } else {
                Ok((Params { forward: Some(v == 1), ..acc }, rest))
            },
        }
    } else if key == SUBSCRIBER_PRIORITY && (known == Known::Subscribe || known
        == Known::SubscribeUpdate) {
        match enc.parse(s) {
            Err(e) => Err(e),
            Ok((v, rest)) => if v > 0xff {
                Err(DecodeError::InvalidValue)
            } else {
                Ok((Params { subscriber_priority: Some(v as u8), ..acc }, rest))
            },
        }
    } else if key == FILTER && known == Known::Subscribe {
        match parse_filter(enc, s) {
            Err(e) => Err(e),
            Ok((f, rest)) => Ok((Params { filter: Some(f), ..acc }, rest)),
        }
    } else if key == FILTER && known == Known::SubscribeUpdate {
        match parse_filter_type_param(enc, s) {
            Err(e) => Err(e),
            Ok((f, rest)) => Ok((Params { filter_type: Some(f), ..acc }, rest)),
        }
    } else if key == GROUP_ORDER && (known == Known::Subscribe || known == Known::SubscribeOk) {
        match enc.parse(s) {
            Err(e) => Err(e),
            Ok((v, rest)) => match GroupOrder::of_number_spec(v) {
                Err(e) => Err(e),
                Ok(o) => Ok((Params { group_order: Some(o), ..acc }, rest)),
            },
        }
    } else {
        match skip_value(enc, key, s) {
            Err(e) => Err(e),
            Ok(rest) => Ok((acc, rest)),
        }
    }
}

/// The parameters with the `n` that stand at the start of `s`, and what follows them. No key
/// may occur twice.
pub open spec fn parse_entries(
    known: Known,
    version: Version,
    s: Seq<u8>,
    n: nat,
    prev: u64,
    seen: Seq<u64>,
    acc: Params,
) -> Result<(Params, Seq<u8>), DecodeError>
    decreases n,
{
    if n == 0 {
        Ok((acc, s))
    } else {
        match parse_key(version, s, prev) {
            Err(e) => Err(e),
            Ok((key, rest)) => if seen.contains(key) {
                Err(DecodeError::Duplicate)
            } else {
                match parse_param(known, version, key, rest, acc) {
                    Err(e) => Err(e),
                    Ok((acc, rest)) => parse_entries(
                        known,
                        version,
                        rest,
                        (n - 1) as nat,
                        key,
                        seen.push(key),
                        acc,
                    ),
                }
            },
        }
    }
}

/// The parameters at the start of `s`, which stand behind their number, and what follows
/// them.
pub open spec fn parse_params(known: Known, version: Version, s: Seq<u8>) -> Result<
    (Params, Seq<u8>),
    DecodeError,
> {
    match version.varint().parse(s) {
        Err(e) => Err(e),
        Ok((n, rest)) => if n > MAX_PARAMS {
            Err(DecodeError::TooMany)
        } else {
            parse_entries(known, version, rest, n as nat, 0, Seq::empty(), no_params())
        },
    }
}

/// Whether `s` consists of properties only: from draft 17 on they fill the rest of a
/// message, before that there are none.
pub open spec fn parse_properties(version: Version, s: Seq<u8>) -> Result<
    Seq<u8>,
    DecodeError,
> {
    if version.names_request() {
        Ok(s)
    } else {
        skip_properties(version, s, 0)
    }
}

/// What is left of `s` once all its properties are skipped.
pub open spec fn skip_properties(version: Version, s: Seq<u8>, prev: u64) -> Result<
    Seq<u8>,
    DecodeError,
>
    decreases s.len(),
{
    if s.len() == 0 {
        Ok(s)
    } else {
        match parse_key(version, s, prev) {
            Err(e) => Err(e),
            Ok((key, value)) => match skip_value(version.varint(), key, value) {
                Err(e) => Err(e),
                Ok(rest) => {
                    proof {
                        version.varint().lemma_parse_shrinks(s);
                        lemma_value_shrinks(version.varint(), key, value);
                    }
                    skip_properties(version, rest, key)
                },
            },
        }
    }
}

/// A value takes at least one byte to read.
pub proof fn lemma_value_shrinks(enc: VarInt, key: u64, s: Seq<u8>)
    ensures
        skip_value(enc, key, s) matches Ok(rest) ==> rest.len() < s.len(),
{
    enc.lemma_parse_shrinks(s);
}

/// The step from one parameter to the next: where a key and its value stand at the start
/// and the value is read, the others are read behind it.
pub proof fn lemma_entry(
    known: Known,
    version: Version,
    prev: u64,
    key: u64,
    value: Seq<u8>,
    rest: Seq<u8>,
    n: nat,
    seen: Seq<u64>,
    acc: Params,
    next: Params,
)
    requires
        n > 0,
        prev <= key,
        key_field(version, prev, key) is Ok,
        !seen.contains(key),
        parse_param(known, version, key, value + rest, acc) == Ok::<_, DecodeError>((next, rest)),
    ensures
        parse_entries(
            known,
            version,
            key_field(version, prev, key)->Ok_0 + value + rest,
            n,
            prev,
            seen,
            acc,
        ) == parse_entries(known, version, rest, (n - 1) as nat, key, seen.push(key), next),
{
    let k = key_field(version, prev, key)->Ok_0;
    assert(k + value + rest =~= k + (value + rest));
    match version {
        Version::Draft14 | Version::Draft15 => {
            version.varint().lemma_round_trip(key, value + rest);
        },
        _ => {
            version.varint().lemma_round_trip((key - prev) as u64, value + rest);
        },
    }
}

/// Writes what stands for a key.
pub fn encode_key(w: &mut Vec<u8>, version: Version, prev: u64, key: u64) -> (res: Result<
    (),
    EncodeError,
>)
    requires
        prev <= key,
    ensures
        wrote(old(w)@, final(w)@, res, key_field(version, prev, key)),
{
    match version {
        Version::Draft14 | Version::Draft15 => version.varint().encode(key, w),
        _ => version.varint().encode(key - prev, w),
    }
}

/// Reads what stands for a key.
fn decode_key(r: &mut Reader, version: Version, prev: u64) -> (res: Result<u64, DecodeError>)
    ensures
        read(final(r)@, res, parse_key(version, old(r)@, prev)),
{
    let k: u64 = r.varint(version.varint())?;
    match version {
        Version::Draft14 | Version::Draft15 => Ok(k),
        _ => match prev.checked_add(k) {
            Some(key) => Ok(key),
            None => Err(DecodeError::InvalidValue),
        },
    }
}

/// Reads past a value that nobody asked for.
fn decode_skip(r: &mut Reader, enc: VarInt, key: u64) -> (res: Result<(), DecodeError>)
    ensures
        match skip_value(enc, key, old(r)@) {
            Ok(rest) => res is Ok && final(r)@ == rest,
            Err(e) => res == Err::<(), _>(e),
        },
{
    if key % 2 == 0 {
        r.varint(enc)?;
    } else {
        r.bytes(enc)?;
    }
    Ok(())
}

/// Reads the value of one parameter.
fn decode_param(r: &mut Reader, known: Known, version: Version, key: u64, acc: Params) -> (res:
    Result<Params, DecodeError>)
    ensures
        read(final(r)@, res, parse_param(known, version, key, old(r)@, acc)),
{
    let enc = version.varint();
    let mut acc = acc;
    let of_subscription = known == Known::Subscribe || known == Known::SubscribeUpdate;
    if key == FORWARD && of_subscription {
        let v: u64 = r.varint(enc)?;
        if v > 1 {
            return Err(DecodeError::InvalidValue);
        }
        acc.forward = Some(v == 1);
    } else if key == SUBSCRIBER_PRIORITY && of_subscription {
        let v: u64 = r.varint(enc)?;
        if v > 0xff {
            return Err(DecodeError::InvalidValue);
        }
        acc.subscriber_priority = Some(v as u8);
    } else if key == FILTER && known == Known::Subscribe {
        acc.filter = Some(FilterWithLocation::param_decode(r, version)?);
    } else if key == FILTER && known == Known::SubscribeUpdate {
        acc.filter_type = Some(FilterType::param_decode(r, version)?);
    } else if key == GROUP_ORDER && (known == Known::Subscribe || known == Known::SubscribeOk) {
        let v: u64 = r.varint(enc)?;
        acc.group_order = Some(GroupOrder::of_number(v)?);
    } else {
        decode_skip(r, enc, key)?;
    }
    Ok(acc)
}

/// Whether a key has occurred.
fn has_key(seen: &Vec<u64>, key: u64) -> (b: bool)
    ensures
        b == seen@.contains(key),
{
    let mut i: usize = 0;
    while i < seen.len()
        invariant
            i <= seen@.len(),
            forall|j: int| 0 <= j < i ==> seen@[j] != key,
        decreases seen@.len() - i,
    {
        if seen[i] == key {
            return true;
        }
        i = i + 1;
    }
    false
}

/// Reads the parameters at the end of a message.
pub fn decode_params(r: &mut Reader, known: Known, version: Version) -> (res: Result<
    Params,
    DecodeError,
>)
    ensures
        read(final(r)@, res, parse_params(known, version, old(r)@)),
{
    let mut n: u64 = r.varint(version.varint())?;
    if n > MAX_PARAMS {
        return Err(DecodeError::TooMany);
    }
    let mut acc = Params {
        forward: None,
        subscriber_priority: None,
        filter: None,
        filter_type: None,
        group_order: None,
    };
    let mut prev: u64 = 0;
    let mut seen: Vec<u64> = Vec::new();
    while n > 0
        invariant
            parse_params(known, version, old(r)@) == parse_entries(
                known,
                version,
                r@,
                n as nat,
                prev,
                seen@,
                acc,
            ),
        decreases n,
    {
        let key: u64 = decode_key(r, version, prev)?;
        if has_key(&seen, key) {
            return Err(DecodeError::Duplicate);
        }
        acc = decode_param(r, known, version, key, acc)?;
        seen.push(key);
        prev = key;
        n = n - 1;
    }
    Ok(acc)
}

/// Reads past the properties that fill the rest of a message from draft 17 on.
pub fn skip(r: &mut Reader, version: Version) -> (res: Result<(), DecodeError>)
    ensures
        match parse_properties(version, old(r)@) {
            Ok(rest) => res is Ok && final(r)@ == rest,
            Err(e) => res == Err::<(), _>(e),
        },
{
    if version.names_request() {
        return Ok(());
    }
    let mut prev: u64 = 0;
    while r.has_remaining()
        invariant
            !version.names_request(),
            parse_properties(version, old(r)@) == skip_properties(version, r@, prev),
        decreases r@.len(),
    {
        proof {
            version.varint().lemma_parse_shrinks(r@);
        }
        let key: u64 = decode_key(r, version, prev)?;
        proof {
            lemma_value_shrinks(version.varint(), key, r@);
        }
        decode_skip(r, version.varint(), key)?;
        prev = key;
    }
    Ok(())
}

} // verus!
