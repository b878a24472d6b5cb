//! The messages of IETF moq-transport, drafts 14 to 19.

pub mod decode_laws;
pub mod goaway;
pub mod layout_laws;
pub mod namespace;
pub mod params;
pub mod round_trip;
pub mod session;
pub mod subscribe;

use crate::coding::{cat, read, wrote, DecodeError, EncodeError, Reader, VarInt};
use vstd::prelude::*;

verus! {

/// A draft of moq-transport.
#[derive(Debug, Clone, Copy, PartialEq, Eq, Structural)]
pub enum Version {
    Draft14,
    Draft15,
    Draft16,
    Draft17,
    Draft18,
    Draft19,
}

impl Version {
    /// How the draft writes integers: from draft 17 on by leading ones.
    pub open spec fn varint_spec(self) -> VarInt {
        match self {
            Version::Draft14 | Version::Draft15 | Version::Draft16 => VarInt::Quic,
            _ => VarInt::LeadingOnes,
        }
    }

    /// How the draft writes integers.
    #[verifier::when_used_as_spec(varint_spec)]
    pub fn varint(self) -> (enc: VarInt)
        ensures
            enc == self.varint_spec(),
    {
        match self {
            Version::Draft14 | Version::Draft15 | Version::Draft16 => VarInt::Quic,
            _ => VarInt::LeadingOnes,
        }
    }

    /// Whether the draft is one of 14 to 16, in which answers name the request.
    pub open spec fn names_request_spec(self) -> bool {
        self.varint_spec() == VarInt::Quic
    }

    /// Whether the draft is one of 14 to 16, in which answers name the request.
    #[verifier::when_used_as_spec(names_request_spec)]
    pub fn names_request(self) -> (b: bool)
        ensures
            b == self.names_request_spec(),
    {
        matches!(self, Version::Draft14 | Version::Draft15 | Version::Draft16)
    }
}

/// The identifier of a request.
#[derive(Debug, Clone, Copy, PartialEq, Eq, Structural)]
pub struct RequestId(pub u64);

impl RequestId {
    /// Writes the identifier.
    pub fn encode(&self, w: &mut Vec<u8>, version: Version) -> (res: Result<(), EncodeError>)
        ensures
            wrote(old(w)@, final(w)@, res, version.varint().bytes_of(self.0)),
    {
        version.varint().encode(self.0, w)
    }

    /// Reads an identifier.
    pub fn decode(r: &mut Reader, version: Version) -> (res: Result<Self, DecodeError>)
        ensures
            read(final(r)@, res, parse_request_id(old(r)@, version)),
    {
        Ok(RequestId(r.varint(version.varint())?))
    }
}

/// The identifier at the start of `s`, and what follows it.
pub open spec fn parse_request_id(s: Seq<u8>, version: Version) -> Result<
    (RequestId, Seq<u8>),
    DecodeError,
> {
    match version.varint().parse(s) {
        Err(e) => Err(e),
        Ok((v, rest)) => Ok((RequestId(v), rest)),
    }
}

/// A place in a track.
#[derive(Debug, Clone, Copy, PartialEq, Eq, Structural)]
pub struct Location {
    pub group: u64,
    pub object: u64,
}

/// The two integers of a location.
pub open spec fn location_field(loc: Location, enc: VarInt) -> Result<Seq<u8>, EncodeError> {
    cat(enc.bytes_of(loc.group), enc.bytes_of(loc.object))
}

/// The location at the start of `s`, and what follows it.
pub open spec fn parse_location(s: Seq<u8>, enc: VarInt) -> Result<
    (Location, Seq<u8>),
    DecodeError,
> {
    match enc.parse(s) {
        Err(e) => Err(e),
        Ok((group, rest)) => match enc.parse(rest) {
            Err(e) => Err(e),
            Ok((object, rest)) => Ok((Location { group, object }, rest)),
        },
    }
}

/// Of a location that was written, the same is read, and nothing of what follows.
pub proof fn lemma_location_round_trip(loc: Location, enc: VarInt, rest: Seq<u8>)
    requires
        location_field(loc, enc) is Ok,
    ensures
        parse_location(location_field(loc, enc)->Ok_0 + rest, enc) == Ok::<_, DecodeError>(
            (loc, rest),
        ),
{
    let group = enc.bytes_of(loc.group)->Ok_0;
    let object = enc.bytes_of(loc.object)->Ok_0;
    enc.lemma_round_trip(loc.group, object + rest);
    enc.lemma_round_trip(loc.object, rest);
    assert(group + object + rest =~= group + (object + rest));
}

impl Location {
    /// Writes the location.
    pub fn encode(&self, w: &mut Vec<u8>, enc: VarInt) -> (res: Result<(), EncodeError>)
        ensures
            wrote(old(w)@, final(w)@, res, location_field(*self, enc)),
    {
        enc.encode(self.group, w)?;
        enc.encode(self.object, w)?;
        assert(w@ =~= old(w)@ + location_field(*self, enc)->Ok_0);
        Ok(())
    }

    /// Reads a location.
    pub fn decode(r: &mut Reader, enc: VarInt) -> (res: Result<Self, DecodeError>)
        ensures
            read(final(r)@, res, parse_location(old(r)@, enc)),
    {
        let group: u64 = r.varint(enc)?;
        let object: u64 = r.varint(enc)?;
        Ok(Location { group, object })
    }
}

/// The order in which groups are wanted.
#[derive(Debug, Clone, Copy, PartialEq, Eq, Structural)]
pub enum GroupOrder {
    /// The publisher's own.
    Any,
    /// The oldest first.
    Ascending,
    /// The newest first.
    Descending,
}

impl GroupOrder {
    /// The number of an order.
    pub open spec fn number_spec(self) -> u8 {
        match self {
            GroupOrder::Any => 0,
            GroupOrder::Ascending => 1,
            GroupOrder::Descending => 2,
        }
    }

    /// The number of an order.
    #[verifier::when_used_as_spec(number_spec)]
    pub fn number(self) -> (n: u8)
        ensures
            n == self.number_spec(),
    {
        match self {
            GroupOrder::Any => 0,
            GroupOrder::Ascending => 1,
            GroupOrder::Descending => 2,
        }
    }

    /// The order that has a number.
    pub open spec fn of_number_spec(n: u64) -> Result<GroupOrder, DecodeError> {
        if n == 0 {
            Ok(GroupOrder::Any)
        } else if n == 1 {
            Ok(GroupOrder::Ascending)
        } else if n == 2 {
            Ok(GroupOrder::Descending)
        } else {
            Err(DecodeError::InvalidValue)
        }
    }

    /// The order that has a number.
    pub fn of_number(n: u64) -> (res: Result<GroupOrder, DecodeError>)
        ensures
            res == GroupOrder::of_number_spec(n),
    {
        match n {
            0 => Ok(GroupOrder::Any),
            1 => Ok(GroupOrder::Ascending),
            2 => Ok(GroupOrder::Descending),
            _ => Err(DecodeError::InvalidValue),
        }
    }
}

} // verus!
