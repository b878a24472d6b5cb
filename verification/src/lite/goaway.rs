//! The message that ends a session gracefully.

use crate::coding::{
    encode_string, lemma_string_round_trip, parse_string, string_field, wrote, DecodeError,
    EncodeError, Reader, VarInt,
};
use crate::lite::Version;
use vstd::prelude::*;
use vstd::utf8::encode_utf8;

verus! {

/// Sent to gracefully shut down a session and optionally redirect to a new URI.
///
/// Lite04+ only.
#[derive(Debug, Clone)]
pub struct Goaway {
    pub uri: String,
}

/// Whether the version has the message.
pub open spec fn has_goaway(version: Version) -> bool {
    version == Version::Lite04 || version == Version::Lite05
}

/// The message: the URI, where the version has it.
pub open spec fn goaway_bytes(uri: Seq<char>, version: Version) -> Result<Seq<u8>, EncodeError> {
    if has_goaway(version) {
        string_field(VarInt::Quic, uri)
    } else {
        Err(EncodeError::Version)
    }
}

/// The URI of the message at the start of `s`, and what follows it.
pub open spec fn parse_goaway(s: Seq<u8>, version: Version) -> Result<
    (Seq<char>, Seq<u8>),
    DecodeError,
> {
    if has_goaway(version) {
        parse_string(VarInt::Quic, s)
    } else {
        Err(DecodeError::Version)
    }
}

impl Goaway {
    /// Reads the message.
    pub fn decode_msg(r: &mut Reader, version: Version) -> (res: Result<Self, DecodeError>)
        ensures
            match parse_goaway(old(r)@, version) {
                Ok((uri, rest)) => res matches Ok(m) && m.uri@ == uri && final(r)@ == rest,
                Err(e) => res == Err::<Self, _>(e),
            },
    {
        match version {
            Version::Lite01 | Version::Lite02 | Version::Lite03 => {
                return Err(DecodeError::Version);
            },
            _ => {},
        }
        let uri = r.string(VarInt::Quic)?;
        Ok(Goaway { uri })
    }

    /// Writes the message.
    pub fn encode_msg(&self, w: &mut Vec<u8>, version: Version) -> (res: Result<(), EncodeError>)
        ensures
            wrote(old(w)@, final(w)@, res, goaway_bytes(self.uri@, version)),
            !has_goaway(version) ==> final(w)@ == old(w)@,
    {
        match version {
            Version::Lite01 | Version::Lite02 | Version::Lite03 => {
                return Err(EncodeError::Version);
            },
            _ => {},
        }
        encode_string(VarInt::Quic, self.uri.as_str(), w)
    }
}

/// A message that can be written is read as what it says.
pub proof fn law_goaway_round_trip(uri: Seq<char>, version: Version, rest: Seq<u8>)
    requires
        encode_utf8(uri).len() <= u64::MAX,
        goaway_bytes(uri, version) is Ok,
    ensures
        parse_goaway(goaway_bytes(uri, version)->Ok_0 + rest, version) == Ok::<_, DecodeError>(
            (uri, rest),
        ),
{
    lemma_string_round_trip(VarInt::Quic, uri, rest);
}

/// Before Lite04 the message can be neither written nor read, whatever the bytes.
pub proof fn law_goaway_since_lite04(uri: Seq<char>, s: Seq<u8>, version: Version)
    requires
        version == Version::Lite01 || version == Version::Lite02 || version == Version::Lite03,
    ensures
        goaway_bytes(uri, version) == Err::<Seq<u8>, _>(EncodeError::Version),
        parse_goaway(s, version) == Err::<(Seq<char>, Seq<u8>), _>(DecodeError::Version),
{
}

/// From Lite04 on the message is its URI and nothing else.
pub proof fn law_goaway_is_its_uri(uri: Seq<char>, s: Seq<u8>, version: Version)
    requires
        version == Version::Lite04 || version == Version::Lite05,
    ensures
        goaway_bytes(uri, version) == string_field(VarInt::Quic, uri),
        parse_goaway(s, version) == parse_string(VarInt::Quic, s),
{
}

} // verus!
