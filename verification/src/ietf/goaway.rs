//! The message that ends a session gracefully, and the frame that it is sent in.

use crate::coding::{
    cat, encode_string, lemma_string_round_trip, parse_string, parse_u16, string_field, wrote,
    BoundsExceeded, DecodeError, EncodeError, Reader,
};
use crate::error::Error;
use crate::ietf::Version;
use crate::session::{GoawayPayload, GoawayReceived, GoingAwayFlag};
use crate::time::Duration;
use vstd::prelude::*;
use vstd::utf8::encode_utf8;

verus! {

/// GoAway message (0x10).
#[derive(Debug, Clone)]
pub struct GoAway {
    /// Where to reconnect; empty for the same endpoint.
    pub new_session_uri: String,
    /// Milliseconds until the session is closed; zero for no deadline. Drafts 14 to 16 have no
    /// place for it.
    pub timeout: u64,
}

/// The message.
pub open spec fn goaway_bytes(uri: Seq<char>, timeout: u64, version: Version) -> Result<
    Seq<u8>,
    EncodeError,
> {
    let enc = version.varint();
    if version.names_request() {
        string_field(enc, uri)
    } else {
        cat(string_field(enc, uri), enc.bytes_of(timeout))
    }
}

/// The URI and the timeout of the message at the start of `s`, and what follows it.
pub open spec fn parse_goaway(s: Seq<u8>, version: Version) -> Result<
    (Seq<char>, u64, Seq<u8>),
    DecodeError,
> {
    let enc = version.varint();
    match parse_string(enc, s) {
        Err(e) => Err(e),
        Ok((uri, s)) => if version.names_request() {
            Ok((uri, 0, s))
        } else {
            match enc.parse(s) {
                Err(e) => Err(e),
                Ok((timeout, s)) => Ok((uri, timeout, s)),
            }
        },
    }
}

/// The frame of a message: its type, the length of its body in two bytes, and the body.
pub open spec fn frame_bytes(id: u64, body: Seq<u8>, version: Version) -> Seq<u8> {
    version.varint().bytes_of(id)->Ok_0 + seq![(body.len() / 256) as u8, (body.len() % 256) as u8]
        + body
}

/// The type and the body of the frame at the start of `s`, and what follows it; none at the
/// end.
pub open spec fn parse_frame(s: Seq<u8>, version: Version) -> Result<
    Option<(u64, Seq<u8>, Seq<u8>)>,
    DecodeError,
> {
    if s.len() == 0 {
        Ok(None)
    } else {
        match version.varint().parse(s) {
            Err(e) => Err(e),
            Ok((id, s)) => match parse_u16(s) {
                Err(e) => Err(e),
                Ok((size, s)) => if s.len() < size {
                    Err(DecodeError::Short)
                } else {
                    Ok(Some((id, s.take(size as int), s.skip(size as int))))
                },
            },
        }
    }
}

impl GoAway {
    /// The type of the message.
    pub const ID: u64 = 0x10;

    /// Writes the message.
    pub fn encode_msg(&self, w: &mut Vec<u8>, version: Version) -> (res: Result<(), EncodeError>)
        ensures
            wrote(
                old(w)@,
                final(w)@,
                res,
                goaway_bytes(self.new_session_uri@, self.timeout, version),
            ),
    {
        let enc = version.varint();
        encode_string(enc, self.new_session_uri.as_str(), w)?;
        if !version.names_request() {
            enc.encode(self.timeout, w)?;
        }
        assert(w@ =~= old(w)@ + goaway_bytes(
            self.new_session_uri@,
            self.timeout,
            version,
        )->Ok_0);
        Ok(())
    }

    /// Reads the message.
    pub fn decode_msg(r: &mut Reader, version: Version) -> (res: Result<Self, DecodeError>)
        ensures
            match parse_goaway(old(r)@, version) {
                Ok((uri, timeout, rest)) => {
                    &&& res matches Ok(m)
                    &&& m.new_session_uri@ == uri
                    &&& m.timeout == timeout
                    &&& final(r)@ == rest
                },
                Err(e) => res == Err::<Self, _>(e),
            },
    {
        let enc = version.varint();
        let new_session_uri = r.string(enc)?;
        let timeout: u64 = if version.names_request() {
            0
        } else {
            r.varint(enc)?
        };
        Ok(GoAway { new_session_uri, timeout })
    }
}

/// The timeout on the wire: the whole milliseconds, as far as 64 bits hold them, and zero for
/// none.
pub open spec fn wire_timeout(timeout: Option<Duration>) -> u64 {
    match timeout {
        Some(d) => (d.millis() % 0x1_0000_0000_0000_0000) as u64,
        None => 0,
    }
}

/// The timeout on the wire.
pub fn timeout_ms(timeout: Option<Duration>) -> (ms: u64)
    ensures
        ms == wire_timeout(timeout),
{
    match timeout {
        Some(d) => (d.as_millis() % 0x1_0000_0000_0000_0000) as u64,
        None => 0,
    }
}

/// The frame that tells the peer to go: what is sent for a drain.
pub open spec fn goaway_frame_bytes(
    uri: Seq<char>,
    timeout: Option<Duration>,
    version: Version,
) -> Result<Seq<u8>, Error> {
    match goaway_bytes(uri, wire_timeout(timeout), version) {
        Err(e) => Err(Error::Encode(e)),
        Ok(body) => if body.len() > 0xffff {
            Err(Error::BoundsExceeded(BoundsExceeded))
        } else {
            Ok(frame_bytes(GoAway::ID, body, version))
        },
    }
}

/// The frame that tells the peer to go. A body that two bytes cannot count is refused.
pub fn goaway_frame(payload: &GoawayPayload, version: Version) -> (res: Result<Vec<u8>, Error>)
    ensures
        match goaway_frame_bytes(payload.uri@, payload.timeout, version) {
            Ok(bytes) => res matches Ok(v) && v@ == bytes,
            Err(e) => res == Err::<Vec<u8>, _>(e),
        },
{
    let msg = GoAway {
        new_session_uri: payload.uri.clone(),
        timeout: timeout_ms(payload.timeout),
    };
    let mut body: Vec<u8> = Vec::new();
    match msg.encode_msg(&mut body, version) {
        Ok(()) => {},
        Err(e) => {
            return Err(Error::Encode(e));
        },
    }
    assert(goaway_bytes(payload.uri@, wire_timeout(payload.timeout), version) == Ok::<
        _,
        EncodeError,
    >(body@));
    if body.len() > 0xffff {
        return Err(Error::BoundsExceeded(BoundsExceeded));
    }
    let mut frame: Vec<u8> = Vec::new();
    proof {
        version.varint().lemma_bytes_ok(GoAway::ID);
    }
    match version.varint().encode(GoAway::ID, &mut frame) {
        Ok(()) => {},
        Err(e) => {
            return Err(Error::Encode(e));
        },
    }
    frame.push((body.len() / 256) as u8);
    frame.push((body.len() % 256) as u8);
    frame.extend_from_slice(body.as_slice());
    assert(frame@ =~= frame_bytes(GoAway::ID, body@, version));
    Ok(frame)
}

/// What is sent on the stream of the SETUP once that is sent: the frame that tells the peer to go,
/// or nothing if the session closes first.
pub fn run_setup_with_goaway(payload: Option<&GoawayPayload>, version: Version) -> (res: Result<
    Option<Vec<u8>>,
    Error,
>)
    ensures
        match payload {
            None => res == Ok::<Option<Vec<u8>>, Error>(None),
            Some(p) => match goaway_frame_bytes(p.uri@, p.timeout, version) {
                Ok(bytes) => res matches Ok(Some(v)) && v@ == bytes,
                Err(e) => res == Err::<Option<Vec<u8>>, _>(e),
            },
        },
{
    match payload {
        Some(p) => match goaway_frame(p, version) {
            Ok(frame) => Ok(Some(frame)),
            Err(e) => Err(e),
        },
        None => Ok(None),
    }
}

/// Takes the frame at the front of a stream: its type and its body. None is left at the end of
/// the stream.
pub fn read_frame(r: &mut Reader, version: Version) -> (res: Result<
    Option<(u64, Vec<u8>)>,
    DecodeError,
>)
    ensures
        match parse_frame(old(r)@, version) {
            Ok(Some((id, body, rest))) => {
                &&& res matches Ok(Some((i, b)))
                &&& i == id
                &&& b@ == body
                &&& final(r)@ == rest
            },
            Ok(None) => res == Ok::<Option<(u64, Vec<u8>)>, DecodeError>(None) && final(r)@ == old(
                r,
            )@,
            Err(e) => res == Err::<Option<(u64, Vec<u8>)>, _>(e),
        },
{
    if !r.has_remaining() {
        return Ok(None);
    }
    let id: u64 = r.varint(version.varint())?;
    let size: u16 = r.u16()?;
    let body = r.take(size as usize)?;
    Ok(Some((id, body)))
}

/// The deadline that a number of milliseconds on the wire stands for.
pub open spec fn deadline(ms: u64, d: Option<Duration>) -> bool {
    if ms == 0 {
        d is None
    } else {
        d matches Some(x) && x.wf() && x.millis() == ms
    }
}

/// What a stream that carries nothing but a GOAWAY gives.
pub open spec fn received(s: Seq<u8>, version: Version) -> Result<
    Option<(Seq<char>, u64)>,
    Error,
> {
    match parse_frame(s, version) {
        Err(e) => Err(Error::Decode(e)),
        Ok(None) => Ok(None),
        Ok(Some((id, body, _))) => if id != GoAway::ID {
            Err(Error::UnexpectedMessage)
        } else {
            match parse_goaway(body, version) {
                Err(e) => Err(Error::Decode(e)),
                Ok((uri, timeout, _)) => Ok(Some((uri, timeout))),
            }
        },
    }
}

/// Whether new requests are rejected once something was received.
pub open spec fn goes_away(got: Result<Option<(Seq<char>, u64)>, Error>, before: bool) -> bool {
    match got {
        Ok(Some(_)) => true,
        _ => before,
    }
}

/// Handles what arrives on the stream that carries a GOAWAY: nothing if it ends first, and else
/// one frame. Once the message is read, new requests are rejected and the redirect is known.
pub fn run_goaway(
    stream: &mut Reader,
    version: Version,
    signal: &mut Option<GoawayReceived>,
    going_away: &mut GoingAwayFlag,
) -> (res: Result<(), Error>)
    ensures
        final(going_away)@ == goes_away(received(old(stream)@, version), old(going_away)@),
        match received(old(stream)@, version) {
            Ok(Some((uri, timeout))) => {
                &&& res is Ok
                &&& final(going_away)@
                &&& *final(signal) matches Some(g) && g.uri@ == uri && deadline(timeout, g.timeout)
            },
            Ok(None) => {
                &&& res is Ok
                &&& final(going_away)@ == old(going_away)@
                &&& *final(signal) == *old(signal)
            },
            Err(e) => {
                &&& res == Err::<(), Error>(e)
                &&& final(going_away)@ == old(going_away)@
                &&& *final(signal) == *old(signal)
            },
        },
{
    let (id, data) = match read_frame(stream, version) {
        Ok(Some((id, data))) => (id, data),
        Ok(None) => {
            return Ok(());
        },
        Err(e) => {
            return Err(Error::Decode(e));
        },
    };
    if id != GoAway::ID {
        return Err(Error::UnexpectedMessage);
    }
    let mut body = Reader::new(data.as_slice());
    let msg = match GoAway::decode_msg(&mut body, version) {
        Ok(msg) => msg,
        Err(e) => {
            return Err(Error::Decode(e));
        },
    };
    going_away.set();
    let timeout = if msg.timeout > 0 {
        Some(Duration::from_millis(msg.timeout))
    } else {
        None
    };
    *signal = Some(GoawayReceived { uri: msg.new_session_uri, timeout });
    Ok(())
}

/// A message that can be written is read as what it says; drafts 14 to 16 lose the timeout.
pub proof fn law_goaway_round_trip(uri: Seq<char>, timeout: u64, version: Version, rest: Seq<u8>)
    requires
        encode_utf8(uri).len() <= u64::MAX,
        goaway_bytes(uri, timeout, version) is Ok,
    ensures
        parse_goaway(goaway_bytes(uri, timeout, version)->Ok_0 + rest, version) == Ok::<
            _,
            DecodeError,
        >(
            (
                uri,
                if version.names_request() {
                    0
                } else {
                    timeout
                },
                rest,
            ),
        ),
{
    let enc = version.varint();
    if version.names_request() {
        lemma_string_round_trip(enc, uri, rest);
    } else {
        let s = string_field(enc, uri)->Ok_0;
        let t = enc.bytes_of(timeout)->Ok_0;
        assert(s + t + rest =~= s + (t + rest));
        lemma_string_round_trip(enc, uri, t + rest);
        enc.lemma_round_trip(timeout, rest);
    }
}

/// The frame of a body that two bytes can count is taken apart into its type and body.
pub proof fn law_frame_round_trip(id: u64, body: Seq<u8>, version: Version, rest: Seq<u8>)
    requires
        version.varint().bytes_of(id) is Ok,
        body.len() <= 0xffff,
    ensures
        parse_frame(frame_bytes(id, body, version) + rest, version) == Ok::<_, DecodeError>(
            Some((id, body, rest)),
        ),
{
    let enc = version.varint();
    let kind = enc.bytes_of(id)->Ok_0;
    let size = seq![(body.len() / 256) as u8, (body.len() % 256) as u8];
    let tail = size + body + rest;
    assert(kind + size + body + rest =~= kind + tail);
    enc.lemma_round_trip(id, tail);
    enc.lemma_bytes_len(id);
    assert(tail.skip(2) =~= body + rest);
    assert((body + rest).take(body.len() as int) =~= body);
    assert((body + rest).skip(body.len() as int) =~= rest);
}

/// What one side sends for a drain, the other side receives: the URI, and, from draft 17 on, the
/// deadline.
pub proof fn law_drain_is_received(
    uri: Seq<char>,
    timeout: Option<Duration>,
    version: Version,
    rest: Seq<u8>,
)
    requires
        goaway_frame_bytes(uri, timeout, version) is Ok,
    ensures
        received(goaway_frame_bytes(uri, timeout, version)->Ok_0 + rest, version) == Ok::<
            _,
            Error,
        >(
            Some(
                (
                    uri,
                    if version.names_request() {
                        0
                    } else {
                        wire_timeout(timeout)
                    },
                ),
            ),
        ),
{
    let ms = wire_timeout(timeout);
    let body = goaway_bytes(uri, ms, version)->Ok_0;
    version.varint().lemma_bytes_ok(GoAway::ID);
    law_frame_round_trip(GoAway::ID, body, version, rest);
    assert(encode_utf8(uri).len() <= body.len());
    law_goaway_round_trip(uri, ms, version, Seq::empty());
    assert(body + Seq::<u8>::empty() =~= body);
}

/// The time on the wire is the whole milliseconds that are left, and zero for no deadline; read
/// back, it is a deadline exactly if it is not zero.
pub proof fn law_deadline_is_told(d: Duration, back: Option<Duration>)
    ensures
        wire_timeout(None) == 0,
        d.millis() < 0x1_0000_0000_0000_0000 ==> wire_timeout(Some(d)) == d.millis(),
        deadline(0, back) <==> back is None,
        d.millis() < 0x1_0000_0000_0000_0000 && d.millis() > 0 && deadline(
            wire_timeout(Some(d)),
            back,
        ) ==> back is Some && back->Some_0.millis() == d.millis(),
{
}

/// Only a whole frame with a GOAWAY in it is taken for one: any other type is unexpected, the end
/// of the stream is no error, and what is cut off is one.
pub proof fn law_what_is_received(s: Seq<u8>, version: Version)
    ensures
        GoAway::ID == 0x10,
        s.len() == 0 ==> received(s, version) == Ok::<Option<(Seq<char>, u64)>, Error>(None),
        s.len() > 0 && parse_frame(s, version) is Err ==> received(s, version) == Err::<
            Option<(Seq<char>, u64)>,
            _,
        >(Error::Decode(parse_frame(s, version)->Err_0)),
        s.len() > 0 && parse_frame(s, version) is Ok ==> {
            &&& parse_frame(s, version)->Ok_0 is Some
            &&& parse_frame(s, version)->Ok_0->Some_0.0 != 0x10 ==> received(s, version) == Err::<
                Option<(Seq<char>, u64)>,
                _,
            >(Error::UnexpectedMessage)
            &&& parse_frame(s, version)->Ok_0->Some_0.0 == 0x10 ==> {
                let m = parse_goaway(parse_frame(s, version)->Ok_0->Some_0.1, version);
                &&& m is Ok ==> received(s, version) == Ok::<_, Error>(
                    Some((m->Ok_0.0, m->Ok_0.1)),
                )
                &&& m is Err ==> received(s, version) == Err::<Option<(Seq<char>, u64)>, _>(
                    Error::Decode(m->Err_0),
                )
            }
        },
{
}

/// A frame is its type, its length and its body, of which nothing is missing and to which nothing
/// is added.
pub proof fn law_frame_is_whole(s: Seq<u8>, version: Version)
    requires
        parse_frame(s, version) is Ok,
        parse_frame(s, version)->Ok_0 is Some,
    ensures
        ({
            let (id, body, rest) = parse_frame(s, version)->Ok_0->Some_0;
            let (told, behind) = version.varint().parse(s)->Ok_0;
            &&& version.varint().parse(s) is Ok
            &&& id == told
            &&& behind.len() >= 2
            &&& body.len() == behind[0] * 256 + behind[1]
            &&& behind.skip(2) == body + rest
        }),
{
    let (id, body, rest) = parse_frame(s, version)->Ok_0->Some_0;
    let (told, behind) = version.varint().parse(s)->Ok_0;
    assert(behind.skip(2) =~= body + rest);
}

/// A drain can be told exactly if the URI can be written and two bytes count the message.
pub proof fn law_when_a_drain_is_told(uri: Seq<char>, timeout: Option<Duration>, version: Version)
    ensures
        ({
            let body = goaway_bytes(uri, wire_timeout(timeout), version);
            let frame = goaway_frame_bytes(uri, timeout, version);
            &&& frame is Ok <==> body is Ok && body->Ok_0.len() < 0x1_0000
            &&& body is Err ==> frame == Err::<Seq<u8>, _>(Error::Encode(body->Err_0))
            &&& body is Ok && body->Ok_0.len() >= 0x1_0000 ==> frame == Err::<Seq<u8>, _>(
                Error::BoundsExceeded(BoundsExceeded),
            )
        }),
{
}

/// New requests are rejected from the first GOAWAY on, and for ever: neither the end of the stream
/// nor an error starts or ends that.
pub proof fn law_going_away_stays(got: Result<Option<(Seq<char>, u64)>, Error>, before: bool)
    ensures
        goes_away(got, true),
        got is Ok && got->Ok_0 is Some ==> goes_away(got, before),
        !(got is Ok && got->Ok_0 is Some) ==> goes_away(got, before) == before,
{
}

} // verus!
