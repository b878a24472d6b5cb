//! The decisions of an IETF session: what it starts, and where each stream goes.

use crate::error::{code_of, Error};
use crate::ietf::subscribe::Subscribe;
use crate::ietf::Version;
use crate::session::{close_with, Close};
use vstd::prelude::*;

verus! {

/// The type of the SETUP that opens a unidirectional stream from draft 17 on.
pub const SETUP_V17: u64 = 0x2f00;

/// The type of a stream of fetched objects.
pub const FETCH_HEADER: u64 = 0x05;

/// The type of a fetch.
pub const FETCH: u64 = 0x16;

/// The type of a request for announcements.
pub const SUBSCRIBE_NAMESPACE: u64 = 0x50;

/// The type that a request for announcements had before.
pub const SUBSCRIBE_NAMESPACE_LEGACY: u64 = 0x11;

/// The type of a request for the status of a track.
pub const TRACK_STATUS: u64 = 0x0d;

/// The type of an offer of a track.
pub const PUBLISH: u64 = 0x1d;

/// The type of an announcement.
pub const PUBLISH_NAMESPACE: u64 = 0x06;

/// Where the request for announcements is sent.
#[derive(Debug, Clone, Copy, PartialEq, Eq, Structural)]
pub enum NamespaceStream {
    /// On a stream of the transport, past the shared control stream.
    Native,
    /// On a stream of the session.
    Session,
}

/// What a session starts.
#[derive(Debug)]
pub enum Start {
    /// Nothing: the transport is closed.
    Refuse(Close),
    /// The tasks of drafts 14 to 16, which share one control stream, over which GOAWAY goes.
    Control {
        /// Where announcements are asked for, if anybody wants them.
        namespace: Option<NamespaceStream>,
    },
    /// The tasks of later drafts, in which every request has its own stream and GOAWAY goes over
    /// the stream of the SETUP.
    Streams {
        /// Where announcements are asked for, if anybody wants them.
        namespace: Option<NamespaceStream>,
    },
}

/// Where a session asks for announcements: only one that has an origin to fill does; draft 16 asks
/// on a stream of the transport.
pub open spec fn namespace_stream(version: Version, has_origin: bool) -> Option<NamespaceStream> {
    if !has_origin {
        None
    } else if version == Version::Draft16 {
        Some(NamespaceStream::Native)
    } else {
        Some(NamespaceStream::Session)
    }
}

/// Whether a session is refused: drafts 14 to 16 need the stream of the handshake.
pub open spec fn is_refused(version: Version, has_setup: bool) -> bool {
    version.names_request() && !has_setup
}

/// Decides what a session starts. Drafts 14 to 16 need the stream of the handshake. Only a
/// session that has an origin to fill asks for announcements; draft 16 asks on a stream of the
/// transport.
pub fn start(version: Version, has_setup: bool, has_origin: bool) -> (plan: Start)
    ensures
        if is_refused(version, has_setup) {
            plan matches Start::Refuse(c) && c@ == (
                code_of(Error::ProtocolViolation),
                "setup stream required"@,
            )
        } else if version.names_request() {
            plan == (Start::Control { namespace: namespace_stream(version, has_origin) })
        } else {
            plan == (Start::Streams { namespace: namespace_stream(version, has_origin) })
        },
{
    match version {
        Version::Draft14 | Version::Draft15 | Version::Draft16 => {
            if !has_setup {
                return Start::Refuse(
                    Close {
                        code: Error::ProtocolViolation.to_code(),
                        reason: "setup stream required".to_owned(),
                    },
                );
            }
            let namespace = if !has_origin {
                None
            } else {
                match version {
                    Version::Draft16 => Some(NamespaceStream::Native),
                    _ => Some(NamespaceStream::Session),
                }
            };
            Start::Control { namespace }
        },
        _ => {
            let namespace = if has_origin {
                Some(NamespaceStream::Session)
            } else {
                None
            };
            Start::Streams { namespace }
        },
    }
}

/// How the transport is closed when the tasks of a session end: with 1 where the transport
/// itself failed, with the code and text of any other error, and with 0 where there was none.
pub open spec fn closing(res: Result<(), Error>) -> (u32, Seq<char>) {
    match res {
        Err(Error::Transport(_)) => (1u32, ""@),
        Err(err) => close_with(err),
        Ok(()) => (0u32, ""@),
    }
}

/// How the transport is closed when the tasks of a session end.
pub fn finish(res: Result<(), Error>) -> (close: Close)
    ensures
        close@ == closing(res),
{
    match res {
        Err(Error::Transport(_)) => Close { code: 1, reason: "".to_owned() },
        Err(err) => Close { code: err.to_code(), reason: err.message() },
        Ok(()) => Close { code: 0, reason: "".to_owned() },
    }
}

/// What a unidirectional stream carries.
#[derive(Debug, Clone, Copy, PartialEq, Eq, Structural)]
pub enum Uni {
    /// The SETUP, and after it a GOAWAY.
    Setup,
    /// The objects of a group.
    Group,
}

/// Whether a stream type is that of a group: one byte of the form `0XX1XXXX`.
pub open spec fn is_group_type(kind: u64) -> bool {
    kind < 0x80 && kind / 0x10 % 2 == 1
}

/// What a unidirectional stream of a type carries. Fetched objects are not supported, and no
/// other stream is expected.
pub open spec fn uni_of(kind: u64) -> Result<Uni, Error> {
    if kind == SETUP_V17 {
        Ok(Uni::Setup)
    } else if is_group_type(kind) {
        Ok(Uni::Group)
    } else if kind == FETCH_HEADER {
        Err(Error::Unsupported)
    } else {
        Err(Error::UnexpectedStream)
    }
}

/// What a unidirectional stream of a type carries.
pub fn run_unis(kind: u64) -> (res: Result<Uni, Error>)
    ensures
        res == uni_of(kind),
{
    if kind == SETUP_V17 {
        return Ok(Uni::Setup);
    }
    run_uni_group(kind)
}

/// Whether a unidirectional stream carries a group.
pub fn run_uni_group(kind: u64) -> (res: Result<Uni, Error>)
    ensures
        res == if kind == SETUP_V17 {
            Err::<Uni, Error>(Error::UnexpectedStream)
        } else {
            uni_of(kind)
        },
{
    assert(kind <= 0xff ==> ((kind & 0x90) == 0x10 <==> kind < 0x80 && kind / 0x10 % 2 == 1))
        by (bit_vector);
    // SUBGROUP_HEADER type bytes match the form 0b0XX1XXXX.
    if kind <= 0xff && (kind & 0x90) == 0x10 {
        return Ok(Uni::Group);
    }
    match kind {
        FETCH_HEADER => Err(Error::Unsupported),
        _ => Err(Error::UnexpectedStream),
    }
}

/// Who handles a request.
#[derive(Debug, Clone, Copy, PartialEq, Eq, Structural)]
pub enum Handler {
    Publisher,
    Subscriber,
}

/// Who handles a request of a type; others are not expected.
pub open spec fn handler_of(id: u64) -> Result<Handler, Error> {
    if id == Subscribe::ID || id == FETCH || id == SUBSCRIBE_NAMESPACE || id
        == SUBSCRIBE_NAMESPACE_LEGACY || id == TRACK_STATUS {
        Ok(Handler::Publisher)
    } else if id == PUBLISH || id == PUBLISH_NAMESPACE {
        Ok(Handler::Subscriber)
    } else {
        Err(Error::UnexpectedStream)
    }
}

/// Who handles a request of a type.
pub fn run_dispatch(id: u64) -> (res: Result<Handler, Error>)
    ensures
        res == handler_of(id),
{
    if id == Subscribe::ID || id == FETCH || id == SUBSCRIBE_NAMESPACE || id
        == SUBSCRIBE_NAMESPACE_LEGACY || id == TRACK_STATUS {
        Ok(Handler::Publisher)
    } else if id == PUBLISH || id == PUBLISH_NAMESPACE {
        Ok(Handler::Subscriber)
    } else {
        Err(Error::UnexpectedStream)
    }
}

/// Announcements are asked for exactly where somebody wants them; of all drafts only draft 16 asks
/// outside the session.
pub proof fn law_who_asks_for_announcements(version: Version, has_origin: bool)
    ensures
        namespace_stream(version, has_origin) is Some <==> has_origin,
        namespace_stream(version, has_origin) == Some(NamespaceStream::Native) <==> has_origin
            && version == Version::Draft16,
        is_refused(version, false) <==> version == Version::Draft14 || version == Version::Draft15
            || version == Version::Draft16,
        !is_refused(version, true),
{
}

/// A session that ends well is closed with 0, one whose transport failed with 1, and one that
/// failed otherwise with what its error says.
pub proof fn law_how_a_session_is_closed(res: Result<(), Error>)
    ensures
        res is Ok ==> closing(res) == (0u32, ""@),
        res is Err && res->Err_0 is Transport ==> closing(res) == (1u32, ""@),
        res is Err && !(res->Err_0 is Transport) ==> closing(res).0 == code_of(res->Err_0)
            && closing(res).1 == crate::error::message_of(res->Err_0),
{
}

/// A stream carries a group exactly if its type is one byte whose fifth bit is set and whose eighth
/// is not; one type is that of the SETUP, one is not supported, and no other is expected.
pub proof fn law_streams(kind: u64)
    ensures
        uni_of(kind) == Ok::<_, Error>(Uni::Group) <==> kind <= 0xff && kind & 0x90 == 0x10,
        uni_of(kind) == Ok::<_, Error>(Uni::Setup) <==> kind == 0x2f00,
        uni_of(kind) == Err::<Uni, _>(Error::Unsupported) <==> kind == 0x05,
        uni_of(kind) is Err && kind != 0x05 ==> uni_of(kind) == Err::<Uni, _>(
            Error::UnexpectedStream,
        ),
{
    assert(kind <= 0xff ==> (kind & 0x90 == 0x10 <==> kind < 0x80 && kind / 0x10 % 2 == 1))
        by (bit_vector);
}

/// Whoever asks for something is answered by the publisher, and whoever offers something by the
/// subscriber; no other request is expected.
pub proof fn law_requests(id: u64)
    ensures
        handler_of(id) == Ok::<_, Error>(Handler::Publisher) <==> id == 0x03 || id == 0x16 || id
            == 0x50 || id == 0x11 || id == 0x0d,
        handler_of(id) == Ok::<_, Error>(Handler::Subscriber) <==> id == 0x1d || id == 0x06,
        handler_of(id) is Err ==> handler_of(id) == Err::<Handler, _>(Error::UnexpectedStream),
{
}

} // verus!
