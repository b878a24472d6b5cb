//! Session errors and the codes that carry them over the wire.

use crate::coding;
use crate::text::{append_decimal, decimal};
use vstd::prelude::*;

verus! {

/// A list of possible errors that can occur during the session.
#[derive(Debug)]
#[non_exhaustive]
pub enum Error {
    /// The transport failed without a reset code.
    Transport(String),
    /// A message could not be decoded.
    Decode(coding::DecodeError),
    /// No version is supported by both sides.
    Version,
    /// A required extension was not present.
    RequiredExtension,
    /// An unexpected stream type was received.
    UnexpectedStream,
    /// An integer does not fit its encoding.
    BoundsExceeded(coding::BoundsExceeded),
    /// The broadcast, track or identifier is a duplicate.
    Duplicate,
    /// There are no more readers.
    Cancel,
    /// It took too long to open or transmit a stream.
    Timeout,
    /// The group is older than the latest group and dropped.
    Old,
    /// The application closes the stream with a code.
    App(u16),
    /// The broadcast or track does not exist.
    NotFound,
    /// A broadcast was requested that is neither announced nor served by a dynamic
    /// router, so there is no route to it.
    Unroutable,
    /// A frame does not have the size that was announced.
    WrongSize,
    /// The peer broke the protocol.
    ProtocolViolation,
    /// The peer may not do this.
    Unauthorized,
    /// A message arrived where it may not.
    UnexpectedMessage,
    /// The peer asks for something that is not supported.
    Unsupported,
    /// A message could not be encoded.
    Encode(coding::EncodeError),
    /// A message holds too many parameters.
    TooManyParameters,
    /// The peer may not take this role.
    InvalidRole,
    /// The ALPN is not known.
    UnknownAlpn(String),
    /// The producer was dropped.
    Dropped,
    /// The session is closed.
    Closed,
    /// The cached frame has been evicted due to the group size limit.
    CacheFull,
    /// A frame declared a payload size larger than the receiver accepts.
    FrameTooLarge,
    /// The session is going away (GOAWAY received); new subscribe and
    /// subscribe-namespace requests are rejected.
    GoingAway,
    /// The peer did not close the session within the GOAWAY timeout.
    GoawayTimeout,
    /// A precondition for the requested operation was not met.
    NotReady,
    /// A remote error received via a stream/session reset code.
    Remote(u32),
}

impl Clone for Error {
    fn clone(&self) -> (copy: Self)
        ensures
            copy == *self,
    {
        match self {
            Error::Transport(m) => Error::Transport(m.clone()),
            Error::Decode(v) => Error::Decode(*v),
            Error::Version => Error::Version,
            Error::RequiredExtension => Error::RequiredExtension,
            Error::UnexpectedStream => Error::UnexpectedStream,
            Error::BoundsExceeded(v) => Error::BoundsExceeded(*v),
            Error::Duplicate => Error::Duplicate,
            Error::Cancel => Error::Cancel,
            Error::Timeout => Error::Timeout,
            Error::Old => Error::Old,
            Error::App(v) => Error::App(*v),
            Error::NotFound => Error::NotFound,
            Error::Unroutable => Error::Unroutable,
            Error::WrongSize => Error::WrongSize,
            Error::ProtocolViolation => Error::ProtocolViolation,
            Error::Unauthorized => Error::Unauthorized,
            Error::UnexpectedMessage => Error::UnexpectedMessage,
            Error::Unsupported => Error::Unsupported,
            Error::Encode(v) => Error::Encode(*v),
            Error::TooManyParameters => Error::TooManyParameters,
            Error::InvalidRole => Error::InvalidRole,
            Error::UnknownAlpn(m) => Error::UnknownAlpn(m.clone()),
            Error::Dropped => Error::Dropped,
            Error::Closed => Error::Closed,
            Error::CacheFull => Error::CacheFull,
            Error::FrameTooLarge => Error::FrameTooLarge,
            Error::GoingAway => Error::GoingAway,
            Error::GoawayTimeout => Error::GoawayTimeout,
            Error::NotReady => Error::NotReady,
            Error::Remote(v) => Error::Remote(*v),
        }
    }
}

/// The result of a session operation.
pub type Result<T> = std::result::Result<T, Error>;

/// The wire code of an error.
pub open spec fn code_of(err: Error) -> u32 {
    match err {
        Error::Cancel => 0,
        Error::RequiredExtension => 1,
        Error::Old => 2,
        Error::Timeout => 3,
        Error::Transport(_) => 4,
        Error::Decode(_) => 5,
        Error::Unauthorized => 6,
        Error::Version => 9,
        Error::UnexpectedStream => 10,
        Error::BoundsExceeded(_) => 11,
        Error::Duplicate => 12,
        Error::NotFound => 13,
        Error::WrongSize => 14,
        Error::ProtocolViolation => 15,
        Error::UnexpectedMessage => 16,
        Error::Unsupported => 17,
        Error::Encode(_) => 18,
        Error::TooManyParameters => 19,
        Error::InvalidRole => 20,
        Error::UnknownAlpn(_) => 21,
        Error::Dropped => 24,
        Error::Closed => 25,
        Error::CacheFull => 26,
        Error::FrameTooLarge => 27,
        Error::Unroutable => 30,
        Error::GoingAway => 31,
        Error::GoawayTimeout => 32,
        Error::NotReady => 33,
        Error::App(app) => (app + 64) as u32,
        Error::Remote(code) => code,
    }
}

/// The error whose detail, if it has any, is not on the wire: its code alone cannot
/// bring the detail back.
pub open spec fn detail_off_wire(err: Error) -> bool {
    err is Transport || err is Decode || err is Encode || err is UnknownAlpn
}

/// The codes that stand for one known error of their own.
pub open spec fn assigned_code(code: u32) -> bool {
    ||| code <= 3
    ||| code == 6
    ||| 9 <= code <= 17
    ||| 19 <= code <= 20
    ||| 24 <= code <= 27
    ||| 30 <= code <= 33
}

/// The error that a wire code is taken for: the error of its own that has this code, an
/// application error for the 65536 codes from 64 on, and else the bare code.
pub open spec fn error_of(code: u32, err: Error) -> bool {
    if assigned_code(code) {
        code_of(err) == code && !(err is Remote) && !(err is App) && !detail_off_wire(err)
    } else if 64 <= code < 0x1_0040 {
        err == Error::App((code - 64) as u16)
    } else {
        err == Error::Remote(code)
    }
}

/// The code of a close of the session, if there was one.
pub open spec fn session_code(session_error: Option<(u32, String)>) -> Option<u32> {
    match session_error {
        Some((code, _)) => Some(code),
        None => None,
    }
}

/// The code that a failure of the transport has: that of the session before that of the stream.
pub open spec fn failed_code(session: Option<u32>, stream: Option<u32>) -> Option<u32> {
    match session {
        Some(code) => Some(code),
        None => stream,
    }
}

/// What an error says.
pub open spec fn message_of(err: Error) -> Seq<char> {
    match err {
        Error::Transport(message) => "transport: "@ + message@,
        Error::Decode(err) => coding::decode_message(err),
        Error::Version => "unsupported versions"@,
        Error::RequiredExtension => "extension required"@,
        Error::UnexpectedStream => "unexpected stream type"@,
        Error::BoundsExceeded(_) => "value out of range"@,
        Error::Duplicate => "duplicate"@,
        Error::Cancel => "cancelled"@,
        Error::Timeout => "timeout"@,
        Error::Old => "old"@,
        Error::App(code) => "app code="@ + decimal(code as nat),
        Error::NotFound => "not found"@,
        Error::Unroutable => "unroutable"@,
        Error::WrongSize => "wrong frame size"@,
        Error::ProtocolViolation => "protocol violation"@,
        Error::Unauthorized => "unauthorized"@,
        Error::UnexpectedMessage => "unexpected message"@,
        Error::Unsupported => "unsupported"@,
        Error::Encode(err) => coding::encode_message(err),
        Error::TooManyParameters => "too many parameters"@,
        Error::InvalidRole => "invalid role"@,
        Error::UnknownAlpn(alpn) => "unknown ALPN: "@ + alpn@,
        Error::Dropped => "dropped"@,
        Error::Closed => "closed"@,
        Error::CacheFull => "cache full"@,
        Error::FrameTooLarge => "frame too large"@,
        Error::GoingAway => "going away"@,
        Error::GoawayTimeout => "goaway timeout"@,
        Error::NotReady => "not ready"@,
        Error::Remote(code) => "remote error: code="@ + decimal(code as nat),
    }
}

impl Error {
    /// What the error says.
    pub fn message(&self) -> (s: String)
        ensures
            s@ == message_of(*self),
    {
        let mut detail = String::new();
        let text = match self {
            Self::Transport(message) => {
                detail.append(message.as_str());
                "transport: "
            },
            Self::Decode(err) => err.message(),
            Self::Version => "unsupported versions",
            Self::RequiredExtension => "extension required",
            Self::UnexpectedStream => "unexpected stream type",
            Self::BoundsExceeded(_) => "value out of range",
            Self::Duplicate => "duplicate",
            Self::Cancel => "cancelled",
            Self::Timeout => "timeout",
            Self::Old => "old",
            Self::App(code) => {
                append_decimal(&mut detail, *code as u64);
                "app code="
            },
            Self::NotFound => "not found",
            Self::Unroutable => "unroutable",
            Self::WrongSize => "wrong frame size",
            Self::ProtocolViolation => "protocol violation",
            Self::Unauthorized => "unauthorized",
            Self::UnexpectedMessage => "unexpected message",
            Self::Unsupported => "unsupported",
            Self::Encode(err) => err.message(),
            Self::TooManyParameters => "too many parameters",
            Self::InvalidRole => "invalid role",
            Self::UnknownAlpn(alpn) => {
                detail.append(alpn.as_str());
                "unknown ALPN: "
            },
            Self::Dropped => "dropped",
            Self::Closed => "closed",
            Self::CacheFull => "cache full",
            Self::FrameTooLarge => "frame too large",
            Self::GoingAway => "going away",
            Self::GoawayTimeout => "goaway timeout",
            Self::NotReady => "not ready",
            Self::Remote(code) => {
                append_decimal(&mut detail, *code as u64);
                "remote error: code="
            },
        };
        let mut s = text.to_owned();
        s.append(detail.as_str());
        assert(s@ =~= message_of(*self));
        s
    }

    /// An integer code that is sent over the wire.
    pub fn to_code(&self) -> (code: u32)
        ensures
            code == code_of(*self),
    {
        match self {
            Self::Cancel => 0,
            Self::RequiredExtension => 1,
            Self::Old => 2,
            Self::Timeout => 3,
            Self::Transport(_) => 4,
            Self::Decode(_) => 5,
            Self::Unauthorized => 6,
            Self::Version => 9,
            Self::UnexpectedStream => 10,
            Self::BoundsExceeded(_) => 11,
            Self::Duplicate => 12,
            Self::NotFound => 13,
            Self::WrongSize => 14,
            Self::ProtocolViolation => 15,
            Self::UnexpectedMessage => 16,
            Self::Unsupported => 17,
            Self::Encode(_) => 18,
            Self::TooManyParameters => 19,
            Self::InvalidRole => 20,
            Self::UnknownAlpn(_) => 21,
            Self::Dropped => 24,
            Self::Closed => 25,
            Self::CacheFull => 26,
            Self::FrameTooLarge => 27,
            // 28 and 29 are reserved, so that Unroutable keeps the code 30 everywhere.
            Self::Unroutable => 30,
            Self::GoingAway => 31,
            Self::GoawayTimeout => 32,
            Self::NotReady => 33,
            Self::App(app) => *app as u32 + 64,
            Self::Remote(code) => *code,
        }
    }

    /// Reconstruct an [`Error`] from a wire code.
    ///
    /// Payload-free codes round-trip exactly through [`to_code`](Self::to_code).
    /// Codes whose variant carries detail that is not on the wire (4 Transport,
    /// 5 Decode, 18 Encode, 21 UnknownAlpn) stay [`Error::Remote`] rather than
    /// reconstruct a misleading placeholder payload. Unrecognized codes also
    /// become [`Error::Remote`].
    pub fn from_code(code: u32) -> (err: Self)
        ensures
            error_of(code, err),
    {
        match code {
            0 => Self::Cancel,
            1 => Self::RequiredExtension,
            2 => Self::Old,
            3 => Self::Timeout,
            6 => Self::Unauthorized,
            9 => Self::Version,
            10 => Self::UnexpectedStream,
            11 => Self::BoundsExceeded(coding::BoundsExceeded),
            12 => Self::Duplicate,
            13 => Self::NotFound,
            14 => Self::WrongSize,
            15 => Self::ProtocolViolation,
            16 => Self::UnexpectedMessage,
            17 => Self::Unsupported,
            19 => Self::TooManyParameters,
            20 => Self::InvalidRole,
            24 => Self::Dropped,
            25 => Self::Closed,
            26 => Self::CacheFull,
            27 => Self::FrameTooLarge,
            30 => Self::Unroutable,
            31 => Self::GoingAway,
            32 => Self::GoawayTimeout,
            33 => Self::NotReady,
            c => {
                if 64 <= c && c < 0x1_0040 {
                    Self::App((c - 64) as u16)
                } else {
                    // 4, 5, 18, 21 and anything unrecognized: keep the raw code, since the
                    // detail of the structured variant is not recoverable from the wire, and
                    // an application code has 16 bits.
                    Self::Remote(code)
                }
            },
        }
    }

    /// Convert what a transport reports of a failure into an [`Error`].
    ///
    /// `session_error` is the code and reason of a connection-level close, `stream_error`
    /// the code of a stream-level reset. The session's code comes first, then the stream's;
    /// both go through [`from_code`](Self::from_code). With neither, the failure is
    /// [`Error::Transport`] with the transport's own message.
    pub fn from_transport(
        session_error: Option<(u32, String)>,
        stream_error: Option<u32>,
        message: String,
    ) -> (err: Self)
        ensures
            match failed_code(session_code(session_error), stream_error) {
                Some(code) => error_of(code, err),
                None => err == Error::Transport(message),
            },
    {
        if let Some((code, _reason)) = session_error {
            return Self::from_code(code);
        }
        if let Some(code) = stream_error {
            return Self::from_code(code);
        }
        Self::Transport(message)
    }
}

/// An error that carries no detail, or only an application code, comes back from its
/// own wire code.
pub proof fn law_code_round_trip(err: Error, back: Error)
    requires
        !detail_off_wire(err),
        !(err is Remote),
        error_of(code_of(err), back),
    ensures
        back == err,
{
}

/// Whatever error a code stands for, its code is the one it was made from.
pub proof fn law_code_is_kept(code: u32, err: Error)
    requires
        error_of(code, err),
    ensures
        code_of(err) == code,
{
}

/// The codes of the errors whose detail is not on the wire come back as bare codes.
pub proof fn law_detail_becomes_remote(err: Error, back: Error)
    requires
        detail_off_wire(err),
        error_of(code_of(err), back),
    ensures
        back == Error::Remote(code_of(err)),
{
}

/// Every error has its number on the wire, and the application's own begin behind those.
pub proof fn law_codes(err: Error)
    ensures
        err is Cancel ==> code_of(err) == 0,
        err is RequiredExtension ==> code_of(err) == 1,
        err is Old ==> code_of(err) == 2,
        err is Timeout ==> code_of(err) == 3,
        err is Transport ==> code_of(err) == 4,
        err is Decode ==> code_of(err) == 5,
        err is Unauthorized ==> code_of(err) == 6,
        err is Version ==> code_of(err) == 9,
        err is UnexpectedStream ==> code_of(err) == 10,
        err is BoundsExceeded ==> code_of(err) == 11,
        err is Duplicate ==> code_of(err) == 12,
        err is NotFound ==> code_of(err) == 13,
        err is WrongSize ==> code_of(err) == 14,
        err is ProtocolViolation ==> code_of(err) == 15,
        err is UnexpectedMessage ==> code_of(err) == 16,
        err is Unsupported ==> code_of(err) == 17,
        err is Encode ==> code_of(err) == 18,
        err is TooManyParameters ==> code_of(err) == 19,
        err is InvalidRole ==> code_of(err) == 20,
        err is UnknownAlpn ==> code_of(err) == 21,
        err is Dropped ==> code_of(err) == 24,
        err is Closed ==> code_of(err) == 25,
        err is CacheFull ==> code_of(err) == 26,
        err is FrameTooLarge ==> code_of(err) == 27,
        err is Unroutable ==> code_of(err) == 30,
        err is GoingAway ==> code_of(err) == 31,
        err is GoawayTimeout ==> code_of(err) == 32,
        err is NotReady ==> code_of(err) == 33,
        err is App ==> code_of(err) == err->App_0 + 64,
        err is Remote ==> code_of(err) == err->Remote_0,
{
}

/// No two errors have the same number, but for those that only carry one.
pub proof fn law_codes_differ(a: Error, b: Error)
    requires
        code_of(a) == code_of(b),
        !(a is Remote) && !(b is Remote),
        !detail_off_wire(a),
    ensures
        a == b,
{
}

/// A number that no error has is kept as it came; those of the application are taken for its own.
pub proof fn law_unknown_codes(code: u32, err: Error)
    requires
        error_of(code, err),
    ensures
        64 <= code <= 64 + u16::MAX <==> err is App,
        code > 64 + u16::MAX ==> err == Error::Remote(code),
        34 <= code < 64 ==> err == Error::Remote(code),
{
}

/// A failure of the transport has the code with which the session was closed, whatever became of
/// the stream; else that of the stream; and it has none exactly if neither has one.
pub proof fn law_session_code_comes_first(session: u32, stream: Option<u32>)
    ensures
        failed_code(Some(session), stream) == Some(session),
        failed_code(None, stream) == stream,
{
}

} // verus!
