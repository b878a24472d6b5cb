//! Reading fragmented MP4: a moov, and after it pairs of moof and mdat.

use crate::mux::fragment::{
    extract_one, fragment_of, Fragment, FragmentView, ParseError, ParseErrorView, HANDLER_AUDIO,
    HANDLER_SUBTITLE, HANDLER_VIDEO,
};
use crate::mux::leaf::body_of;
use crate::mux::mp4::{
    atom_at, decode_mdat, decode_moof, decode_moov, is_whole, moof_at, moov_at, next_atom, regular,
    traf_views, AtomKind, Moov, MoovView, Traf, TrafView,
};
use crate::mux::outbox::{Outbox, OutboxView};
use crate::mux::types::{message_of, MuxError, MuxErrorView, TrackKind};
use crate::text::{append_decimal, decimal};
use vstd::prelude::*;
use vstd::slice::slice_subrange;
use vstd::slice::slice_to_vec;

verus! {

/// Why a track cannot be described.
#[derive(Debug, Clone, Copy, PartialEq, Eq, Structural)]
pub enum CodecError {
    /// The track has no codec.
    Missing,
    /// The track has more than one codec.
    Multiple,
    /// The audio is MPEG-2.
    Mpeg2,
}

/// Why an import failed.
#[derive(Debug)]
pub enum ImportError {
    /// The stream cannot be taken apart.
    Parse(ParseError),
    /// The fragment cannot be published.
    Mux(MuxError),
    /// The track cannot be described.
    Codec(CodecError),
    /// The codec is not known: the kind of the entry.
    UnknownCodec(String),
    /// The codec is known, and not supported: what the entry says.
    UnsupportedCodec(String),
    /// The fragment belongs to a track that was not announced.
    UnknownTrack,
    /// The first fragment of a track holds no keyframe.
    NoKeyframe,
    /// Groups are assigned by the caller, and none was.
    NoActiveGroup,
    /// Groups are not assigned by the caller.
    NotExplicit,
    /// There are no tracks yet.
    NoTracks,
    /// A time cannot be counted.
    TimeOverflow,
    /// The track is missing in the catalog.
    MissingConfig(TrackKind),
    /// No further track can be numbered.
    TooManyTracks,
}

/// What such an error says.
pub enum ImportErrorView {
    Parse(ParseErrorView),
    Mux(MuxErrorView),
    Codec(CodecError),
    UnknownCodec(Seq<char>),
    UnsupportedCodec(Seq<char>),
    UnknownTrack,
    NoKeyframe,
    NoActiveGroup,
    NotExplicit,
    NoTracks,
    TimeOverflow,
    MissingConfig(TrackKind),
    TooManyTracks,
}

impl View for ImportError {
    type V = ImportErrorView;

    open spec fn view(&self) -> ImportErrorView {
        match self {
            ImportError::Parse(e) => ImportErrorView::Parse(e@),
            ImportError::Mux(e) => ImportErrorView::Mux(e@),
            ImportError::Codec(e) => ImportErrorView::Codec(*e),
            ImportError::UnknownCodec(text) => ImportErrorView::UnknownCodec(text@),
            ImportError::UnsupportedCodec(text) => ImportErrorView::UnsupportedCodec(text@),
            ImportError::UnknownTrack => ImportErrorView::UnknownTrack,
            ImportError::NoKeyframe => ImportErrorView::NoKeyframe,
            ImportError::NoActiveGroup => ImportErrorView::NoActiveGroup,
            ImportError::NotExplicit => ImportErrorView::NotExplicit,
            ImportError::NoTracks => ImportErrorView::NoTracks,
            ImportError::TimeOverflow => ImportErrorView::TimeOverflow,
            ImportError::MissingConfig(kind) => ImportErrorView::MissingConfig(*kind),
            ImportError::TooManyTracks => ImportErrorView::TooManyTracks,
        }
    }
}

/// The four bytes of a handler, as numbers.
pub open spec fn handler_text(handler: u32) -> Seq<char> {
    "["@ + decimal(handler as nat / 0x100_0000) + ", "@ + decimal(
        handler as nat / 0x1_0000 % 0x100,
    ) + ", "@ + decimal(handler as nat / 0x100 % 0x100) + ", "@ + decimal(handler as nat % 0x100)
        + "]"@
}

/// Writes the four bytes of a handler, as numbers.
fn append_handler(s: &mut String, handler: u32)
    ensures
        final(s)@ == old(s)@ + handler_text(handler),
{
    s.append("[");
    append_decimal(s, (handler / 0x100_0000) as u64);
    s.append(", ");
    append_decimal(s, (handler / 0x1_0000 % 0x100) as u64);
    s.append(", ");
    append_decimal(s, (handler / 0x100 % 0x100) as u64);
    s.append(", ");
    append_decimal(s, (handler % 0x100) as u64);
    s.append("]");
    assert(s@ =~= old(s)@ + handler_text(handler));
}

/// What is said of samples that do not lie within the payload.
pub open spec fn range_text(start: u64, end: u64, len: u64) -> Seq<char> {
    "track sample range "@ + decimal(start as nat) + ".."@ + decimal(end as nat)
        + " is out of bounds of mdat (len "@ + decimal(len as nat) + ")"@
}

/// What is said of samples that do not lie within the payload.
fn range_message(start: u64, end: u64, len: u64) -> (s: String)
    ensures
        s@ == range_text(start, end, len),
{
    let mut s = "track sample range ".to_owned();
    append_decimal(&mut s, start);
    s.append("..");
    append_decimal(&mut s, end);
    s.append(" is out of bounds of mdat (len ");
    append_decimal(&mut s, len);
    s.append(")");
    s
}

/// What an error of the parser says.
pub open spec fn parse_message(e: ParseErrorView) -> Seq<char> {
    match e {
        ParseErrorView::Mp4(m) => m,
        ParseErrorView::DuplicateMoof => "duplicate moof box"@,
        ParseErrorView::MissingMoov => "missing moov box"@,
        ParseErrorView::MissingMoof => "missing moof box"@,
        ParseErrorView::UnknownTrack => "unknown track"@,
        ParseErrorView::UnexpectedHandler(h) => "unexpected track handler in traf: "@
            + handler_text(h),
        ParseErrorView::Subtitles => "subtitle tracks are not supported"@,
        ParseErrorView::UnknownHandler(h) => "unknown track type: "@ + handler_text(h),
        ParseErrorView::MissingTfdt => "missing tfdt box"@,
        ParseErrorView::MissingTrun => "missing trun box"@,
        ParseErrorView::NegativeOffset => "invalid data offset"@,
        ParseErrorView::OffsetUnderflow => "invalid data offset: underflow"@,
        ParseErrorView::OffsetOverflow => "invalid data offset: overflow"@,
        ParseErrorView::InvalidOffset => "invalid data offset"@,
        ParseErrorView::OutOfRange { start, end, len } => range_text(start, end, len),
    }
}

/// What an error of a description says.
pub open spec fn codec_message(e: CodecError) -> Seq<char> {
    match e {
        CodecError::Missing => "missing codec"@,
        CodecError::Multiple => "multiple codecs"@,
        CodecError::Mpeg2 => "unsupported codec: MPEG2"@,
    }
}

/// What an error says.
pub open spec fn import_message(e: ImportErrorView) -> Seq<char> {
    match e {
        ImportErrorView::Parse(e) => parse_message(e),
        ImportErrorView::Mux(e) => message_of(e),
        ImportErrorView::Codec(e) => codec_message(e),
        ImportErrorView::UnknownCodec(text) => "unknown codec: "@ + text,
        ImportErrorView::UnsupportedCodec(text) => "unsupported codec: "@ + text,
        ImportErrorView::UnknownTrack => "unknown track"@,
        ImportErrorView::NoKeyframe => "no keyframe at start"@,
        ImportErrorView::NoActiveGroup => "no active group: call start_group first"@,
        ImportErrorView::NotExplicit => "start_group requires explicit group mode"@,
        ImportErrorView::NoTracks => "no tracks: the moov was not parsed yet"@,
        ImportErrorView::TimeOverflow => "time overflow"@,
        ImportErrorView::MissingConfig(TrackKind::Video) => "missing video config"@,
        ImportErrorView::MissingConfig(TrackKind::Audio) => "missing audio config"@,
        ImportErrorView::TooManyTracks => "too many tracks"@,
    }
}

impl ImportError {
    /// What the error says.
    pub fn message(&self) -> (s: String)
        ensures
            s@ == import_message(self@),
    {
        match self {
            ImportError::Parse(ParseError::Mp4(m)) => m.clone(),
            ImportError::Parse(ParseError::DuplicateMoof) => "duplicate moof box".to_owned(),
            ImportError::Parse(ParseError::MissingMoov) => "missing moov box".to_owned(),
            ImportError::Parse(ParseError::MissingMoof) => "missing moof box".to_owned(),
            ImportError::Parse(ParseError::UnknownTrack) => "unknown track".to_owned(),
            ImportError::Parse(ParseError::UnexpectedHandler(h)) => {
                let mut s = "unexpected track handler in traf: ".to_owned();
                append_handler(&mut s, *h);
                s
            },
            ImportError::Parse(ParseError::Subtitles) => "subtitle tracks are not supported".to_owned(),
            ImportError::Parse(ParseError::UnknownHandler(h)) => {
                let mut s = "unknown track type: ".to_owned();
                append_handler(&mut s, *h);
                s
            },
            ImportError::Parse(ParseError::MissingTfdt) => "missing tfdt box".to_owned(),
            ImportError::Parse(ParseError::MissingTrun) => "missing trun box".to_owned(),
            ImportError::Parse(ParseError::NegativeOffset) => "invalid data offset".to_owned(),
            ImportError::Parse(ParseError::OffsetUnderflow) => "invalid data offset: underflow".to_owned(),
            ImportError::Parse(ParseError::OffsetOverflow) => "invalid data offset: overflow".to_owned(),
            ImportError::Parse(ParseError::InvalidOffset) => "invalid data offset".to_owned(),
            ImportError::Parse(ParseError::OutOfRange { start, end, len }) => range_message(
                *start,
                *end,
                *len,
            ),
            ImportError::Mux(e) => e.message(),
            ImportError::Codec(CodecError::Missing) => "missing codec".to_owned(),
            ImportError::Codec(CodecError::Multiple) => "multiple codecs".to_owned(),
            ImportError::UnknownCodec(text) => {
                let mut s = "unknown codec: ".to_owned();
                s.append(text.as_str());
                s
            },
            ImportError::UnsupportedCodec(text) => {
                let mut s = "unsupported codec: ".to_owned();
                s.append(text.as_str());
                s
            },
            ImportError::Codec(CodecError::Mpeg2) => "unsupported codec: MPEG2".to_owned(),
            ImportError::UnknownTrack => "unknown track".to_owned(),
            ImportError::NoKeyframe => "no keyframe at start".to_owned(),
            ImportError::NoActiveGroup => "no active group: call start_group first".to_owned(),
            ImportError::NotExplicit => "start_group requires explicit group mode".to_owned(),
            ImportError::NoTracks => "no tracks: the moov was not parsed yet".to_owned(),
            ImportError::TimeOverflow => "time overflow".to_owned(),
            ImportError::MissingConfig(TrackKind::Video) => "missing video config".to_owned(),
            ImportError::MissingConfig(TrackKind::Audio) => "missing audio config".to_owned(),
            ImportError::TooManyTracks => "too many tracks".to_owned(),
        }
    }
}

/// The result of a step, as a contract speaks of it.
pub open spec fn imported<T>(res: Result<T, ImportError>) -> Result<T, ImportErrorView> {
    match res {
        Ok(v) => Ok(v),
        Err(e) => Err(e@),
    }
}

/// Who is told what was read.
///
/// The parser handles the moov/moof/mdat state machine; the sink handles what to do with the
/// parsed results. What a sink does is a function of its state, of what is refused, and of what it
/// is told.
pub trait Fmp4Sink: Sized {
    /// What the sink is.
    type State;

    /// What this sink is.
    spec fn state(self) -> Self::State;

    /// What the sink becomes, what it asks for, and whether it succeeds, when it is told of track
    /// number `index` of a moov.
    spec fn inits(
        s: Self::State,
        out: OutboxView,
        kind: TrackKind,
        raw: Seq<u8>,
        moov: MoovView,
        index: nat,
    ) -> (Self::State, OutboxView, Result<(), ImportErrorView>);

    /// What the sink becomes, what it asks for, and whether it succeeds, when it is told of a
    /// fragment.
    spec fn fragments(s: Self::State, out: OutboxView, fragment: FragmentView) -> (
        Self::State,
        OutboxView,
        Result<(), ImportErrorView>,
    );

    /// Called once per track when the moov box is parsed.
    fn on_init(
        &mut self,
        kind: TrackKind,
        raw: &[u8],
        moov: &Moov,
        index: usize,
        out: &mut Outbox,
    ) -> (res: Result<(), ImportError>)
        requires
            moov_at(raw@) == Ok::<MoovView, Seq<char>>(moov@),
            index < moov@.trak.len(),
        ensures
            (final(self).state(), final(out)@, imported(res)) == Self::inits(
                old(self).state(),
                old(out)@,
                kind,
                raw@,
                moov@,
                index as nat,
            ),
    ;

    /// Called once per track per moof+mdat pair with the per-track fragment bytes.
    fn on_fragment(&mut self, fragment: Fragment, out: &mut Outbox) -> (res: Result<
        (),
        ImportError,
    >)
        ensures
            (final(self).state(), final(out)@, imported(res)) == Self::fragments(
                old(self).state(),
                old(out)@,
                fragment@,
            ),
    ;
}

/// What the parser has read: the moov, and the moof that waits for its mdat.
pub struct ParserView {
    pub moov: Option<Seq<u8>>,
    pub moof: Option<Seq<u8>>,
}

/// A moov, as bytes and as what they say.
#[derive(Debug, Clone)]
pub struct ReadMoov {
    pub raw: Vec<u8>,
    pub moov: Moov,
}

/// A moof, as bytes and as what they say.
#[derive(Debug, Clone)]
pub struct ReadMoof {
    pub raw: Vec<u8>,
    pub traf: Vec<Traf>,
}

/// Reusable fMP4 parser that dispatches events to an [`Fmp4Sink`].
#[derive(Clone)]
pub struct Fmp4Parser<S> {
    pub sink: S,
    pub moov: Option<ReadMoov>,
    pub moof: Option<ReadMoof>,
}

/// Whether a track is video or audio, by its handler.
pub open spec fn kind_of(handler: u32) -> Result<TrackKind, ParseErrorView> {
    if handler == HANDLER_VIDEO {
        Ok(TrackKind::Video)
    } else if handler == HANDLER_AUDIO {
        Ok(TrackKind::Audio)
    } else if handler == HANDLER_SUBTITLE {
        Err(ParseErrorView::Subtitles)
    } else {
        Err(ParseErrorView::UnknownHandler(handler))
    }
}

/// From track `i` of a moov on, the sink is told of the tracks, until one is refused.
pub open spec fn init_all<S: Fmp4Sink>(
    s: S::State,
    out: OutboxView,
    raw: Seq<u8>,
    moov: MoovView,
    i: nat,
) -> (S::State, OutboxView, Result<(), ImportErrorView>)
    decreases moov.trak.len() - i,
{
    if i >= moov.trak.len() {
        (s, out, Ok(()))
    } else {
        match kind_of(moov.trak[i as int].handler) {
            Err(e) => (s, out, Err(ImportErrorView::Parse(e))),
            Ok(kind) => {
                let (s, out, res) = S::inits(s, out, kind, raw, moov, i);
                if res is Err {
                    (s, out, res)
                } else {
                    init_all::<S>(s, out, raw, moov, i + 1)
                }
            },
        }
    }
}

/// From track fragment `i` of a moof on, the sink is told of the fragments, until one cannot be
/// taken out or is refused.
pub open spec fn feed_all<S: Fmp4Sink>(
    s: S::State,
    out: OutboxView,
    moov: MoovView,
    raw: Seq<u8>,
    traf: Seq<TrafView>,
    header_size: u64,
    data: Seq<u8>,
    i: nat,
) -> (S::State, OutboxView, Result<(), ImportErrorView>)
    decreases traf.len() - i,
{
    if i >= traf.len() {
        (s, out, Ok(()))
    } else {
        match fragment_of(moov, raw, i, traf[i as int], raw.len() as u64, header_size, data) {
            Err(e) => (s, out, Err(ImportErrorView::Parse(e))),
            Ok(f) => {
                let (s, out, res) = S::fragments(s, out, f);
                if res is Err {
                    (s, out, res)
                } else {
                    feed_all::<S>(s, out, moov, raw, traf, header_size, data, i + 1)
                }
            },
        }
    }
}

/// The payload of an mdat is taken apart by the moof before it, which is then used up.
pub open spec fn extract<S: Fmp4Sink>(
    p: ParserView,
    s: S::State,
    out: OutboxView,
    raw: Seq<u8>,
    data: Seq<u8>,
) -> (ParserView, S::State, OutboxView, Result<(), ImportErrorView>) {
    match (p.moov, p.moof) {
        (None, _) => (p, s, out, Err(ImportErrorView::Parse(ParseErrorView::MissingMoov))),
        (Some(_), None) => (p, s, out, Err(ImportErrorView::Parse(ParseErrorView::MissingMoof))),
        (Some(moov), Some(moof)) => {
            let (s, out, res) = feed_all::<S>(
                s,
                out,
                moov_at(moov)->Ok_0,
                moof,
                moof_at(moof)->Ok_0,
                (raw.len() - data.len()) as u64,
                data,
                0,
            );
            (ParserView { moof: None, ..p }, s, out, res)
        },
    }
}

/// What one atom does.
pub open spec fn atom_step<S: Fmp4Sink>(
    p: ParserView,
    s: S::State,
    out: OutboxView,
    kind: AtomKind,
    raw: Seq<u8>,
) -> (ParserView, S::State, OutboxView, Result<(), ImportErrorView>) {
    match kind {
        AtomKind::Moov => match moov_at(raw) {
            Err(e) => (p, s, out, Err(ImportErrorView::Parse(ParseErrorView::Mp4(e)))),
            Ok(moov) => {
                let (s, out, res) = init_all::<S>(s, out, raw, moov, 0);
                if res is Err {
                    (p, s, out, res)
                } else {
                    (ParserView { moov: Some(raw), ..p }, s, out, res)
                }
            },
        },
        AtomKind::Moof => match moof_at(raw) {
            Err(e) => (p, s, out, Err(ImportErrorView::Parse(ParseErrorView::Mp4(e)))),
            Ok(_) => if p.moof is Some {
                (p, s, out, Err(ImportErrorView::Parse(ParseErrorView::DuplicateMoof)))
            } else {
                (ParserView { moof: Some(raw), ..p }, s, out, Ok(()))
            },
        },
        AtomKind::Mdat => extract::<S>(p, s, out, raw, body_of(raw)),
        _ => (p, s, out, Ok(())),
    }
}

/// What bytes do: atom after atom, as far as they are complete, until one fails. What is left is
/// the atom that is not complete.
pub open spec fn decode_all<S: Fmp4Sink>(
    p: ParserView,
    s: S::State,
    out: OutboxView,
    data: Seq<u8>,
) -> (ParserView, S::State, OutboxView, Result<Seq<u8>, ImportErrorView>)
    decreases data.len(),
{
    match atom_at(data) {
        Err(e) => (p, s, out, Err(ImportErrorView::Parse(ParseErrorView::Mp4(e)))),
        Ok(None) => (p, s, out, Ok(data)),
        Ok(Some((kind, size))) => {
            let (p, s, out, res) = atom_step::<S>(p, s, out, kind, data.take(size as int));
            match res {
                Err(e) => (p, s, out, Err(e)),
                Ok(()) => if 0 < size <= data.len() {
                    decode_all::<S>(p, s, out, data.skip(size as int))
                } else {
                    (p, s, out, Ok(data))
                },
            }
        },
    }
}

/// Whether the samples of each run say the same values but for their flags, in all of the track
/// fragments.
pub open spec fn all_regular(traf: Seq<TrafView>) -> bool {
    forall|i: int| 0 <= i < traf.len() ==> regular(#[trigger] traf[i])
}

impl<S: Fmp4Sink> Fmp4Parser<S> {
    /// What was read is what the bytes say.
    pub open spec fn wf(self) -> bool {
        &&& self.moov matches Some(m) ==> moov_at(m.raw@) == Ok::<MoovView, Seq<char>>(m.moov@)
        &&& self.moof matches Some(m) ==> moof_at(m.raw@) == Ok::<Seq<TrafView>, Seq<char>>(
            traf_views(m.traf@),
        ) && all_regular(traf_views(m.traf@))
    }

    /// What was read.
    pub open spec fn parser(self) -> ParserView {
        ParserView {
            moov: match self.moov {
                Some(m) => Some(m.raw@),
                None => None,
            },
            moof: match self.moof {
                Some(m) => Some(m.raw@),
                None => None,
            },
        }
    }

    /// A parser that has read nothing.
    pub fn new(sink: S) -> (p: Self)
        ensures
            p.wf(),
            p.sink == sink,
            p.parser() == (ParserView { moov: None, moof: None }),
    {
        Fmp4Parser { sink, moov: None, moof: None }
    }

    /// Whether the moov was read.
    pub fn is_initialized(&self) -> (b: bool)
        ensures
            b == (self.parser().moov is Some),
    {
        self.moov.is_some()
    }

    /// Decode a buffer of bytes: how many of them were used.
    pub fn decode(&mut self, data: &[u8], out: &mut Outbox) -> (res: Result<usize, ImportError>)
        requires
            old(self).wf(),
        ensures
            final(self).wf(),
            ({
                let (p, s, o, r) = decode_all::<S>(
                    old(self).parser(),
                    old(self).sink.state(),
                    old(out)@,
                    data@,
                );
                &&& final(self).parser() == p
                &&& final(self).sink.state() == s
                &&& final(out)@ == o
                &&& match r {
                    Ok(rest) => res matches Ok(n) && n <= data@.len() && rest == data@.skip(
                        n as int,
                    ),
                    Err(e) => res matches Err(f) && f@ == e,
                }
            }),
    {
        let mut position: usize = 0;
        assert(data@.skip(0) =~= data@);
        loop
            invariant
                position <= data@.len(),
                self.wf(),
                decode_all::<S>(
                    old(self).parser(),
                    old(self).sink.state(),
                    old(out)@,
                    data@,
                ) == decode_all::<S>(
                    self.parser(),
                    self.sink.state(),
                    out@,
                    data@.skip(position as int),
                ),
            decreases data@.len() - position,
        {
            let rest = slice_subrange(data, position, data.len());
            assert(rest@ =~= data@.skip(position as int));
            let (kind, size): (AtomKind, usize) = match next_atom(rest) {
                Ok(Some(atom)) => atom,
                Ok(None) => {
                    return Ok(position);
                },
                Err(e) => {
                    return Err(ImportError::Parse(ParseError::Mp4(e)));
                },
            };
            let raw = slice_subrange(rest, 0, size);
            assert(raw@ =~= rest@.take(size as int));
            self.atom(kind, raw, out)?;
            assert(rest@.skip(size as int) =~= data@.skip(position + size));
            position = position + size;
        }
    }

    /// Handles one atom.
    fn atom(&mut self, kind: AtomKind, raw: &[u8], out: &mut Outbox) -> (res: Result<
        (),
        ImportError,
    >)
        requires
            old(self).wf(),
            is_whole(raw@),
        ensures
            final(self).wf(),
            (
                final(self).parser(),
                final(self).sink.state(),
                final(out)@,
                imported(res),
            ) == atom_step::<S>(
                old(self).parser(),
                old(self).sink.state(),
                old(out)@,
                kind,
                raw@,
            ),
    {
        match kind {
            AtomKind::Moov => {
                let moov = match decode_moov(raw) {
                    Ok(moov) => moov,
                    Err(e) => {
                        return Err(ImportError::Parse(ParseError::Mp4(e)));
                    },
                };
                self.init(raw, moov, out)
            },
            AtomKind::Moof => {
                let traf = match decode_moof(raw) {
                    Ok(traf) => traf,
                    Err(e) => {
                        return Err(ImportError::Parse(ParseError::Mp4(e)));
                    },
                };
                if self.moof.is_some() {
                    return Err(ImportError::Parse(ParseError::DuplicateMoof));
                }
                assert(all_regular(traf_views(traf@)));
                self.moof = Some(ReadMoof { raw: slice_to_vec(raw), traf });
                Ok(())
            },
            AtomKind::Mdat => {
                let data = match decode_mdat(raw) {
                    Ok(data) => data,
                    Err(e) => {
                        return Err(ImportError::Parse(ParseError::Mp4(e)));
                    },
                };
                self.extract(data.as_slice(), raw, out)
            },
            _ => Ok(()),
        }
    }

    /// Tells the sink of the tracks of a moov, and keeps it if the sink takes them all.
    fn init(&mut self, raw: &[u8], moov: Moov, out: &mut Outbox) -> (res: Result<(), ImportError>)
        requires
            old(self).wf(),
            moov_at(raw@) == Ok::<MoovView, Seq<char>>(moov@),
        ensures
            final(self).wf(),
            ({
                let (s, o, r) = init_all::<S>(
                    old(self).sink.state(),
                    old(out)@,
                    raw@,
                    moov@,
                    0,
                );
                &&& final(self).sink.state() == s
                &&& final(out)@ == o
                &&& imported(res) == r
                &&& final(self).parser() == if r is Ok {
                    ParserView { moov: Some(raw@), ..old(self).parser() }
                } else {
                    old(self).parser()
                }
            }),
    {
        let mut i: usize = 0;
        while i < moov.trak.len()
            invariant
                i <= moov@.trak.len(),
                moov_at(raw@) == Ok::<MoovView, Seq<char>>(moov@),
                self.moov == old(self).moov,
                self.moof == old(self).moof,
                self.wf(),
                init_all::<S>(old(self).sink.state(), old(out)@, raw@, moov@, 0) == init_all::<S>(
                    self.sink.state(),
                    out@,
                    raw@,
                    moov@,
                    i as nat,
                ),
            decreases moov@.trak.len() - i,
        {
            let handler: u32 = moov.trak[i].handler;
            let kind = if handler == HANDLER_VIDEO {
                TrackKind::Video
            } else if handler == HANDLER_AUDIO {
                TrackKind::Audio
            } else if handler == HANDLER_SUBTITLE {
                return Err(ImportError::Parse(ParseError::Subtitles));
            } else {
                return Err(ImportError::Parse(ParseError::UnknownHandler(handler)));
            };
            self.sink.on_init(kind, raw, &moov, i, out)?;
            i = i + 1;
        }
        self.moov = Some(ReadMoov { raw: slice_to_vec(raw), moov });
        Ok(())
    }

    /// Takes the payload of an mdat apart and tells the sink of the fragments.
    fn extract(&mut self, data: &[u8], raw: &[u8], out: &mut Outbox) -> (res: Result<
        (),
        ImportError,
    >)
        requires
            old(self).wf(),
            data@.len() <= raw@.len(),
        ensures
            final(self).wf(),
            (
                final(self).parser(),
                final(self).sink.state(),
                final(out)@,
                imported(res),
            ) == extract::<S>(
                old(self).parser(),
                old(self).sink.state(),
                old(out)@,
                raw@,
                data@,
            ),
    {
        let moov = match &self.moov {
            Some(moov) => moov,
            None => {
                return Err(ImportError::Parse(ParseError::MissingMoov));
            },
        };
        let moof = match self.moof.take() {
            Some(moof) => moof,
            None => {
                return Err(ImportError::Parse(ParseError::MissingMoof));
            },
        };
        let header_size: u64 = (raw.len() - data.len()) as u64;
        let ghost traf = traf_views(moof.traf@);
        let mut i: usize = 0;
        while i < moof.traf.len()
            invariant
                i <= moof.traf@.len(),
                traf == traf_views(moof.traf@),
                moof_at(moof.raw@) == Ok::<Seq<TrafView>, Seq<char>>(traf),
                all_regular(traf),
                self.moof is None,
                old(self).moof == Some(moof),
                header_size == raw@.len() - data@.len(),
                self.moov == old(self).moov,
                self.moov matches Some(m) && *moov == m,
                self.wf(),
                feed_all::<S>(
                    old(self).sink.state(),
                    old(out)@,
                    moov.moov@,
                    moof.raw@,
                    traf,
                    header_size,
                    data@,
                    0,
                ) == feed_all::<S>(
                    self.sink.state(),
                    out@,
                    moov.moov@,
                    moof.raw@,
                    traf,
                    header_size,
                    data@,
                    i as nat,
                ),
            decreases moof.traf@.len() - i,
        {
            assert(traf[i as int] == moof.traf@[i as int]@);
            let fragment = match extract_one(
                &moov.moov,
                moof.raw.as_slice(),
                i,
                &moof.traf[i],
                moof.raw.len() as u64,
                header_size,
                data,
            ) {
                Ok(fragment) => fragment,
                Err(e) => {
                    return Err(ImportError::Parse(e));
                },
            };
            self.sink.on_fragment(fragment, out)?;
            i = i + 1;
        }
        Ok(())
    }
}

} // verus!
