//! Taking a fragment of several tracks apart into one fragment for each.

use crate::coding::{be_bytes, lemma_be_bytes_len};
use crate::mux::cmsf::{is_sync, or, sample_is_sync};
use crate::mux::faithful::{faithful, law_fragment_is_faithful};
use crate::mux::leaf::body_of;
use crate::mux::mp4::{
    encode_mdat, encode_single_moof, is_whole, moof_at, reads_back, regular, single_moof, trun_views,
    without_offsets, MoovView, Moov, Traf, TrafView, Trak, Trex, Trun, TrunEntry, TrunView,
};
use crate::mux::types::TrackKind;
use vstd::prelude::*;
use vstd::slice::slice_subrange;
use vstd::slice::slice_to_vec;

verus! {

/// The handler of a video track, `vide`.
pub const HANDLER_VIDEO: u32 = 0x7669_6465;

/// The handler of an audio track, `soun`.
pub const HANDLER_AUDIO: u32 = 0x736f_756e;

/// The handler of a subtitle track, `sbtl`.
pub const HANDLER_SUBTITLE: u32 = 0x7362_746c;

/// Why an MP4 stream cannot be taken apart.
#[derive(Debug)]
pub enum ParseError {
    /// An atom cannot be read or written.
    Mp4(String),
    /// A second moof came before the mdat of the first.
    DuplicateMoof,
    /// There is no moov yet.
    MissingMoov,
    /// There is no moof for the mdat.
    MissingMoof,
    /// A fragment belongs to no track.
    UnknownTrack,
    /// A fragment belongs to a track that is neither video nor audio.
    UnexpectedHandler(u32),
    /// Subtitle tracks are not supported.
    Subtitles,
    /// A track has a handler that is not known.
    UnknownHandler(u32),
    /// A fragment has no time.
    MissingTfdt,
    /// A fragment has no runs.
    MissingTrun,
    /// A data offset is negative.
    NegativeOffset,
    /// A data offset lies before the payload.
    OffsetUnderflow,
    /// A data offset cannot be counted.
    OffsetOverflow,
    /// A sample lies beyond the payload.
    InvalidOffset,
    /// The samples do not lie within the payload, which is `len` bytes long.
    OutOfRange { start: u64, end: u64, len: u64 },
}

/// What such an error says.
pub enum ParseErrorView {
    Mp4(Seq<char>),
    DuplicateMoof,
    MissingMoov,
    MissingMoof,
    UnknownTrack,
    UnexpectedHandler(u32),
    Subtitles,
    UnknownHandler(u32),
    MissingTfdt,
    MissingTrun,
    NegativeOffset,
    OffsetUnderflow,
    OffsetOverflow,
    InvalidOffset,
    OutOfRange { start: u64, end: u64, len: u64 },
}

impl View for ParseError {
    type V = ParseErrorView;

    open spec fn view(&self) -> ParseErrorView {
        match self {
            ParseError::Mp4(m) => ParseErrorView::Mp4(m@),
            ParseError::DuplicateMoof => ParseErrorView::DuplicateMoof,
            ParseError::MissingMoov => ParseErrorView::MissingMoov,
            ParseError::MissingMoof => ParseErrorView::MissingMoof,
            ParseError::UnknownTrack => ParseErrorView::UnknownTrack,
            ParseError::UnexpectedHandler(h) => ParseErrorView::UnexpectedHandler(*h),
            ParseError::Subtitles => ParseErrorView::Subtitles,
            ParseError::UnknownHandler(h) => ParseErrorView::UnknownHandler(*h),
            ParseError::MissingTfdt => ParseErrorView::MissingTfdt,
            ParseError::MissingTrun => ParseErrorView::MissingTrun,
            ParseError::NegativeOffset => ParseErrorView::NegativeOffset,
            ParseError::OffsetUnderflow => ParseErrorView::OffsetUnderflow,
            ParseError::OffsetOverflow => ParseErrorView::OffsetOverflow,
            ParseError::InvalidOffset => ParseErrorView::InvalidOffset,
            ParseError::OutOfRange { start, end, len } => ParseErrorView::OutOfRange {
                start: *start,
                end: *end,
                len: *len,
            },
        }
    }
}

/// The result of a step, as a contract speaks of it.
pub open spec fn parsed<T>(res: Result<T, ParseError>) -> Result<T, ParseErrorView> {
    match res {
        Ok(v) => Ok(v),
        Err(e) => Err(e@),
    }
}

/// Per-sample metadata extracted from trun entries.
#[derive(Debug, Clone, Copy, PartialEq, Eq, Structural)]
pub struct SampleInfo {
    pub flags: u32,
    pub pts: u64,
    pub duration: u32,
    pub timescale: u64,
    pub keyframe: bool,
}

/// What is needed to read the samples of a track fragment.
#[derive(Debug, Clone, Copy, PartialEq, Eq, Structural)]
pub struct Context {
    pub kind: TrackKind,
    pub timescale: u64,
    /// What a sample has that does not say otherwise.
    pub duration: u32,
    pub size: u32,
    pub flags: u32,
    /// Where the payload of the file's fragment starts: behind its moof and the header of its
    /// mdat.
    pub moof_size: u64,
    pub header_size: u64,
    /// What offsets are counted from.
    pub base: u64,
    /// The length of the payload.
    pub len: u64,
}

/// How far the samples were read.
pub struct Scan {
    pub dts: u64,
    /// Where the next sample starts in the payload.
    pub offset: u64,
    /// Where the first run starts.
    pub start: Option<u64>,
    pub samples: Seq<SampleInfo>,
}

/// Whether any of the samples is a keyframe.
pub open spec fn has_keyframe(samples: Seq<SampleInfo>) -> bool {
    exists|i: int| 0 <= i < samples.len() && (#[trigger] samples[i]).keyframe
}

impl Context {
    /// What is known of a sample that is decoded at `dts`.
    pub open spec fn sample(self, dts: u64, e: TrunEntry) -> SampleInfo {
        let flags = or(e.flags, self.flags);
        SampleInfo {
            flags,
            pts: ((dts + or(e.cts, 0i32)) % 0x1_0000_0000_0000_0000) as u64,
            duration: or(e.duration, self.duration),
            timescale: self.timescale,
            keyframe: self.kind == TrackKind::Audio || is_sync(flags),
        }
    }

    /// From sample `i` of a run on, the samples are read. Each must lie within the payload.
    pub open spec fn entries(self, c: Scan, entries: Seq<TrunEntry>, i: nat) -> Result<
        Scan,
        ParseErrorView,
    >
        decreases entries.len() - i,
    {
        if i >= entries.len() {
            Ok(c)
        } else {
            let e = entries[i as int];
            let sample = self.sample(c.dts, e);
            let size = or(e.size, self.size);
            if c.offset + size > self.len {
                Err(ParseErrorView::InvalidOffset)
            } else {
                self.entries(
                    Scan {
                        dts: ((c.dts + sample.duration) % 0x1_0000_0000_0000_0000) as u64,
                        offset: (c.offset + size) as u64,
                        start: c.start,
                        samples: c.samples.push(sample),
                    },
                    entries,
                    i + 1,
                )
            }
        }
    }

    /// Where a run starts in the payload: where it says, counted from the start of the moof, and
    /// else behind the last sample.
    pub open spec fn run_start(self, offset: u64, data_offset: Option<i32>) -> Result<
        u64,
        ParseErrorView,
    > {
        match data_offset {
            None => Ok(offset),
            Some(d) => if d < 0 {
                Err(ParseErrorView::NegativeOffset)
            } else if d < self.moof_size + self.header_size {
                Err(ParseErrorView::OffsetUnderflow)
            } else if self.base + (d - self.moof_size - self.header_size) > u64::MAX {
                Err(ParseErrorView::OffsetOverflow)
            } else {
                Ok((self.base + (d - self.moof_size - self.header_size)) as u64)
            },
        }
    }

    /// From run `i` on, the runs are read.
    pub open spec fn runs(self, c: Scan, trun: Seq<TrunView>, i: nat) -> Result<
        Scan,
        ParseErrorView,
    >
        decreases trun.len() - i,
    {
        if i >= trun.len() {
            Ok(c)
        } else {
            match self.run_start(c.offset, trun[i as int].data_offset) {
                Err(e) => Err(e),
                Ok(offset) => match self.entries(
                    Scan {
                        offset,
                        start: match c.start {
                            Some(s) => Some(s),
                            None => Some(offset),
                        },
                        ..c
                    },
                    trun[i as int].entries,
                    0,
                ) {
                    Err(e) => Err(e),
                    Ok(next) => self.runs(next, trun, i + 1),
                },
            }
        }
    }

    /// The samples of a track fragment, and where in the payload they lie: from the start of the
    /// first run to the end of the last sample.
    pub open spec fn scan(self, dts: u64, trun: Seq<TrunView>) -> Result<
        (Seq<SampleInfo>, u64, u64),
        ParseErrorView,
    > {
        match self.runs(
            Scan { dts, offset: self.base, start: None, samples: Seq::empty() },
            trun,
            0,
        ) {
            Err(e) => Err(e),
            Ok(c) => {
                let start = or(c.start, 0u64);
                if start <= c.offset <= self.len {
                    Ok((c.samples, start, c.offset))
                } else {
                    Err(ParseErrorView::OutOfRange { start, end: c.offset, len: self.len })
                }
            },
        }
    }
}

/// The samples of a track fragment.
#[derive(Debug)]
pub struct Scanned {
    pub samples: Vec<SampleInfo>,
    pub start: u64,
    pub end: u64,
}

/// How far the samples were read.
struct Cursor {
    dts: u64,
    offset: u64,
    start: Option<u64>,
    samples: Vec<SampleInfo>,
}

impl View for Cursor {
    type V = Scan;

    closed spec fn view(&self) -> Scan {
        Scan {
            dts: self.dts,
            offset: self.offset,
            start: self.start,
            samples: self.samples@,
        }
    }
}

impl Cursor {
    /// Reads the samples of a run.
    fn entries(&mut self, ctx: &Context, entries: &Vec<TrunEntry>) -> (res: Result<(), ParseError>)
        ensures
            match ctx.entries(old(self)@, entries@, 0) {
                Ok(c) => res is Ok && final(self)@ == c,
                Err(e) => res matches Err(f) && f@ == e,
            },
    {
        let mut j: usize = 0;
        while j < entries.len()
            invariant
                j <= entries@.len(),
                ctx.entries(old(self)@, entries@, 0) == ctx.entries(self@, entries@, j as nat),
            decreases entries@.len() - j,
        {
            let entry: TrunEntry = entries[j];
            let flags: u32 = entry.flags.unwrap_or(ctx.flags);
            let duration: u32 = entry.duration.unwrap_or(ctx.duration);
            let size: u64 = entry.size.unwrap_or(ctx.size) as u64;
            let cts: i32 = entry.cts.unwrap_or(0);
            let pts: u64 = shifted(self.dts, cts);
            if self.offset > ctx.len || size > ctx.len - self.offset {
                return Err(ParseError::InvalidOffset);
            }
            let keyframe = match ctx.kind {
                TrackKind::Video => sample_is_sync(flags),
                TrackKind::Audio => true,
            };
            self.samples.push(
                SampleInfo { flags, pts, duration, timescale: ctx.timescale, keyframe },
            );
            self.dts = self.dts.wrapping_add(duration as u64);
            self.offset = self.offset + size;
            j = j + 1;
        }
        Ok(())
    }

    /// Goes to where a run starts.
    fn run_start(&mut self, ctx: &Context, data_offset: Option<i32>) -> (res: Result<
        (),
        ParseError,
    >)
        ensures
            match ctx.run_start(old(self)@.offset, data_offset) {
                Ok(offset) => res is Ok && final(self)@ == (Scan {
                    offset,
                    start: match old(self)@.start {
                        Some(s) => Some(s),
                        None => Some(offset),
                    },
                    ..old(self)@
                }),
                Err(e) => res matches Err(f) && f@ == e,
            },
    {
        if let Some(data_offset) = data_offset {
            if data_offset < 0 {
                return Err(ParseError::NegativeOffset);
            }
            let at: u64 = data_offset as u64;
            if at < ctx.moof_size || at - ctx.moof_size < ctx.header_size {
                return Err(ParseError::OffsetUnderflow);
            }
            match ctx.base.checked_add(at - ctx.moof_size - ctx.header_size) {
                Some(offset) => {
                    self.offset = offset;
                },
                None => {
                    return Err(ParseError::OffsetOverflow);
                },
            }
        }
        if self.start.is_none() {
            self.start = Some(self.offset);
        }
        Ok(())
    }
}

/// A time with an offset, in 64 bits.
fn shifted(dts: u64, cts: i32) -> (pts: u64)
    ensures
        pts == (dts + cts) % 0x1_0000_0000_0000_0000,
{
    let sum: i128 = dts as i128 + cts as i128;
    if sum < 0 {
        (sum + 0x1_0000_0000_0000_0000) as u64
    } else if sum < 0x1_0000_0000_0000_0000 {
        sum as u64
    } else {
        (sum - 0x1_0000_0000_0000_0000) as u64
    }
}

/// Reads the samples of a track fragment.
pub fn scan(ctx: &Context, dts: u64, trun: &Vec<Trun>) -> (res: Result<Scanned, ParseError>)
    ensures
        match ctx.scan(dts, trun_views(trun@)) {
            Ok((samples, start, end)) => {
                &&& res matches Ok(s)
                &&& s.samples@ == samples
                &&& s.start == start
                &&& s.end == end
            },
            Err(e) => res matches Err(f) && f@ == e,
        },
{
    let mut c = Cursor { dts, offset: ctx.base, start: None, samples: Vec::new() };
    let ghost view = trun_views(trun@);
    let ghost first = Scan { dts, offset: ctx.base, start: None, samples: Seq::empty() };
    assert(c@ =~= first);
    let mut i: usize = 0;
    while i < trun.len()
        invariant
            i <= trun@.len(),
            view == trun_views(trun@),
            first == (Scan { dts, offset: ctx.base, start: None, samples: Seq::empty() }),
            ctx.runs(first, view, 0) == ctx.runs(c@, view, i as nat),
        decreases trun@.len() - i,
    {
        let run = &trun[i];
        assert(view[i as int] == run@);
        c.run_start(ctx, run.data_offset)?;
        c.entries(ctx, &run.entries)?;
        i = i + 1;
    }
    let start: u64 = c.start.unwrap_or(0);
    if start <= c.offset && c.offset <= ctx.len {
        Ok(Scanned { samples: c.samples, start, end: c.offset })
    } else {
        Err(ParseError::OutOfRange { start, end: c.offset, len: ctx.len })
    }
}

/// Whether any of the samples is a keyframe.
fn any_keyframe(samples: &Vec<SampleInfo>) -> (b: bool)
    ensures
        b == has_keyframe(samples@),
{
    let mut i: usize = 0;
    while i < samples.len()
        invariant
            i <= samples@.len(),
            forall|j: int| 0 <= j < i ==> !(#[trigger] samples@[j]).keyframe,
        decreases samples@.len() - i,
    {
        if samples[i].keyframe {
            return true;
        }
        i = i + 1;
    }
    false
}

/// A sample with its flags, where it has none those given.
pub open spec fn with_flags(e: TrunEntry, flags: u32) -> TrunEntry {
    TrunEntry { flags: Some(or(e.flags, flags)), ..e }
}

/// The size of the samples of a run together.
pub open spec fn run_size(entries: Seq<TrunEntry>, size: u32) -> nat
    decreases entries.len(),
{
    if entries.len() == 0 {
        0
    } else {
        run_size(entries.drop_last(), size) + or(entries.last().size, size) as nat
    }
}

/// The size of the samples of the runs before run `i` together.
pub open spec fn runs_size(trun: Seq<TrunView>, i: nat, size: u32) -> nat
    decreases i,
{
    if i == 0 {
        0
    } else {
        runs_size(trun, (i - 1) as nat, size) + run_size(trun[i - 1].entries, size)
    }
}

/// A number as one of 32 bits with a sign.
pub open spec fn low_i32(n: nat) -> i32 {
    let low = n % 0x1_0000_0000;
    if low < 0x8000_0000 {
        low as i32
    } else {
        (low - 0x1_0000_0000) as i32
    }
}

/// A run of a track fragment that stands alone: every sample says its flags, and, once the length
/// of the moof is known, the samples follow it and a header of eight bytes, run after run. Before
/// that there is room for the offset.
pub open spec fn lone_run(
    traf: TrafView,
    flags: u32,
    size: u32,
    moof_len: Option<nat>,
    i: int,
) -> TrunView {
    TrunView {
        data_offset: Some(
            match moof_len {
                Some(len) => low_i32(len + 8 + runs_size(traf.trun, i as nat, size)),
                None => 0i32,
            },
        ),
        entries: traf.trun[i].entries.map_values(|e: TrunEntry| with_flags(e, flags)),
    }
}

/// A track fragment that stands alone: its offsets are counted from its own moof.
pub open spec fn alone(traf: TrafView, flags: u32, size: u32, moof_len: Option<nat>) -> TrafView {
    TrafView {
        base_data_offset: None,
        trun: Seq::new(traf.trun.len(), |i: int| lone_run(traf, flags, size, moof_len, i)),
        ..traf
    }
}

/// The low bits of a sum are those of the sum of the low bits.
proof fn lemma_low(a: nat, b: nat)
    ensures
        low_i32((a % 0x1_0000_0000 + b % 0x1_0000_0000) as nat % 0x1_0000_0000) == low_i32(a + b),
        (a % 0x1_0000_0000 + b % 0x1_0000_0000) as nat % 0x1_0000_0000 == (a + b) % 0x1_0000_0000,
{
}

/// The number of 32 bits with a sign that the low bits are.
fn sign(low: u32) -> (n: i32)
    ensures
        n == low_i32(low as nat),
{
    if low < 0x8000_0000 {
        low as i32
    } else {
        (low as i64 - 0x1_0000_0000) as i32
    }
}

/// The samples with their flags.
fn fill_flags(entries: &Vec<TrunEntry>, flags: u32) -> (filled: Vec<TrunEntry>)
    ensures
        filled@ == entries@.map_values(|e: TrunEntry| with_flags(e, flags)),
{
    let mut filled: Vec<TrunEntry> = Vec::new();
    let mut i: usize = 0;
    while i < entries.len()
        invariant
            i <= entries@.len(),
            filled@.len() == i,
            forall|j: int| 0 <= j < i ==> #[trigger] filled@[j] == with_flags(entries@[j], flags),
        decreases entries@.len() - i,
    {
        let mut entry: TrunEntry = entries[i];
        if entry.flags.is_none() {
            entry.flags = Some(flags);
        }
        filled.push(entry);
        i = i + 1;
    }
    assert(filled@ =~= entries@.map_values(|e: TrunEntry| with_flags(e, flags)));
    filled
}

/// The low bits of the size of the samples of a run together.
fn size_of_run(entries: &Vec<TrunEntry>, size: u32) -> (low: u32)
    ensures
        low == run_size(entries@, size) % 0x1_0000_0000,
{
    let mut low: u32 = 0;
    let mut i: usize = 0;
    assert(entries@.take(0) =~= Seq::<TrunEntry>::empty());
    while i < entries.len()
        invariant
            i <= entries@.len(),
            low == run_size(entries@.take(i as int), size) % 0x1_0000_0000,
        decreases entries@.len() - i,
    {
        assert(entries@.take(i + 1).drop_last() =~= entries@.take(i as int));
        low = low.wrapping_add(entries[i].size.unwrap_or(size));
        i = i + 1;
    }
    assert(entries@.take(i as int) =~= entries@);
    low
}

/// The length, if it is known.
pub open spec fn length(len: Option<usize>) -> Option<nat> {
    match len {
        Some(n) => Some(n as nat),
        None => None,
    }
}

/// The track fragment before, or, where it is known, after the length of its moof was measured.
fn stand_alone(traf: &Traf, flags: u32, size: u32, moof_len: Option<usize>) -> (one: Traf)
    ensures
        one@ == alone(traf@, flags, size, length(moof_len)),
{
    let mut trun: Vec<Trun> = Vec::new();
    let mut before: u32 = 0;
    let first: u32 = match moof_len {
        Some(len) => ((len as u64 % 0x1_0000_0000) as u32).wrapping_add(8),
        None => 0,
    };
    let mut i: usize = 0;
    while i < traf.trun.len()
        invariant
            i <= traf.trun@.len(),
            trun@.len() == i,
            before == runs_size(traf@.trun, i as nat, size) % 0x1_0000_0000,
            moof_len matches Some(len) ==> first == (len + 8) % 0x1_0000_0000,
            forall|j: int|
                0 <= j < i ==> (#[trigger] trun@[j])@ == lone_run(
                    traf@,
                    flags,
                    size,
                    length(moof_len),
                    j,
                ),
        decreases traf.trun@.len() - i,
    {
        let run = &traf.trun[i];
        assert(traf@.trun[i as int] == run@);
        let data_offset: i32 = match moof_len {
            Some(_) => sign(first.wrapping_add(before)),
            None => 0,
        };
        proof {
            if let Some(len) = moof_len {
                lemma_low((len + 8) as nat, runs_size(traf@.trun, i as nat, size));
            }
            lemma_low(runs_size(traf@.trun, i as nat, size), run_size(run.entries@, size));
        }
        trun.push(Trun { data_offset: Some(data_offset), entries: fill_flags(&run.entries, flags) });
        before = before.wrapping_add(size_of_run(&run.entries, size));
        i = i + 1;
    }
    let one = Traf {
        track_id: traf.track_id,
        base_data_offset: None,
        default_sample_duration: traf.default_sample_duration,
        default_sample_size: traf.default_sample_size,
        default_sample_flags: traf.default_sample_flags,
        base_media_decode_time: traf.base_media_decode_time,
        trun,
    };
    assert(one@.trun =~= alone(traf@, flags, size, length(moof_len)).trun);
    one
}

/// An mdat atom: its length and kind, and the payload.
pub open spec fn mdat_bytes(data: Seq<u8>) -> Seq<u8> {
    be_bytes((data.len() + 8) as nat, 4) + seq![0x6du8, 0x64u8, 0x61u8, 0x74u8] + data
}

/// The fragment of one track: a moof that stands alone, and an mdat with the samples.
pub open spec fn fragment_bytes(
    raw: Seq<u8>,
    index: nat,
    traf: TrafView,
    flags: u32,
    size: u32,
    data: Seq<u8>,
) -> Result<Seq<u8>, ParseErrorView> {
    match single_moof(raw, index, alone(traf, flags, size, None)) {
        Err(e) => Err(ParseErrorView::Mp4(e)),
        Ok(m) => match single_moof(raw, index, alone(traf, flags, size, Some(m.len()))) {
            Err(e) => Err(ParseErrorView::Mp4(e)),
            Ok(moof) => if data.len() + 8 > u32::MAX {
                Err(ParseErrorView::Mp4("atom too large"@))
            } else {
                Ok(moof + mdat_bytes(data))
            },
        },
    }
}

/// Whether a fragment is a moof of the length that was measured, a header of eight bytes, and the
/// payload.
pub open spec fn payload_follows(
    b: Seq<u8>,
    measured: Result<Seq<u8>, Seq<char>>,
    data: Seq<u8>,
) -> bool {
    &&& measured matches Ok(m)
    &&& b.len() == m.len() + 8 + data.len()
    &&& b.skip((m.len() + 8) as int) == data
}

/// The size of the runs up to a run grows by the size of that run.
proof fn lemma_runs_size_monotonic(trun: Seq<TrunView>, i: nat, j: nat, size: u32)
    requires
        i <= j,
    ensures
        runs_size(trun, i, size) <= runs_size(trun, j, size),
    decreases j,
{
    if i < j {
        lemma_runs_size_monotonic(trun, i, (j - 1) as nat, size);
    }
}

/// In a fragment that stands alone, the data offset of each run leads to its samples: what lies
/// there is the part of the payload that is behind the samples of the runs before it.
pub proof fn law_offsets_lead_to_samples(
    b: Seq<u8>,
    m: Seq<u8>,
    traf: TrafView,
    flags: u32,
    size: u32,
    data: Seq<u8>,
    i: nat,
)
    requires
        payload_follows(b, Ok(m), data),
        i < traf.trun.len(),
        runs_size(traf.trun, i + 1, size) <= data.len(),
        b.len() < 0x8000_0000,
    ensures
        ({
            let at = alone(traf, flags, size, Some(m.len())).trun[i as int].data_offset->Some_0;
            let from = runs_size(traf.trun, i, size) as int;
            let to = runs_size(traf.trun, i + 1, size) as int;
            &&& 0 <= at
            &&& at + (to - from) <= b.len()
            &&& b.subrange(at as int, at + (to - from)) == data.subrange(from, to)
        }),
{
    lemma_runs_size_monotonic(traf.trun, i, i + 1, size);
    let at = (m.len() + 8 + runs_size(traf.trun, i, size)) as int;
    let from = runs_size(traf.trun, i, size) as int;
    let to = runs_size(traf.trun, i + 1, size) as int;
    assert(b.subrange(at, at + (to - from)) =~= b.skip((m.len() + 8) as int).subrange(from, to));
}

/// Writes the fragment of one track.
fn build_fragment(
    raw: &[u8],
    index: usize,
    traf: &Traf,
    flags: u32,
    size: u32,
    data: Vec<u8>,
) -> (res: Result<Vec<u8>, ParseError>)
    requires
        moof_at(raw@) is Ok,
        index < moof_at(raw@)->Ok_0.len(),
    ensures
        match fragment_bytes(raw@, index as nat, traf@, flags, size, data@) {
            Ok(b) => res matches Ok(v) && v@ == b,
            Err(e) => res matches Err(f) && f@ == e,
        },
        res matches Ok(v) ==> payload_follows(
            v@,
            single_moof(raw@, index as nat, alone(traf@, flags, size, None)),
            data@,
        ),
        res matches Ok(v) ==> written_back(raw@, index as nat, traf@, flags, size, data@, v@),
{
    let one = stand_alone(traf, flags, size, None);
    let measure = match encode_single_moof(raw, index, &one) {
        Ok(m) => m,
        Err(e) => {
            return Err(ParseError::Mp4(e));
        },
    };
    let one = stand_alone(traf, flags, size, Some(measure.len()));
    let mut buf = match encode_single_moof(raw, index, &one) {
        Ok(m) => m,
        Err(e) => {
            return Err(ParseError::Mp4(e));
        },
    };
    let ghost moof = buf@;
    let mut mdat = match encode_mdat(data) {
        Ok(m) => m,
        Err(e) => {
            return Err(ParseError::Mp4(e));
        },
    };
    proof {
        let t = alone(traf@, flags, size, Some(measure@.len()));
        assert(without_offsets(t).trun =~= alone(traf@, flags, size, None).trun);
        assert(without_offsets(t) == alone(traf@, flags, size, None));
        assert(moof.len() == measure@.len());
    }
    assert(mdat@ =~= mdat@.take(8) + mdat@.skip(8));
    assert(mdat@ =~= mdat_bytes(data@));
    buf.append(&mut mdat);
    assert(reads_back(
        raw@,
        index as nat,
        alone(traf@, flags, size, Some(moof.len())),
        moof,
    ));
    assert(buf@.skip((measure@.len() + 8) as int) =~= mdat_bytes(data@).skip(8));
    Ok(buf)
}

/// The fragment of one track.
#[derive(Debug)]
pub struct Fragment {
    pub track_id: u32,
    pub data: Vec<u8>,
    /// Whether it holds a keyframe.
    pub keyframe: bool,
    pub samples: Vec<SampleInfo>,
}

/// What a fragment of one track is.
pub struct FragmentView {
    pub track_id: u32,
    pub data: Seq<u8>,
    pub keyframe: bool,
    pub samples: Seq<SampleInfo>,
}

impl View for Fragment {
    type V = FragmentView;

    open spec fn view(&self) -> FragmentView {
        FragmentView {
            track_id: self.track_id,
            data: self.data@,
            keyframe: self.keyframe,
            samples: self.samples@,
        }
    }
}

/// The first track that has an identifier.
pub open spec fn find_trak(trak: Seq<Trak>, id: u32, i: nat) -> Option<Trak>
    decreases trak.len() - i,
{
    if i >= trak.len() {
        None
    } else if trak[i as int].track_id == id {
        Some(trak[i as int])
    } else {
        find_trak(trak, id, i + 1)
    }
}

/// The first defaults that are those of a track.
pub open spec fn find_trex(trex: Seq<Trex>, id: u32, i: nat) -> Option<Trex>
    decreases trex.len() - i,
{
    if i >= trex.len() {
        None
    } else if trex[i as int].track_id == id {
        Some(trex[i as int])
    } else {
        find_trex(trex, id, i + 1)
    }
}

/// The defaults of a track, if the moov has any.
pub open spec fn trex_of(moov: MoovView, id: u32) -> Option<Trex> {
    match moov.trex {
        Some(trex) => find_trex(trex, id, 0),
        None => None,
    }
}

/// What a sample of a track fragment has that does not say otherwise: what the fragment says, or
/// else the track, or else nothing.
pub open spec fn defaults(traf: TrafView, trex: Option<Trex>) -> (u32, u32, u32) {
    let t = or(
        trex,
        Trex {
            track_id: 0,
            default_sample_description_index: 0,
            default_sample_duration: 0,
            default_sample_size: 0,
            default_sample_flags: 0,
        },
    );
    (
        or(traf.default_sample_duration, t.default_sample_duration),
        or(traf.default_sample_size, t.default_sample_size),
        or(traf.default_sample_flags, t.default_sample_flags),
    )
}

/// What the samples of a track fragment are read with.
pub open spec fn context_of(
    moov: MoovView,
    trak: Trak,
    traf: TrafView,
    moof_size: u64,
    header_size: u64,
    len: nat,
) -> Context {
    let (duration, size, flags) = defaults(traf, trex_of(moov, traf.track_id));
    Context {
        kind: if trak.handler == HANDLER_VIDEO {
            TrackKind::Video
        } else {
            TrackKind::Audio
        },
        timescale: trak.timescale as u64,
        duration,
        size,
        flags,
        moof_size,
        header_size,
        base: or(traf.base_data_offset, 0u64),
        len: len as u64,
    }
}

/// Where the samples of a track fragment lie in a payload: from the start of the first run to the
/// end of the last sample.
pub open spec fn samples_at(
    moov: MoovView,
    traf: TrafView,
    moof_size: u64,
    header_size: u64,
    len: nat,
) -> Option<(int, int)> {
    match (find_trak(moov.trak, traf.track_id, 0), traf.base_media_decode_time) {
        (Some(trak), Some(dts)) => match context_of(
            moov,
            trak,
            traf,
            moof_size,
            header_size,
            len,
        ).scan(dts, traf.trun) {
            Ok((_, start, end)) => Some((start as int, end as int)),
            Err(_) => None,
        },
        _ => None,
    }
}

/// One track fragment of a moof, with the samples that the payload of the mdat holds.
pub open spec fn fragment_of(
    moov: MoovView,
    raw: Seq<u8>,
    index: nat,
    traf: TrafView,
    moof_size: u64,
    header_size: u64,
    data: Seq<u8>,
) -> Result<FragmentView, ParseErrorView> {
    let (_, size, flags) = defaults(traf, trex_of(moov, traf.track_id));
    match find_trak(moov.trak, traf.track_id, 0) {
        None => Err(ParseErrorView::UnknownTrack),
        Some(trak) => if trak.handler != HANDLER_VIDEO && trak.handler != HANDLER_AUDIO {
            Err(ParseErrorView::UnexpectedHandler(trak.handler))
        } else {
            let ctx = context_of(moov, trak, traf, moof_size, header_size, data.len());
            match traf.base_media_decode_time {
                None => Err(ParseErrorView::MissingTfdt),
                Some(dts) => if traf.trun.len() == 0 {
                    Err(ParseErrorView::MissingTrun)
                } else {
                    match ctx.scan(dts, traf.trun) {
                        Err(e) => Err(e),
                        Ok((samples, start, end)) => match fragment_bytes(
                            raw,
                            index,
                            traf,
                            flags,
                            size,
                            data.subrange(start as int, end as int),
                        ) {
                            Err(e) => Err(e),
                            Ok(bytes) => Ok(
                                FragmentView {
                                    track_id: traf.track_id,
                                    data: bytes,
                                    keyframe: has_keyframe(samples),
                                    samples,
                                },
                            ),
                        },
                    }
                },
            }
        },
    }
}

/// Whether a fragment is a moof that is read back as it was written, and an mdat.
pub open spec fn written_back(
    raw: Seq<u8>,
    index: nat,
    traf: TrafView,
    flags: u32,
    size: u32,
    data: Seq<u8>,
    b: Seq<u8>,
) -> bool {
    exists|moof: Seq<u8>|
        #![trigger reads_back(raw, index, alone(traf, flags, size, Some(moof.len())), moof)]
        b == moof + mdat_bytes(data) && reads_back(
            raw,
            index,
            alone(traf, flags, size, Some(moof.len())),
            moof,
        )
}

/// Whether a fragment is a moof that was measured, a header, and the part of the payload where the
/// samples lie.
pub open spec fn stands_alone(
    moov: MoovView,
    raw: Seq<u8>,
    index: nat,
    traf: TrafView,
    moof_size: u64,
    header_size: u64,
    data: Seq<u8>,
    b: Seq<u8>,
) -> bool {
    let (_, size, flags) = defaults(traf, trex_of(moov, traf.track_id));
    &&& samples_at(moov, traf, moof_size, header_size, data.len()) matches Some((start, end))
    &&& payload_follows(
        b,
        single_moof(raw, index, alone(traf, flags, size, None)),
        data.subrange(start, end),
    )
}

/// The media bytes are not changed: a fragment that is taken out of a moof and its mdat ends with
/// the very bytes of the mdat where its samples lie, behind the header of an mdat that tells their
/// length.
pub proof fn law_media_is_unchanged(
    moov: MoovView,
    raw: Seq<u8>,
    index: nat,
    traf: TrafView,
    moof_size: u64,
    mdat: Seq<u8>,
)
    requires
        is_whole(mdat),
        mdat.len() <= u64::MAX,
    ensures
        ({
            let data = body_of(mdat);
            let at = mdat.len() - data.len();
            fragment_of(moov, raw, index, traf, moof_size, at as u64, data) matches Ok(f) ==> {
                &&& samples_at(moov, traf, moof_size, at as u64, data.len()) matches Some(
                    (start, end),
                )
                &&& 0 <= start <= end <= data.len()
                &&& f.data.len() >= 8 + (end - start)
                &&& f.data.skip(f.data.len() - (end - start)) == mdat.subrange(at + start, at + end)
                &&& f.data.subrange(f.data.len() - (end - start) - 8, f.data.len() - (end - start))
                    == be_bytes((end - start + 8) as nat, 4) + seq![0x6du8, 0x64u8, 0x61u8, 0x74u8]
            }
        }),
{
    let data = body_of(mdat);
    let at = mdat.len() - data.len();
    if let Ok(f) = fragment_of(moov, raw, index, traf, moof_size, at as u64, data) {
        let (start, end) = samples_at(moov, traf, moof_size, at as u64, data.len())->Some_0;
        let part = data.subrange(start, end);
        let (_, size, flags) = defaults(traf, trex_of(moov, traf.track_id));
        let m = single_moof(raw, index, alone(traf, flags, size, None))->Ok_0;
        let moof = single_moof(raw, index, alone(traf, flags, size, Some(m.len())))->Ok_0;
        lemma_be_bytes_len((end - start + 8) as nat, 4);
        assert(f.data == moof + mdat_bytes(part));
        assert(f.data.skip(f.data.len() - (end - start)) =~= part);
        assert(part =~= mdat.subrange(at + start, at + end));
        assert(f.data.subrange(
            f.data.len() - (end - start) - 8,
            f.data.len() - (end - start),
        ) =~= be_bytes((end - start + 8) as nat, 4) + seq![0x6du8, 0x64u8, 0x61u8, 0x74u8]);
    }
}

/// Finds the first track that has an identifier.
fn lookup_trak(trak: &Vec<Trak>, id: u32) -> (found: Option<Trak>)
    ensures
        found == find_trak(trak@, id, 0),
{
    let mut i: usize = 0;
    while i < trak.len()
        invariant
            i <= trak@.len(),
            find_trak(trak@, id, 0) == find_trak(trak@, id, i as nat),
        decreases trak@.len() - i,
    {
        if trak[i].track_id == id {
            return Some(trak[i]);
        }
        i = i + 1;
    }
    None
}

/// Finds the first defaults that are those of a track.
pub fn lookup_trex(moov: &Moov, id: u32) -> (found: Option<Trex>)
    ensures
        found == trex_of(moov@, id),
{
    let trex = match &moov.trex {
        Some(trex) => trex,
        None => {
            return None;
        },
    };
    let mut i: usize = 0;
    while i < trex.len()
        invariant
            i <= trex@.len(),
            trex_of(moov@, id) == find_trex(trex@, id, i as nat),
        decreases trex@.len() - i,
    {
        if trex[i].track_id == id {
            return Some(trex[i]);
        }
        i = i + 1;
    }
    None
}

/// Takes one track fragment out of a moof and the payload of its mdat.
pub(crate) fn extract_one(
    moov: &Moov,
    raw: &[u8],
    index: usize,
    traf: &Traf,
    moof_size: u64,
    header_size: u64,
    data: &[u8],
) -> (res: Result<Fragment, ParseError>)
    requires
        moof_at(raw@) is Ok,
        index < moof_at(raw@)->Ok_0.len(),
        traf@ == moof_at(raw@)->Ok_0[index as int],
        regular(traf@),
    ensures
        match fragment_of(moov@, raw@, index as nat, traf@, moof_size, header_size, data@) {
            Ok(f) => res matches Ok(v) && v@ == f,
            Err(e) => res matches Err(f) && f@ == e,
        },
        res matches Ok(v) ==> stands_alone(
            moov@,
            raw@,
            index as nat,
            traf@,
            moof_size,
            header_size,
            data@,
            v@.data,
        ),
        res matches Ok(v) ==> faithful(v@),
{
    let track_id: u32 = traf.track_id;
    let trak = match lookup_trak(&moov.trak, track_id) {
        Some(trak) => trak,
        None => {
            return Err(ParseError::UnknownTrack);
        },
    };
    let (duration, size, flags): (u32, u32, u32) = match lookup_trex(moov, track_id) {
        Some(trex) => (
            traf.default_sample_duration.unwrap_or(trex.default_sample_duration),
            traf.default_sample_size.unwrap_or(trex.default_sample_size),
            traf.default_sample_flags.unwrap_or(trex.default_sample_flags),
        ),
        None => (
            traf.default_sample_duration.unwrap_or(0),
            traf.default_sample_size.unwrap_or(0),
            traf.default_sample_flags.unwrap_or(0),
        ),
    };
    let kind = if trak.handler == HANDLER_VIDEO {
        TrackKind::Video
    } else if trak.handler == HANDLER_AUDIO {
        TrackKind::Audio
    } else {
        return Err(ParseError::UnexpectedHandler(trak.handler));
    };
    let dts: u64 = match traf.base_media_decode_time {
        Some(dts) => dts,
        None => {
            return Err(ParseError::MissingTfdt);
        },
    };
    if traf.trun.len() == 0 {
        return Err(ParseError::MissingTrun);
    }
    let ctx = Context {
        kind,
        timescale: trak.timescale as u64,
        duration,
        size,
        flags,
        moof_size,
        header_size,
        base: traf.base_data_offset.unwrap_or(0),
        len: data.len() as u64,
    };
    let scanned = scan(&ctx, dts, &traf.trun)?;
    let payload = slice_to_vec(
        slice_subrange(data, scanned.start as usize, scanned.end as usize),
    );
    let bytes = build_fragment(raw, index, traf, flags, size, payload)?;
    proof {
        law_fragment_is_faithful(
            &ctx,
            raw@,
            index as nat,
            traf@,
            data@.subrange(scanned.start as int, scanned.end as int),
            FragmentView {
                track_id,
                data: bytes@,
                keyframe: has_keyframe(scanned.samples@),
                samples: scanned.samples@,
            },
        );
    }
    let keyframe = any_keyframe(&scanned.samples);
    Ok(Fragment { track_id, data: bytes, keyframe, samples: scanned.samples })
}

} // verus!
