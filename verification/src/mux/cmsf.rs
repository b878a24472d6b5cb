//! What producers and consumers of CMSF objects share: reading their timing.

use crate::error::{message_of, Error};
use crate::mux::mp4::{
    atom_at, decode_moof, decode_moov, law_no_atom_without_header, moof_at, moov_at, next_atom, AtomKind, TrafView, Traf,
    TrunEntry, TrunView,
};
use vstd::prelude::*;
use vstd::slice::slice_subrange;

verus! {

/// Metadata extracted from a CMSF Object (moof+mdat).
#[derive(Debug, Clone, Copy, PartialEq, Eq, Structural)]
pub struct CmsfMetadata {
    /// Presentation timestamp derived from `base_media_decode_time` + first sample's
    /// composition time offset. For single-sample fragments (the CMSF norm), this is
    /// the exact PTS. For multi-sample fragments with B-frames, this is the PTS of
    /// the first sample only.
    pub pts: u64,
    pub duration: u64,
    pub is_keyframe: bool,
}

/// Errors from CMSF parsing operations.
#[derive(Debug)]
pub enum CmsfError {
    /// No moof box found.
    NoMoof,
    /// No traf in moof.
    NoTraf,
    /// No tfdt in traf.
    NoTfdt,
    /// No trun in traf.
    NoTrun,
    /// The bytes are no MP4.
    Mp4(String),
    /// The transport failed.
    Moq(Error),
    /// The text is no base64.
    Base64(String),
    /// Missing init_data in catalog track.
    MissingInitData,
    /// No moov in init segment.
    NoMoov,
    /// No tracks in moov.
    NoTracks,
    /// The catalog cannot be read.
    CatalogParse(String),
    /// An atom cannot be written.
    EncodeFailed,
}

/// What such an error says.
pub enum CmsfErrorView {
    NoMoof,
    NoTraf,
    NoTfdt,
    NoTrun,
    Mp4(Seq<char>),
    Moq(Error),
    Base64(Seq<char>),
    MissingInitData,
    NoMoov,
    NoTracks,
    CatalogParse(Seq<char>),
    EncodeFailed,
}

impl View for CmsfError {
    type V = CmsfErrorView;

    open spec fn view(&self) -> CmsfErrorView {
        match self {
            CmsfError::NoMoof => CmsfErrorView::NoMoof,
            CmsfError::NoTraf => CmsfErrorView::NoTraf,
            CmsfError::NoTfdt => CmsfErrorView::NoTfdt,
            CmsfError::NoTrun => CmsfErrorView::NoTrun,
            CmsfError::Mp4(m) => CmsfErrorView::Mp4(m@),
            CmsfError::Moq(e) => CmsfErrorView::Moq(*e),
            CmsfError::Base64(m) => CmsfErrorView::Base64(m@),
            CmsfError::MissingInitData => CmsfErrorView::MissingInitData,
            CmsfError::NoMoov => CmsfErrorView::NoMoov,
            CmsfError::NoTracks => CmsfErrorView::NoTracks,
            CmsfError::CatalogParse(m) => CmsfErrorView::CatalogParse(m@),
            CmsfError::EncodeFailed => CmsfErrorView::EncodeFailed,
        }
    }
}

/// What an error says.
pub open spec fn cmsf_message(e: CmsfErrorView) -> Seq<char> {
    match e {
        CmsfErrorView::NoMoof => "no moof box found"@,
        CmsfErrorView::NoTraf => "no traf in moof"@,
        CmsfErrorView::NoTfdt => "no tfdt in traf"@,
        CmsfErrorView::NoTrun => "no trun in traf"@,
        CmsfErrorView::Mp4(m) => "mp4 parse error: "@ + m,
        CmsfErrorView::Moq(e) => "moq error: "@ + message_of(e),
        CmsfErrorView::Base64(m) => "invalid base64: "@ + m,
        CmsfErrorView::MissingInitData => "missing init_data in catalog track"@,
        CmsfErrorView::NoMoov => "no moov in init segment"@,
        CmsfErrorView::NoTracks => "no tracks in moov"@,
        CmsfErrorView::CatalogParse(m) => "catalog parse error: "@ + m,
        CmsfErrorView::EncodeFailed => "mp4 encode error"@,
    }
}

impl CmsfError {
    /// What the error says.
    pub fn message(&self) -> (s: String)
        ensures
            s@ == cmsf_message(self@),
    {
        let mut s = match self {
            CmsfError::NoMoof => "no moof box found",
            CmsfError::NoTraf => "no traf in moof",
            CmsfError::NoTfdt => "no tfdt in traf",
            CmsfError::NoTrun => "no trun in traf",
            CmsfError::Mp4(_) => "mp4 parse error: ",
            CmsfError::Moq(_) => "moq error: ",
            CmsfError::Base64(_) => "invalid base64: ",
            CmsfError::MissingInitData => "missing init_data in catalog track",
            CmsfError::NoMoov => "no moov in init segment",
            CmsfError::NoTracks => "no tracks in moov",
            CmsfError::CatalogParse(_) => "catalog parse error: ",
            CmsfError::EncodeFailed => "mp4 encode error",
        }.to_owned();
        match self {
            CmsfError::Mp4(m) => s.append(m.as_str()),
            CmsfError::Moq(e) => s.append(e.message().as_str()),
            CmsfError::Base64(m) => s.append(m.as_str()),
            CmsfError::CatalogParse(m) => s.append(m.as_str()),
            _ => (),
        }
        s
    }
}

/// The first atom of a kind among those that the bytes are made of; none if there is no such
/// atom before the bytes, or the last complete atom, end.
pub open spec fn find_atom(data: Seq<u8>, kind: AtomKind) -> Result<Option<Seq<u8>>, Seq<char>>
    decreases data.len(),
{
    match atom_at(data) {
        Err(e) => Err(e),
        Ok(None) => Ok(None),
        Ok(Some((k, size))) => if k == kind {
            Ok(Some(data.take(size as int)))
        } else if 0 < size <= data.len() {
            find_atom(data.skip(size as int), kind)
        } else {
            Ok(None)
        },
    }
}

/// Finds the first atom of a kind.
fn find<'a>(data: &'a [u8], kind: AtomKind) -> (res: Result<Option<&'a [u8]>, String>)
    ensures
        match res {
            Ok(Some(raw)) => find_atom(data@, kind) == Ok::<_, Seq<char>>(Some(raw@)),
            Ok(None) => find_atom(data@, kind) == Ok::<Option<Seq<u8>>, Seq<char>>(None),
            Err(e) => find_atom(data@, kind) == Err::<Option<Seq<u8>>, _>(e@),
        },
{
    let mut rest: &'a [u8] = data;
    loop
        invariant
            find_atom(data@, kind) == find_atom(rest@, kind),
        decreases rest@.len(),
    {
        let (k, size): (AtomKind, usize) = match next_atom(rest)? {
            Some(atom) => atom,
            None => {
                return Ok(None);
            },
        };
        if k == kind {
            return Ok(Some(slice_subrange(rest, 0, size)));
        }
        assert(rest@.skip(size as int) =~= rest@.subrange(size as int, rest@.len() as int));
        rest = slice_subrange(rest, size, rest.len());
    }
}

/// All samples of the runs, in order.
pub open spec fn all_entries(trun: Seq<TrunView>) -> Seq<TrunEntry>
    decreases trun.len(),
{
    if trun.len() == 0 {
        Seq::empty()
    } else {
        all_entries(trun.drop_last()) + trun.last().entries
    }
}

/// The value of an option, or another where there is none.
pub open spec fn or<T>(o: Option<T>, other: T) -> T {
    match o {
        Some(v) => v,
        None => other,
    }
}

/// How long the samples last together; a sample that does not say lasts as long as the default.
pub open spec fn total_duration(entries: Seq<TrunEntry>, default: u32) -> nat
    decreases entries.len(),
{
    if entries.len() == 0 {
        0
    } else {
        total_duration(entries.drop_last(), default) + or(entries.last().duration, default) as nat
    }
}

/// Whether the flags of a sample say that it depends on no other and is a sync sample.
pub open spec fn is_sync(flags: u32) -> bool {
    flags / 0x100_0000 % 4 == 2 && flags / 0x1_0000 % 2 == 0
}

/// The flags say so.
pub fn sample_is_sync(flags: u32) -> (b: bool)
    ensures
        b == is_sync(flags),
{
    assert((flags >> 24) & 0x3 == flags / 0x100_0000 % 4 && (flags >> 16) & 0x1 == flags / 0x1_0000
        % 2) by (bit_vector);
    (flags >> 24) & 0x3 == 0x2 && (flags >> 16) & 0x1 == 0
}

/// A number of 64 bits read as one with a sign.
pub open spec fn signed(x: int) -> int {
    let low = x % 0x1_0000_0000_0000_0000;
    if low < 0x8000_0000_0000_0000 {
        low
    } else {
        low - 0x1_0000_0000_0000_0000
    }
}

/// When a sample is presented that is decoded at `dts` and has the offset `cts`; not before zero.
pub open spec fn presentation_time(dts: u64, cts: i32) -> u64 {
    if signed(dts + cts) < 0 {
        0
    } else {
        signed(dts + cts) as u64
    }
}

/// What a fragment of one track says as a whole.
pub open spec fn meta_of(traf: TrafView) -> Result<CmsfMetadata, CmsfErrorView> {
    let entries = all_entries(traf.trun);
    let flags = or(traf.default_sample_flags, 0u32);
    match traf.base_media_decode_time {
        None => Err(CmsfErrorView::NoTfdt),
        Some(dts) => if traf.trun.len() == 0 {
            Err(CmsfErrorView::NoTrun)
        } else {
            Ok(
                CmsfMetadata {
                    pts: presentation_time(
                        dts,
                        if entries.len() > 0 {
                            or(entries[0].cts, 0i32)
                        } else {
                            0
                        },
                    ),
                    duration: (total_duration(entries, or(traf.default_sample_duration, 0u32))
                        % 0x1_0000_0000_0000_0000) as u64,
                    is_keyframe: is_sync(
                        if entries.len() > 0 {
                            or(entries[0].flags, flags)
                        } else {
                            flags
                        },
                    ),
                },
            )
        },
    }
}

/// What the first fragment of a `moof` says.
pub open spec fn meta_of_first(traf: Seq<TrafView>) -> Result<CmsfMetadata, CmsfErrorView> {
    if traf.len() == 0 {
        Err(CmsfErrorView::NoTraf)
    } else {
        meta_of(traf[0])
    }
}

/// What an object says of its timing.
pub open spec fn metadata(data: Seq<u8>) -> Result<CmsfMetadata, CmsfErrorView> {
    match find_atom(data, AtomKind::Moof) {
        Err(e) => Err(CmsfErrorView::Mp4(e)),
        Ok(None) => Err(CmsfErrorView::NoMoof),
        Ok(Some(raw)) => match moof_at(raw) {
            Err(e) => Err(CmsfErrorView::Mp4(e)),
            Ok(traf) => meta_of_first(traf),
        },
    }
}

/// When a sample is presented; not before zero.
fn present(dts: u64, cts: i32) -> (pts: u64)
    ensures
        pts == presentation_time(dts, cts),
{
    let sum: i128 = dts as i128 + cts as i128;
    if sum < 0 {
        0
    } else if sum < 0x8000_0000_0000_0000 {
        sum as u64
    } else if sum < 0x1_0000_0000_0000_0000 {
        0
    } else {
        (sum - 0x1_0000_0000_0000_0000) as u64
    }
}

/// The samples of one more run.
proof fn lemma_all_entries_next(trun: Seq<TrunView>, i: int)
    requires
        0 <= i < trun.len(),
    ensures
        all_entries(trun.take(i + 1)) == all_entries(trun.take(i)) + trun[i].entries,
{
    assert(trun.take(i + 1).drop_last() =~= trun.take(i));
}

/// Reads the timing of the fragments of a `moof`: that of the first.
pub fn traf_metadata(traf: &Vec<Traf>) -> (res: Result<CmsfMetadata, CmsfError>)
    ensures
        match meta_of_first(crate::mux::mp4::traf_views(traf@)) {
            Ok(meta) => res == Ok::<_, CmsfError>(meta),
            Err(e) => res matches Err(f) && f@ == e,
        },
{
    if traf.len() == 0 {
        return Err(CmsfError::NoTraf);
    }
    let traf: &Traf = &traf[0];
    let ghost view = traf@;
    let dts: u64 = match traf.base_media_decode_time {
        Some(dts) => dts,
        None => {
            return Err(CmsfError::NoTfdt);
        },
    };
    if traf.trun.len() == 0 {
        return Err(CmsfError::NoTrun);
    }
    let default_duration: u32 = traf.default_sample_duration.unwrap_or(0);
    let default_flags: u32 = traf.default_sample_flags.unwrap_or(0);
    let mut duration: u64 = 0;
    let mut first: Option<TrunEntry> = None;
    let mut i: usize = 0;
    assert(view.trun.take(0) =~= Seq::<TrunView>::empty());
    while i < traf.trun.len()
        invariant
            view == traf@,
            i <= view.trun.len(),
            view.trun.len() == traf.trun@.len(),
            duration == total_duration(all_entries(view.trun.take(i as int)), default_duration)
                % 0x1_0000_0000_0000_0000,
            match first {
                Some(e) => all_entries(view.trun.take(i as int)).len() > 0 && e == all_entries(
                    view.trun.take(i as int),
                )[0],
                None => all_entries(view.trun.take(i as int)).len() == 0,
            },
        decreases traf.trun@.len() - i,
    {
        let run = &traf.trun[i];
        let ghost before = all_entries(view.trun.take(i as int));
        let mut j: usize = 0;
        assert(before + run.entries@.take(0) =~= before);
        while j < run.entries.len()
            invariant
                j <= run.entries@.len(),
                duration == total_duration(
                    before + run.entries@.take(j as int),
                    default_duration,
                ) % 0x1_0000_0000_0000_0000,
                match first {
                    Some(e) => (before + run.entries@.take(j as int)).len() > 0 && e == (before
                        + run.entries@.take(j as int))[0],
                    None => (before + run.entries@.take(j as int)).len() == 0,
                },
            decreases run.entries@.len() - j,
        {
            let entry: TrunEntry = run.entries[j];
            let lasts: u32 = entry.duration.unwrap_or(default_duration);
            let ghost more = before + run.entries@.take(j + 1);
            assert(more.drop_last() =~= before + run.entries@.take(j as int));
            duration = duration.wrapping_add(lasts as u64);
            if first.is_none() {
                first = Some(entry);
            }
            j = j + 1;
        }
        proof {
            assert(run.entries@.take(j as int) =~= run.entries@);
            lemma_all_entries_next(view.trun, i as int);
        }
        i = i + 1;
    }
    assert(view.trun.take(i as int) =~= view.trun);
    let flags: u32 = match &first {
        Some(entry) => entry.flags.unwrap_or(default_flags),
        None => default_flags,
    };
    let cts: i32 = match &first {
        Some(entry) => entry.cts.unwrap_or(0),
        None => 0,
    };
    Ok(CmsfMetadata { pts: present(dts, cts), duration, is_keyframe: sample_is_sync(flags) })
}

/// Parse metadata from a CMSF Object (moof+mdat bytes) without modifying them.
pub fn parse_cmsf_metadata(data: &[u8]) -> (res: Result<CmsfMetadata, CmsfError>)
    ensures
        match metadata(data@) {
            Ok(meta) => res == Ok::<_, CmsfError>(meta),
            Err(e) => res matches Err(f) && f@ == e,
        },
        data@.len() < 8 ==> res matches Err(CmsfError::NoMoof),
{
    proof {
        if data@.len() < 8 {
            law_short_input_holds_nothing(data@);
        }
    }
    let raw = match find(data, AtomKind::Moof) {
        Ok(Some(raw)) => raw,
        Ok(None) => {
            return Err(CmsfError::NoMoof);
        },
        Err(e) => {
            return Err(CmsfError::Mp4(e));
        },
    };
    match decode_moof(raw) {
        Ok(traf) => traf_metadata(&traf),
        Err(e) => Err(CmsfError::Mp4(e)),
    }
}

/// The timescale of the first track.
pub open spec fn first_timescale(trak: Seq<crate::mux::mp4::Trak>) -> Result<u64, CmsfErrorView> {
    if trak.len() == 0 {
        Err(CmsfErrorView::NoTracks)
    } else {
        Ok(trak[0].timescale as u64)
    }
}

/// The timescale of an init segment.
pub open spec fn timescale_of(init: Seq<u8>) -> Result<u64, CmsfErrorView> {
    match find_atom(init, AtomKind::Moov) {
        Err(e) => Err(CmsfErrorView::Mp4(e)),
        Ok(None) => Err(CmsfErrorView::NoMoov),
        Ok(Some(raw)) => match moov_at(raw) {
            Err(e) => Err(CmsfErrorView::Mp4(e)),
            Ok(moov) => first_timescale(moov.trak),
        },
    }
}

/// Parse timescale from a decoded init segment (ftyp+moov bytes): that of its first track.
pub fn parse_timescale(init_data: &[u8]) -> (res: Result<u64, CmsfError>)
    ensures
        match timescale_of(init_data@) {
            Ok(t) => res == Ok::<_, CmsfError>(t),
            Err(e) => res matches Err(f) && f@ == e,
        },
        init_data@.len() < 8 ==> res matches Err(CmsfError::NoMoov),
{
    proof {
        if init_data@.len() < 8 {
            law_short_input_holds_nothing(init_data@);
        }
    }
    let raw = match find(init_data, AtomKind::Moov) {
        Ok(Some(raw)) => raw,
        Ok(None) => {
            return Err(CmsfError::NoMoov);
        },
        Err(e) => {
            return Err(CmsfError::Mp4(e));
        },
    };
    match decode_moov(raw) {
        Ok(moov) => {
            if moov.trak.len() == 0 {
                return Err(CmsfError::NoTracks);
            }
            Ok(moov.trak[0].timescale as u64)
        },
        Err(e) => Err(CmsfError::Mp4(e)),
    }
}

/// A fragment is presented when it is decoded, shifted by the offset of its first sample, as long
/// as that is a time that 63 bits can count.
pub proof fn law_presentation_time(dts: u64, cts: i32)
    requires
        0 <= dts + cts < 0x8000_0000_0000_0000,
    ensures
        presentation_time(dts, cts) == dts + cts,
{
}

/// Input that is shorter than the header of an atom holds no moof and no moov.
pub proof fn law_short_input_holds_nothing(data: Seq<u8>)
    requires
        data.len() < 8,
    ensures
        metadata(data) == Err::<CmsfMetadata, CmsfErrorView>(CmsfErrorView::NoMoof),
        timescale_of(data) == Err::<u64, CmsfErrorView>(CmsfErrorView::NoMoov),
{
    law_no_atom_without_header(data);
}

} // verus!
