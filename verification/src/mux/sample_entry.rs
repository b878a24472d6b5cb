//! The codecs of the tracks of a moov, and the calls that read them.
//!
//! Everything here rests on the `mp4_atom` crate, as in [`crate::mux::mp4`].

use crate::mux::catalog::bytes;
use crate::mux::codec::VP9;
use crate::mux::mp4::moov_at;
use mp4_atom::{Atom, Decode};
use vstd::prelude::*;

verus! {

/// The kinds of sample entries that are told apart.
#[derive(Debug, Clone, Copy, PartialEq, Eq, Structural)]
pub enum EntryKind {
    Avc1,
    Hev1,
    Hvc1,
    Vp08,
    Vp09,
    Av01,
    Mp4a,
    Opus,
    /// One that is not known.
    Unknown,
    /// One that is known, and not supported.
    Other,
}

/// The size of a picture.
#[derive(Debug, Clone, Copy, PartialEq, Eq, Structural)]
pub struct Visual {
    pub width: u16,
    pub height: u16,
}

/// What is read of an H.264 configuration.
#[derive(Debug, Clone, Copy, PartialEq, Eq, Structural)]
pub struct Avcc {
    pub avc_profile_indication: u8,
    pub profile_compatibility: u8,
    pub avc_level_indication: u8,
}

/// What is read of an H.265 configuration.
#[derive(Debug, Clone, Copy)]
pub struct Hvcc {
    pub general_profile_space: u8,
    pub general_profile_idc: u8,
    pub general_profile_compatibility_flags: [u8; 4],
    pub general_tier_flag: bool,
    pub general_level_idc: u8,
    pub general_constraint_indicator_flags: [u8; 6],
}

/// What is read of an AV1 configuration.
#[derive(Debug, Clone, Copy, PartialEq, Eq, Structural)]
pub struct Av1c {
    pub seq_profile: u8,
    pub seq_level_idx_0: u8,
    pub seq_tier_0: bool,
    pub high_bitdepth: bool,
    pub monochrome: bool,
    pub chroma_subsampling_x: bool,
    pub chroma_subsampling_y: bool,
    pub chroma_sample_position: u8,
}

/// What is read of an MPEG-4 audio configuration.
#[derive(Debug, Clone, Copy, PartialEq, Eq, Structural)]
pub struct Mp4a {
    pub object_type_indication: u8,
    pub avg_bitrate: u32,
    pub max_bitrate: u32,
    pub profile: u8,
    pub sample_rate: u16,
    pub channel_count: u16,
}

/// The shape of sound.
#[derive(Debug, Clone, Copy, PartialEq, Eq, Structural)]
pub struct Sound {
    pub sample_rate: u16,
    pub channel_count: u16,
}

/// Whether the bytes are a moov that has a track number `trak`.
pub open spec fn has_trak(raw: Seq<u8>, trak: nat) -> bool {
    moov_at(raw) is Ok && trak < moov_at(raw)->Ok_0.trak.len()
}

/// Whether the first sample entry of a track is of this kind.
pub open spec fn first_is(raw: Seq<u8>, trak: nat, kind: EntryKind) -> bool {
    entry_kinds(raw, trak).len() > 0 && entry_kinds(raw, trak)[0] == kind
}

/// The kinds of the sample entries of a track of a moov.
pub uninterp spec fn entry_kinds(raw: Seq<u8>, trak: nat) -> Seq<EntryKind>;

/// `mp4_atom::Moov::decode`: the kinds of the sample entries of a track.
#[verifier::external_body]
pub(crate) fn read_entry_kinds(raw: &[u8], trak: usize) -> (kinds: Vec<EntryKind>)
    requires
        has_trak(raw@, trak as nat),
    ensures
        kinds@ == entry_kinds(raw@, trak as nat),
{
    let moov = mp4_atom::Moov::decode(&mut &*raw).unwrap_or_default();
    moov.trak[trak].mdia.minf.stbl.stsd.codecs.iter().map(|c| match c {
        mp4_atom::Codec::Avc1(_) => EntryKind::Avc1,
        mp4_atom::Codec::Hev1(_) => EntryKind::Hev1,
        mp4_atom::Codec::Hvc1(_) => EntryKind::Hvc1,
        mp4_atom::Codec::Vp08(_) => EntryKind::Vp08,
        mp4_atom::Codec::Vp09(_) => EntryKind::Vp09,
        mp4_atom::Codec::Av01(_) => EntryKind::Av01,
        mp4_atom::Codec::Mp4a(_) => EntryKind::Mp4a,
        mp4_atom::Codec::Opus(_) => EntryKind::Opus,
        mp4_atom::Codec::Unknown(_) => EntryKind::Unknown,
        _ => EntryKind::Other,
    }).collect()
}

/// What the first sample entry of a track says: only its kind, where that is not known.
pub uninterp spec fn entry_text(raw: Seq<u8>, trak: nat) -> Seq<char>;

/// `mp4_atom::Moov::decode` and the `Debug` of `mp4_atom::Codec`, or of the `mp4_atom::FourCC` of
/// an entry that is not known: what the first sample entry of a track says.
#[verifier::external_body]
pub(crate) fn read_entry_text(raw: &[u8], trak: usize) -> (text: String)
    requires
        has_trak(raw@, trak as nat),
    ensures
        text@ == entry_text(raw@, trak as nat),
{
    let moov = mp4_atom::Moov::decode(&mut &*raw).unwrap_or_default();
    match moov.trak[trak].mdia.minf.stbl.stsd.codecs.first() {
        Some(mp4_atom::Codec::Unknown(kind)) => format!("{:?}", kind),
        Some(codec) => format!("{:?}", codec),
        None => String::new(),
    }
}

/// The size of the picture of the first sample entry of a track, where that is a video codec
/// that is supported.
pub uninterp spec fn visual_at(raw: Seq<u8>, trak: nat) -> Option<Visual>;

/// Whether entries of this kind describe video that is supported.
pub open spec fn is_video(kind: EntryKind) -> bool {
    match kind {
        EntryKind::Avc1
        | EntryKind::Hev1
        | EntryKind::Hvc1
        | EntryKind::Vp08
        | EntryKind::Vp09
        | EntryKind::Av01 => true,
        _ => false,
    }
}

/// `mp4_atom::Moov::decode`: the size of the picture of the first sample entry of a track, which
/// every supported video codec has.
#[verifier::external_body]
pub(crate) fn read_visual(raw: &[u8], trak: usize) -> (visual: Option<Visual>)
    requires
        has_trak(raw@, trak as nat),
    ensures
        visual == visual_at(raw@, trak as nat),
        (exists|kind: EntryKind| is_video(kind) && first_is(raw@, trak as nat, kind))
            ==> visual is Some,
{
    let moov = mp4_atom::Moov::decode(&mut &*raw).unwrap_or_default();
    let visual = match moov.trak[trak].mdia.minf.stbl.stsd.codecs.first()? {
        mp4_atom::Codec::Avc1(c) => &c.visual,
        mp4_atom::Codec::Hev1(c) => &c.visual,
        mp4_atom::Codec::Hvc1(c) => &c.visual,
        mp4_atom::Codec::Vp08(c) => &c.visual,
        mp4_atom::Codec::Vp09(c) => &c.visual,
        mp4_atom::Codec::Av01(c) => &c.visual,
        _ => return None,
    };
    Some(Visual { width: visual.width, height: visual.height })
}

/// The configuration of the first sample entry of a track, where that is H.264.
pub uninterp spec fn avcc_at(raw: Seq<u8>, trak: nat) -> Option<Avcc>;

/// `mp4_atom::Moov::decode`: profile, compatibility and level of an H.264 configuration record.
#[verifier::external_body]
pub(crate) fn read_avcc(raw: &[u8], trak: usize) -> (avcc: Option<Avcc>)
    requires
        has_trak(raw@, trak as nat),
    ensures
        avcc == avcc_at(raw@, trak as nat),
        first_is(raw@, trak as nat, EntryKind::Avc1) ==> avcc is Some,
{
    let moov = mp4_atom::Moov::decode(&mut &*raw).unwrap_or_default();
    let mp4_atom::Codec::Avc1(c) = moov.trak[trak].mdia.minf.stbl.stsd.codecs.first()? else {
        return None;
    };
    Some(Avcc {
        avc_profile_indication: c.avcc.avc_profile_indication,
        profile_compatibility: c.avcc.profile_compatibility,
        avc_level_indication: c.avcc.avc_level_indication,
    })
}

/// The bytes of the configuration record of the first sample entry of a track, where that is
/// H.264.
pub uninterp spec fn avcc_record(raw: Seq<u8>, trak: nat) -> Option<Seq<u8>>;

/// `mp4_atom::Avcc::encode_body`: an H.264 configuration record. One that was read can be written.
#[verifier::external_body]
pub(crate) fn write_avcc(raw: &[u8], trak: usize) -> (record: Option<Vec<u8>>)
    requires
        has_trak(raw@, trak as nat),
    ensures
        bytes(record) == avcc_record(raw@, trak as nat),
        first_is(raw@, trak as nat, EntryKind::Avc1) ==> record is Some,
{
    let moov = mp4_atom::Moov::decode(&mut &*raw).unwrap_or_default();
    let mp4_atom::Codec::Avc1(c) = moov.trak[trak].mdia.minf.stbl.stsd.codecs.first()? else {
        return None;
    };
    let mut description = Vec::new();
    c.avcc.encode_body(&mut description).ok()?;
    Some(description)
}

/// The configuration of the first sample entry of a track, where that is H.265.
pub uninterp spec fn hvcc_at(raw: Seq<u8>, trak: nat) -> Option<Hvcc>;

/// `mp4_atom::Moov::decode`: the general fields of an H.265 configuration record, which both
/// kinds of entries have.
#[verifier::external_body]
pub(crate) fn read_hvcc(raw: &[u8], trak: usize) -> (hvcc: Option<Hvcc>)
    requires
        has_trak(raw@, trak as nat),
    ensures
        hvcc == hvcc_at(raw@, trak as nat),
        first_is(raw@, trak as nat, EntryKind::Hev1) || first_is(
            raw@,
            trak as nat,
            EntryKind::Hvc1,
        ) ==> hvcc is Some,
{
    let moov = mp4_atom::Moov::decode(&mut &*raw).unwrap_or_default();
    let c = match moov.trak[trak].mdia.minf.stbl.stsd.codecs.first()? {
        mp4_atom::Codec::Hev1(c) => &c.hvcc,
        mp4_atom::Codec::Hvc1(c) => &c.hvcc,
        _ => return None,
    };
    let (general_profile_space, general_profile_idc) = (c.general_profile_space, c.general_profile_idc);
    let general_profile_compatibility_flags = c.general_profile_compatibility_flags;
    Some(Hvcc {
        general_profile_space, general_profile_idc, general_profile_compatibility_flags,
        general_tier_flag: c.general_tier_flag, general_level_idc: c.general_level_idc,
        general_constraint_indicator_flags: c.general_constraint_indicator_flags,
    })
}

/// The bytes of the configuration record of the first sample entry of a track, where that is
/// H.265.
pub uninterp spec fn hvcc_record(raw: Seq<u8>, trak: nat) -> Option<Seq<u8>>;

/// `mp4_atom::Hvcc::encode_body`: an H.265 configuration record. One that was read can be written.
#[verifier::external_body]
pub(crate) fn write_hvcc(raw: &[u8], trak: usize) -> (record: Option<Vec<u8>>)
    requires
        has_trak(raw@, trak as nat),
    ensures
        bytes(record) == hvcc_record(raw@, trak as nat),
        first_is(raw@, trak as nat, EntryKind::Hev1) || first_is(
            raw@,
            trak as nat,
            EntryKind::Hvc1,
        ) ==> record is Some,
{
    let moov = mp4_atom::Moov::decode(&mut &*raw).unwrap_or_default();
    let c = match moov.trak[trak].mdia.minf.stbl.stsd.codecs.first()? {
        mp4_atom::Codec::Hev1(c) => &c.hvcc,
        mp4_atom::Codec::Hvc1(c) => &c.hvcc,
        _ => return None,
    };
    let mut description = Vec::new();
    c.encode_body(&mut description).ok()?;
    Some(description)
}

/// The configuration of the first sample entry of a track, where that is VP9.
pub uninterp spec fn vp9_at(raw: Seq<u8>, trak: nat) -> Option<VP9>;

/// `mp4_atom::Moov::decode`: the fields of a VP9 configuration record.
#[verifier::external_body]
pub(crate) fn read_vp9(raw: &[u8], trak: usize) -> (vp9: Option<VP9>)
    requires
        has_trak(raw@, trak as nat),
    ensures
        vp9 == vp9_at(raw@, trak as nat),
        first_is(raw@, trak as nat, EntryKind::Vp09) ==> vp9 is Some,
{
    let moov = mp4_atom::Moov::decode(&mut &*raw).unwrap_or_default();
    let mp4_atom::Codec::Vp09(c) = moov.trak[trak].mdia.minf.stbl.stsd.codecs.first()? else {
        return None;
    };
    Some(VP9 {
        profile: c.vpcc.profile,
        level: c.vpcc.level,
        bit_depth: c.vpcc.bit_depth,
        color_primaries: c.vpcc.color_primaries,
        chroma_subsampling: c.vpcc.chroma_subsampling,
        transfer_characteristics: c.vpcc.transfer_characteristics,
        matrix_coefficients: c.vpcc.matrix_coefficients,
        full_range: c.vpcc.video_full_range_flag,
    })
}

/// The configuration of the first sample entry of a track, where that is AV1.
pub uninterp spec fn av1_at(raw: Seq<u8>, trak: nat) -> Option<Av1c>;

/// `mp4_atom::Moov::decode`: the fields of an AV1 configuration record.
#[verifier::external_body]
pub(crate) fn read_av1(raw: &[u8], trak: usize) -> (av1: Option<Av1c>)
    requires
        has_trak(raw@, trak as nat),
    ensures
        av1 == av1_at(raw@, trak as nat),
        first_is(raw@, trak as nat, EntryKind::Av01) ==> av1 is Some,
{
    let moov = mp4_atom::Moov::decode(&mut &*raw).unwrap_or_default();
    let mp4_atom::Codec::Av01(c) = moov.trak[trak].mdia.minf.stbl.stsd.codecs.first()? else {
        return None;
    };
    Some(Av1c {
        seq_profile: c.av1c.seq_profile,
        seq_level_idx_0: c.av1c.seq_level_idx_0,
        seq_tier_0: c.av1c.seq_tier_0,
        high_bitdepth: c.av1c.high_bitdepth,
        monochrome: c.av1c.monochrome,
        chroma_subsampling_x: c.av1c.chroma_subsampling_x,
        chroma_subsampling_y: c.av1c.chroma_subsampling_y,
        chroma_sample_position: c.av1c.chroma_sample_position,
    })
}

/// The configuration of the first sample entry of a track, where that is MPEG-4 audio.
pub uninterp spec fn mp4a_at(raw: Seq<u8>, trak: nat) -> Option<Mp4a>;

/// `mp4_atom::Moov::decode`: the fields of an MPEG-4 audio entry and its decoder configuration.
#[verifier::external_body]
pub(crate) fn read_mp4a(raw: &[u8], trak: usize) -> (mp4a: Option<Mp4a>)
    requires
        has_trak(raw@, trak as nat),
    ensures
        mp4a == mp4a_at(raw@, trak as nat),
        first_is(raw@, trak as nat, EntryKind::Mp4a) ==> mp4a is Some,
{
    let moov = mp4_atom::Moov::decode(&mut &*raw).unwrap_or_default();
    let mp4_atom::Codec::Mp4a(c) = moov.trak[trak].mdia.minf.stbl.stsd.codecs.first()? else {
        return None;
    };
    let desc = &c.esds.es_desc.dec_config;
    Some(Mp4a {
        object_type_indication: desc.object_type_indication,
        avg_bitrate: desc.avg_bitrate,
        max_bitrate: desc.max_bitrate,
        profile: desc.dec_specific.profile,
        sample_rate: c.audio.sample_rate.integer(),
        channel_count: c.audio.channel_count,
    })
}

/// The shape of the sound of the first sample entry of a track, where that is Opus.
pub uninterp spec fn opus_at(raw: Seq<u8>, trak: nat) -> Option<Sound>;

/// `mp4_atom::Moov::decode`: the sample rate and the channels of an Opus entry.
#[verifier::external_body]
pub(crate) fn read_opus(raw: &[u8], trak: usize) -> (opus: Option<Sound>)
    requires
        has_trak(raw@, trak as nat),
    ensures
        opus == opus_at(raw@, trak as nat),
        first_is(raw@, trak as nat, EntryKind::Opus) ==> opus is Some,
{
    let moov = mp4_atom::Moov::decode(&mut &*raw).unwrap_or_default();
    let mp4_atom::Codec::Opus(c) = moov.trak[trak].mdia.minf.stbl.stsd.codecs.first()? else {
        return None;
    };
    Some(Sound { sample_rate: c.audio.sample_rate.integer(), channel_count: c.audio.channel_count })
}

} // verus!
