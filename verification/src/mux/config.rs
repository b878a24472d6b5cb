//! Describing the tracks of a moov.

use crate::mux::aac::{audio_specific_config, build_aac_audio_specific_config};
use crate::mux::catalog::{AudioConfig, Container, VideoConfig, bytes};
use crate::mux::codec::{AudioCodec, VideoCodec, AAC, AV1, H264, H265};
use crate::mux::init::{build_init_segment, init_segment};
use crate::mux::mp4::{moov_at, Moov, MoovView};
use crate::mux::parser::{CodecError, ImportError, ImportErrorView};
use crate::mux::sample_entry::{
    av1_at, avcc_at, avcc_record, entry_kinds, entry_text, first_is, has_trak, hvcc_at,
    hvcc_record, is_video, mp4a_at, opus_at, read_av1, read_avcc, read_entry_kinds,
    read_entry_text, read_hvcc, read_mp4a, read_opus, read_visual, read_vp9, visual_at, vp9_at,
    write_avcc, write_hvcc, Av1c, Avcc, EntryKind, Hvcc, Mp4a, Sound, Visual,
};
use crate::mux::types::{CmsfAudioTrack, CmsfVideoTrack};
use vstd::prelude::*;

verus! {

/// What is known of a video track.
#[derive(Debug)]
pub struct VideoEntry<S = String, B = Vec<u8>> {
    pub codec: VideoCodec<S>,
    pub description: Option<B>,
    pub width: u32,
    pub height: u32,
}

impl View for VideoEntry<String, Vec<u8>> {
    type V = VideoEntry<Seq<char>, Seq<u8>>;

    open spec fn view(&self) -> VideoEntry<Seq<char>, Seq<u8>> {
        VideoEntry {
            codec: self.codec@,
            description: bytes(self.description),
            width: self.width,
            height: self.height,
        }
    }
}

/// What is known of an audio track.
#[derive(Debug)]
pub struct AudioEntry<S = String, B = Vec<u8>> {
    pub codec: AudioCodec<S>,
    pub description: Option<B>,
    pub sample_rate: u32,
    pub channel_count: u32,
    pub bitrate: Option<u64>,
}

impl View for AudioEntry<String, Vec<u8>> {
    type V = AudioEntry<Seq<char>, Seq<u8>>;

    open spec fn view(&self) -> AudioEntry<Seq<char>, Seq<u8>> {
        AudioEntry {
            codec: self.codec@,
            description: bytes(self.description),
            sample_rate: self.sample_rate,
            channel_count: self.channel_count,
            bitrate: self.bitrate,
        }
    }
}

/// The one sample entry of a track; it may have neither none nor several.
pub open spec fn single_entry(kinds: Seq<EntryKind>) -> Result<EntryKind, CodecError> {
    if kinds.len() == 0 {
        Err(CodecError::Missing)
    } else if kinds.len() == 1 {
        Ok(kinds[0])
    } else {
        Err(CodecError::Multiple)
    }
}

/// Takes the one sample entry of a track.
pub fn one_entry(kinds: &Vec<EntryKind>) -> (res: Result<EntryKind, CodecError>)
    ensures
        res == single_entry(kinds@),
{
    match kinds.len() {
        0 => Err(CodecError::Missing),
        1 => Ok(kinds[0]),
        _ => Err(CodecError::Multiple),
    }
}

/// The parameters of H.264 that a configuration record gives. The parameter sets are in the
/// record.
pub open spec fn avc_of(c: Avcc) -> H264 {
    H264 {
        profile: c.avc_profile_indication,
        constraints: c.profile_compatibility,
        level: c.avc_level_indication,
        inline: false,
    }
}

/// The parameters of H.264 that a configuration record gives.
pub fn avc_codec(c: &Avcc) -> (avc: H264)
    ensures
        avc == avc_of(*c),
{
    H264 {
        profile: c.avc_profile_indication,
        constraints: c.profile_compatibility,
        level: c.avc_level_indication,
        inline: false,
    }
}

/// The parameters of H.265 that a configuration record gives. The parameter sets come with the
/// samples if the entry is of the kind that allows it.
pub open spec fn hevc_of(c: Hvcc, kind: EntryKind) -> H265 {
    H265 {
        in_band: kind == EntryKind::Hev1,
        profile_space: c.general_profile_space,
        profile_idc: c.general_profile_idc,
        profile_compatibility_flags: c.general_profile_compatibility_flags,
        tier_flag: c.general_tier_flag,
        level_idc: c.general_level_idc,
        constraint_flags: c.general_constraint_indicator_flags,
    }
}

/// The parameters of H.265 that a configuration record gives.
pub fn hevc_codec(c: &Hvcc, kind: EntryKind) -> (hevc: H265)
    ensures
        hevc == hevc_of(*c, kind),
{
    H265 {
        in_band: kind == EntryKind::Hev1,
        profile_space: c.general_profile_space,
        profile_idc: c.general_profile_idc,
        profile_compatibility_flags: c.general_profile_compatibility_flags,
        tier_flag: c.general_tier_flag,
        level_idc: c.general_level_idc,
        constraint_flags: c.general_constraint_indicator_flags,
    }
}

/// The parameters of AV1 that a configuration record gives. The depth is 12 bits at the high tier
/// with a high bit depth, 10 with either, and else 8.
pub open spec fn av1_of(c: Av1c) -> AV1 {
    AV1 {
        profile: c.seq_profile,
        level: c.seq_level_idx_0,
        bitdepth: if c.seq_tier_0 && c.high_bitdepth {
            12
        } else if c.seq_tier_0 || c.high_bitdepth {
            10
        } else {
            8
        },
        mono_chrome: c.monochrome,
        chroma_subsampling_x: c.chroma_subsampling_x,
        chroma_subsampling_y: c.chroma_subsampling_y,
        chroma_sample_position: c.chroma_sample_position,
    }
}

/// The parameters of AV1 that a configuration record gives.
pub fn av1_codec(c: &Av1c) -> (av1: AV1)
    ensures
        av1 == av1_of(*c),
{
    AV1 {
        profile: c.seq_profile,
        level: c.seq_level_idx_0,
        bitdepth: match (c.seq_tier_0, c.high_bitdepth) {
            (true, true) => 12,
            (true, false) => 10,
            (false, true) => 10,
            (false, false) => 8,
        },
        mono_chrome: c.monochrome,
        chroma_subsampling_x: c.chroma_subsampling_x,
        chroma_subsampling_y: c.chroma_subsampling_y,
        chroma_sample_position: c.chroma_sample_position,
    }
}

/// An AAC track: only MPEG-4 audio is supported, and the bit rate is the higher of the two.
pub open spec fn aac_of(c: Mp4a) -> Result<AudioEntry<Seq<char>, Seq<u8>>, CodecError> {
    if c.object_type_indication != 0x40 {
        Err(CodecError::Mpeg2)
    } else {
        Ok(
            AudioEntry {
                codec: AudioCodec::AAC(AAC { profile: c.profile }),
                description: Some(
                    audio_specific_config(
                        c.profile,
                        c.sample_rate as u32,
                        c.channel_count as u32,
                    ),
                ),
                sample_rate: c.sample_rate as u32,
                channel_count: c.channel_count as u32,
                bitrate: Some(
                    if c.avg_bitrate < c.max_bitrate {
                        c.max_bitrate as u64
                    } else {
                        c.avg_bitrate as u64
                    },
                ),
            },
        )
    }
}

/// An AAC track.
pub fn aac_entry(c: &Mp4a) -> (res: Result<AudioEntry, CodecError>)
    ensures
        match aac_of(*c) {
            Ok(a) => res matches Ok(v) && v@ == a,
            Err(e) => res == Err::<AudioEntry, _>(e),
        },
{
    if c.object_type_indication != 0x40 {
        return Err(CodecError::Mpeg2);
    }
    let bitrate: u32 = if c.avg_bitrate < c.max_bitrate {
        c.max_bitrate
    } else {
        c.avg_bitrate
    };
    let sample_rate: u32 = c.sample_rate as u32;
    let channel_count: u32 = c.channel_count as u32;
    Ok(
        AudioEntry {
            codec: AudioCodec::AAC(AAC { profile: c.profile }),
            description: Some(
                build_aac_audio_specific_config(c.profile, sample_rate, channel_count),
            ),
            sample_rate,
            channel_count,
            bitrate: Some(bitrate as u64),
        },
    )
}

/// An Opus track.
pub open spec fn opus_of(c: Sound) -> AudioEntry<Seq<char>, Seq<u8>> {
    AudioEntry {
        codec: AudioCodec::Opus,
        description: None,
        sample_rate: c.sample_rate as u32,
        channel_count: c.channel_count as u32,
        bitrate: None,
    }
}

/// A video track, by its codec and its configuration record.
pub open spec fn entry_of(
    codec: VideoCodec<Seq<char>>,
    description: Option<Seq<u8>>,
    visual: Visual,
) -> VideoEntry<Seq<char>, Seq<u8>> {
    VideoEntry {
        codec,
        description,
        width: visual.width as u32,
        height: visual.height as u32,
    }
}

/// What is known of a video track of a moov.
pub open spec fn video_of(raw: Seq<u8>, trak: nat) -> Result<
    VideoEntry<Seq<char>, Seq<u8>>,
    ImportErrorView,
> {
    let visual = visual_at(raw, trak)->Some_0;
    match single_entry(entry_kinds(raw, trak)) {
        Err(e) => Err(ImportErrorView::Codec(e)),
        Ok(EntryKind::Avc1) => Ok(
            entry_of(
                VideoCodec::H264(avc_of(avcc_at(raw, trak)->Some_0)),
                Some(avcc_record(raw, trak)->Some_0),
                visual,
            ),
        ),
        Ok(EntryKind::Hev1) => Ok(
            entry_of(
                VideoCodec::H265(hevc_of(hvcc_at(raw, trak)->Some_0, EntryKind::Hev1)),
                Some(hvcc_record(raw, trak)->Some_0),
                visual,
            ),
        ),
        Ok(EntryKind::Hvc1) => Ok(
            entry_of(
                VideoCodec::H265(hevc_of(hvcc_at(raw, trak)->Some_0, EntryKind::Hvc1)),
                Some(hvcc_record(raw, trak)->Some_0),
                visual,
            ),
        ),
        Ok(EntryKind::Vp08) => Ok(entry_of(VideoCodec::VP8, None, visual)),
        Ok(EntryKind::Vp09) => Ok(
            entry_of(VideoCodec::VP9(vp9_at(raw, trak)->Some_0), None, visual),
        ),
        Ok(EntryKind::Av01) => Ok(
            entry_of(VideoCodec::AV1(av1_of(av1_at(raw, trak)->Some_0)), None, visual),
        ),
        Ok(EntryKind::Unknown) => Err(ImportErrorView::UnknownCodec(entry_text(raw, trak))),
        Ok(_) => Err(ImportErrorView::UnsupportedCodec(entry_text(raw, trak))),
    }
}

/// What is known of an audio track of a moov.
pub open spec fn audio_of(raw: Seq<u8>, trak: nat) -> Result<
    AudioEntry<Seq<char>, Seq<u8>>,
    ImportErrorView,
> {
    match single_entry(entry_kinds(raw, trak)) {
        Err(e) => Err(ImportErrorView::Codec(e)),
        Ok(EntryKind::Mp4a) => match aac_of(mp4a_at(raw, trak)->Some_0) {
            Err(e) => Err(ImportErrorView::Codec(e)),
            Ok(a) => Ok(a),
        },
        Ok(EntryKind::Opus) => Ok(opus_of(opus_at(raw, trak)->Some_0)),
        Ok(EntryKind::Unknown) => Err(ImportErrorView::UnknownCodec(entry_text(raw, trak))),
        Ok(_) => Err(ImportErrorView::UnsupportedCodec(entry_text(raw, trak))),
    }
}

/// A video track with one sample entry, of a kind that is supported, is described; and so is an
/// audio track, unless its sound is MPEG-2.
pub proof fn law_supported_codecs_are_described(raw: Seq<u8>, trak: nat, kind: EntryKind)
    requires
        entry_kinds(raw, trak) == seq![kind],
    ensures
        is_video(kind) <==> video_of(raw, trak) is Ok,
        kind == EntryKind::Opus ==> audio_of(raw, trak) is Ok,
        kind == EntryKind::Mp4a ==> audio_of(raw, trak) is Ok || audio_of(raw, trak) == Err::<
            AudioEntry<Seq<char>, Seq<u8>>,
            _,
        >(ImportErrorView::Codec(CodecError::Mpeg2)),
{
}

/// Why a codec cannot be described.
fn refuse(kind: EntryKind, raw: &[u8], trak: usize) -> (err: ImportError)
    requires
        has_trak(raw@, trak as nat),
    ensures
        err@ == if kind == EntryKind::Unknown {
            ImportErrorView::UnknownCodec(entry_text(raw@, trak as nat))
        } else {
            ImportErrorView::UnsupportedCodec(entry_text(raw@, trak as nat))
        },
{
    let text = read_entry_text(raw, trak);
    match kind {
        EntryKind::Unknown => ImportError::UnknownCodec(text),
        _ => ImportError::UnsupportedCodec(text),
    }
}

/// Reads what is known of a video track.
pub(crate) fn read_video(raw: &[u8], trak: usize) -> (res: Result<VideoEntry, ImportError>)
    requires
        has_trak(raw@, trak as nat),
    ensures
        match video_of(raw@, trak as nat) {
            Ok(v) => res matches Ok(e) && e@ == v,
            Err(e) => res matches Err(f) && f@ == e,
        },
{
    let kind = match one_entry(&read_entry_kinds(raw, trak)) {
        Ok(kind) => kind,
        Err(e) => {
            return Err(ImportError::Codec(e));
        },
    };
    assert(first_is(raw@, trak as nat, kind));
    let (codec, description): (VideoCodec, Option<Vec<u8>>) = match kind {
        EntryKind::Avc1 => (
            VideoCodec::H264(avc_codec(&read_avcc(raw, trak).unwrap())),
            write_avcc(raw, trak),
        ),
        EntryKind::Hev1 | EntryKind::Hvc1 => (
            VideoCodec::H265(hevc_codec(&read_hvcc(raw, trak).unwrap(), kind)),
            write_hvcc(raw, trak),
        ),
        EntryKind::Vp08 => (VideoCodec::VP8, None),
        EntryKind::Vp09 => (VideoCodec::VP9(read_vp9(raw, trak).unwrap()), None),
        EntryKind::Av01 => (VideoCodec::AV1(av1_codec(&read_av1(raw, trak).unwrap())), None),
        _ => {
            return Err(refuse(kind, raw, trak));
        },
    };
    assert(is_video(kind));
    let visual = read_visual(raw, trak).unwrap();
    Ok(
        VideoEntry {
            codec,
            description,
            width: visual.width as u32,
            height: visual.height as u32,
        },
    )
}

/// Reads what is known of an audio track.
pub(crate) fn read_audio(raw: &[u8], trak: usize) -> (res: Result<AudioEntry, ImportError>)
    requires
        has_trak(raw@, trak as nat),
    ensures
        match audio_of(raw@, trak as nat) {
            Ok(v) => res matches Ok(e) && e@ == v,
            Err(e) => res matches Err(f) && f@ == e,
        },
{
    let kind = match one_entry(&read_entry_kinds(raw, trak)) {
        Ok(kind) => kind,
        Err(e) => {
            return Err(ImportError::Codec(e));
        },
    };
    assert(first_is(raw@, trak as nat, kind));
    match kind {
        EntryKind::Mp4a => match aac_entry(&read_mp4a(raw, trak).unwrap()) {
            Ok(entry) => Ok(entry),
            Err(e) => Err(ImportError::Codec(e)),
        },
        EntryKind::Opus => {
            let c = read_opus(raw, trak).unwrap();
            Ok(
                AudioEntry {
                    codec: AudioCodec::Opus,
                    description: None,
                    sample_rate: c.sample_rate as u32,
                    channel_count: c.channel_count as u32,
                    bitrate: None,
                },
            )
        },
        _ => Err(refuse(kind, raw, trak)),
    }
}

/// A video track as a catalog describes it.
pub open spec fn video_config(raw: Seq<u8>, moov: MoovView, trak: nat) -> Result<
    VideoConfig<Seq<char>, Seq<u8>>,
    ImportErrorView,
> {
    match init_segment(raw, moov, trak) {
        Err(e) => Err(ImportErrorView::Parse(e)),
        Ok(init) => match video_of(raw, trak) {
            Err(e) => Err(e),
            Ok(v) => Ok(
                VideoConfig {
                    codec: v.codec,
                    description: v.description,
                    coded_width: Some(v.width),
                    coded_height: Some(v.height),
                    bitrate: None,
                    framerate: None,
                    container: Container::Cmaf { init },
                    jitter: None,
                },
            ),
        },
    }
}

/// An audio track as a catalog describes it.
pub open spec fn audio_config(raw: Seq<u8>, moov: MoovView, trak: nat) -> Result<
    AudioConfig<Seq<char>, Seq<u8>>,
    ImportErrorView,
> {
    match init_segment(raw, moov, trak) {
        Err(e) => Err(ImportErrorView::Parse(e)),
        Ok(init) => match audio_of(raw, trak) {
            Err(e) => Err(e),
            Ok(a) => Ok(
                AudioConfig {
                    codec: a.codec,
                    description: a.description,
                    sample_rate: a.sample_rate,
                    channel_count: a.channel_count,
                    bitrate: a.bitrate,
                    container: Container::Cmaf { init },
                    jitter: None,
                },
            ),
        },
    }
}

/// Describes a video track for a catalog.
pub(crate) fn init_video(raw: &[u8], moov: &Moov, trak: usize) -> (res: Result<
    VideoConfig,
    ImportError,
>)
    requires
        moov_at(raw@) == Ok::<MoovView, Seq<char>>(moov@),
        trak < moov@.trak.len(),
    ensures
        match video_config(raw@, moov@, trak as nat) {
            Ok(v) => res matches Ok(c) && c@ == v,
            Err(e) => res matches Err(f) && f@ == e,
        },
{
    let init = match build_init_segment(raw, moov, trak) {
        Ok(init) => init,
        Err(e) => {
            return Err(ImportError::Parse(e));
        },
    };
    let entry = read_video(raw, trak)?;
    Ok(
        VideoConfig {
            codec: entry.codec,
            description: entry.description,
            coded_width: Some(entry.width),
            coded_height: Some(entry.height),
            bitrate: None,
            framerate: None,
            container: Container::Cmaf { init },
            jitter: None,
        },
    )
}

/// Describes an audio track for a catalog.
pub(crate) fn init_audio(raw: &[u8], moov: &Moov, trak: usize) -> (res: Result<
    AudioConfig,
    ImportError,
>)
    requires
        moov_at(raw@) == Ok::<MoovView, Seq<char>>(moov@),
        trak < moov@.trak.len(),
    ensures
        match audio_config(raw@, moov@, trak as nat) {
            Ok(v) => res matches Ok(c) && c@ == v,
            Err(e) => res matches Err(f) && f@ == e,
        },
{
    let init = match build_init_segment(raw, moov, trak) {
        Ok(init) => init,
        Err(e) => {
            return Err(ImportError::Parse(e));
        },
    };
    let entry = read_audio(raw, trak)?;
    Ok(
        AudioConfig {
            codec: entry.codec,
            description: entry.description,
            sample_rate: entry.sample_rate,
            channel_count: entry.channel_count,
            bitrate: entry.bitrate,
            container: Container::Cmaf { init },
            jitter: None,
        },
    )
}

/// Build video config from an fMP4 track, without its init segment and timescale.
///
/// All video tracks are assigned `alt_group: Some(1)`: this assumes a single
/// ABR ladder where all video renditions are switchable.
pub(crate) fn build_video_config(raw: &[u8], trak: usize) -> (res: Result<
    (CmsfVideoTrack, bool),
    ImportError,
>)
    requires
        has_trak(raw@, trak as nat),
    ensures
        match video_of(raw@, trak as nat) {
            Ok(v) => {
                &&& res matches Ok((t, is_h264))
                &&& t.codec@ == v.codec
                &&& bytes(t.description) == v.description
                &&& t.width == Some(v.width)
                &&& t.height == Some(v.height)
                &&& t.bitrate is None
                &&& t.framerate is None
                &&& t.init_segment@.len() == 0
                &&& t.alt_group == Some(1u32)
                &&& t.timescale == 0
                &&& is_h264 == (v.codec is H264)
            },
            Err(e) => res matches Err(f) && f@ == e,
        },
{
    let entry = read_video(raw, trak)?;
    let is_h264 = matches!(entry.codec, VideoCodec::H264(_));
    Ok(
        (
            CmsfVideoTrack {
                codec: entry.codec,
                description: entry.description,
                width: Some(entry.width),
                height: Some(entry.height),
                bitrate: None,
                framerate: None,
                init_segment: Vec::new(),
                alt_group: Some(1),
                timescale: 0,
            },
            is_h264,
        ),
    )
}

/// Build audio config from an fMP4 track, without its init segment and timescale.
///
/// All audio tracks are assigned `alt_group: Some(2)`: this makes them
/// "switching audio" in CMSF terms.
pub(crate) fn build_audio_config(raw: &[u8], trak: usize) -> (res: Result<
    CmsfAudioTrack,
    ImportError,
>)
    requires
        has_trak(raw@, trak as nat),
    ensures
        match audio_of(raw@, trak as nat) {
            Ok(a) => {
                &&& res matches Ok(t)
                &&& t.codec@ == a.codec
                &&& bytes(t.description) == a.description
                &&& t.sample_rate == a.sample_rate
                &&& t.channel_count == a.channel_count
                &&& t.bitrate == a.bitrate
                &&& t.init_segment@.len() == 0
                &&& t.alt_group == Some(2u32)
                &&& t.timescale == 0
            },
            Err(e) => res matches Err(f) && f@ == e,
        },
{
    let entry = read_audio(raw, trak)?;
    Ok(
        CmsfAudioTrack {
            codec: entry.codec,
            description: entry.description,
            sample_rate: entry.sample_rate,
            channel_count: entry.channel_count,
            bitrate: entry.bitrate,
            init_segment: Vec::new(),
            alt_group: Some(2),
            timescale: 0,
        },
    )
}

} // verus!
