//! The codecs that a track can have.

use vstd::prelude::*;

verus! {

/// The parameters of H.264.
#[derive(Debug, Clone, Copy, PartialEq, Eq, Structural)]
pub struct H264 {
    pub profile: u8,
    pub constraints: u8,
    pub level: u8,
    /// Whether parameter sets come with the samples.
    pub inline: bool,
}

/// The parameters of H.265.
#[derive(Debug, Clone, Copy)]
pub struct H265 {
    /// Whether parameter sets come with the samples.
    pub in_band: bool,
    pub profile_space: u8,
    pub profile_idc: u8,
    pub profile_compatibility_flags: [u8; 4],
    pub tier_flag: bool,
    pub level_idc: u8,
    pub constraint_flags: [u8; 6],
}

/// The parameters of VP9.
#[derive(Debug, Clone, Copy, PartialEq, Eq, Structural)]
pub struct VP9 {
    pub profile: u8,
    pub level: u8,
    pub bit_depth: u8,
    pub color_primaries: u8,
    pub chroma_subsampling: u8,
    pub transfer_characteristics: u8,
    pub matrix_coefficients: u8,
    pub full_range: bool,
}

/// The parameters of AV1.
#[derive(Debug, Clone, Copy, PartialEq, Eq, Structural)]
pub struct AV1 {
    pub profile: u8,
    pub level: u8,
    pub bitdepth: u8,
    pub mono_chrome: bool,
    pub chroma_subsampling_x: bool,
    pub chroma_subsampling_y: bool,
    pub chroma_sample_position: u8,
}

/// The parameters of AAC.
#[derive(Debug, Clone, Copy, PartialEq, Eq, Structural)]
pub struct AAC {
    pub profile: u8,
}

/// The codec of a video track.
#[derive(Debug)]
pub enum VideoCodec<S = String> {
    H264(H264),
    H265(H265),
    VP8,
    VP9(VP9),
    AV1(AV1),
    Unknown(S),
}

/// The codec of an audio track.
#[derive(Debug)]
pub enum AudioCodec<S = String> {
    AAC(AAC),
    Opus,
    Unknown(S),
}

impl View for VideoCodec<String> {
    type V = VideoCodec<Seq<char>>;

    open spec fn view(&self) -> VideoCodec<Seq<char>> {
        match self {
            VideoCodec::H264(c) => VideoCodec::H264(*c),
            VideoCodec::H265(c) => VideoCodec::H265(*c),
            VideoCodec::VP8 => VideoCodec::VP8,
            VideoCodec::VP9(c) => VideoCodec::VP9(*c),
            VideoCodec::AV1(c) => VideoCodec::AV1(*c),
            VideoCodec::Unknown(s) => VideoCodec::Unknown(s@),
        }
    }
}

impl View for AudioCodec<String> {
    type V = AudioCodec<Seq<char>>;

    open spec fn view(&self) -> AudioCodec<Seq<char>> {
        match self {
            AudioCodec::AAC(c) => AudioCodec::AAC(*c),
            AudioCodec::Opus => AudioCodec::Opus,
            AudioCodec::Unknown(s) => AudioCodec::Unknown(s@),
        }
    }
}

impl Clone for VideoCodec<String> {
    fn clone(&self) -> (copy: Self)
        ensures
            copy@ == self@,
    {
        match self {
            VideoCodec::H264(c) => VideoCodec::H264(*c),
            VideoCodec::H265(c) => VideoCodec::H265(*c),
            VideoCodec::VP8 => VideoCodec::VP8,
            VideoCodec::VP9(c) => VideoCodec::VP9(*c),
            VideoCodec::AV1(c) => VideoCodec::AV1(*c),
            VideoCodec::Unknown(s) => VideoCodec::Unknown(s.clone()),
        }
    }
}

impl Clone for AudioCodec<String> {
    fn clone(&self) -> (copy: Self)
        ensures
            copy@ == self@,
    {
        match self {
            AudioCodec::AAC(c) => AudioCodec::AAC(*c),
            AudioCodec::Opus => AudioCodec::Opus,
            AudioCodec::Unknown(s) => AudioCodec::Unknown(s.clone()),
        }
    }
}

} // verus!
