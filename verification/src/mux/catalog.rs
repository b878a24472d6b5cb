//! The catalogs that describe the tracks of a broadcast.

use crate::mux::codec::{AudioCodec, VideoCodec};
use vstd::prelude::*;

verus! {

/// The bits of a frame rate, which is carried through as it is: a float of 64 bits.
#[derive(Debug, Clone, Copy, PartialEq, Eq, Structural)]
pub struct Framerate(pub u64);

/// How the objects of a track are packaged.
#[derive(Debug, Clone, Copy, PartialEq, Eq, Structural)]
pub enum Packaging {
    Cmaf,
    Other,
}

/// What a track is for.
#[derive(Debug, Clone, Copy, PartialEq, Eq, Structural)]
pub enum Role {
    Video,
    Audio,
    Other,
}

/// The codec of a track.
#[derive(Debug)]
pub enum Codec<S = String> {
    Video(VideoCodec<S>),
    Audio(AudioCodec<S>),
}

/// A track in an MSF catalog.
#[derive(Debug)]
pub struct MsfTrack<S = String> {
    pub name: S,
    pub packaging: Packaging,
    pub is_live: bool,
    pub role: Option<Role>,
    pub codec: Option<Codec<S>>,
    pub width: Option<u32>,
    pub height: Option<u32>,
    pub framerate: Option<Framerate>,
    pub samplerate: Option<u32>,
    pub channel_config: Option<S>,
    pub bitrate: Option<u64>,
    pub init_data: Option<S>,
    pub render_group: Option<u32>,
    pub alt_group: Option<u32>,
    pub max_grp_sap_starting_type: Option<u32>,
    pub max_obj_sap_starting_type: Option<u32>,
}

/// An MSF catalog.
#[derive(Debug, Clone)]
pub struct MsfCatalog {
    pub version: u32,
    /// When it was made, in milliseconds since the epoch.
    pub generated_at: Option<u64>,
    pub tracks: Vec<MsfTrack>,
}

/// What an MSF catalog says.
pub struct MsfCatalogView {
    pub version: u32,
    pub generated_at: Option<u64>,
    pub tracks: Seq<MsfTrack<Seq<char>>>,
}

/// How the frames of a track are contained.
#[derive(Debug)]
pub enum Container<B = Vec<u8>> {
    /// Each frame is preceded by its time.
    Legacy,
    /// Each frame is a moof and an mdat, for this init segment.
    Cmaf { init: B },
}

/// A video track in a hang catalog.
#[derive(Debug)]
pub struct VideoConfig<S = String, B = Vec<u8>> {
    pub codec: VideoCodec<S>,
    pub description: Option<B>,
    pub coded_width: Option<u32>,
    pub coded_height: Option<u32>,
    pub bitrate: Option<u64>,
    pub framerate: Option<Framerate>,
    pub container: Container<B>,
    /// In milliseconds.
    pub jitter: Option<u64>,
}

/// An audio track in a hang catalog.
#[derive(Debug)]
pub struct AudioConfig<S = String, B = Vec<u8>> {
    pub codec: AudioCodec<S>,
    pub description: Option<B>,
    pub sample_rate: u32,
    pub channel_count: u32,
    pub bitrate: Option<u64>,
    pub container: Container<B>,
    /// In milliseconds.
    pub jitter: Option<u64>,
}

/// A track in a hang catalog, under its name.
#[derive(Debug)]
pub enum Rendition<S = String, B = Vec<u8>> {
    Video(S, VideoConfig<S, B>),
    Audio(S, AudioConfig<S, B>),
}

/// A hang catalog: its renditions, in the order of their tracks.
#[derive(Debug, Clone)]
pub struct HangCatalog {
    pub renditions: Vec<Rendition>,
}

/// What a hang catalog says.
pub struct HangCatalogView {
    pub renditions: Seq<Rendition<Seq<char>, Seq<u8>>>,
}

/// What an optional value says.
pub open spec fn text(o: Option<String>) -> Option<Seq<char>> {
    match o {
        Some(s) => Some(s@),
        None => None,
    }
}

/// What optional bytes are.
pub open spec fn bytes(o: Option<Vec<u8>>) -> Option<Seq<u8>> {
    match o {
        Some(s) => Some(s@),
        None => None,
    }
}

impl View for Codec<String> {
    type V = Codec<Seq<char>>;

    open spec fn view(&self) -> Codec<Seq<char>> {
        match self {
            Codec::Video(c) => Codec::Video(c@),
            Codec::Audio(c) => Codec::Audio(c@),
        }
    }
}

impl View for MsfTrack<String> {
    type V = MsfTrack<Seq<char>>;

    open spec fn view(&self) -> MsfTrack<Seq<char>> {
        MsfTrack {
            name: self.name@,
            packaging: self.packaging,
            is_live: self.is_live,
            role: self.role,
            codec: match self.codec {
                Some(c) => Some(c@),
                None => None,
            },
            width: self.width,
            height: self.height,
            framerate: self.framerate,
            samplerate: self.samplerate,
            channel_config: text(self.channel_config),
            bitrate: self.bitrate,
            init_data: text(self.init_data),
            render_group: self.render_group,
            alt_group: self.alt_group,
            max_grp_sap_starting_type: self.max_grp_sap_starting_type,
            max_obj_sap_starting_type: self.max_obj_sap_starting_type,
        }
    }
}

impl View for MsfCatalog {
    type V = MsfCatalogView;

    open spec fn view(&self) -> MsfCatalogView {
        MsfCatalogView {
            version: self.version,
            generated_at: self.generated_at,
            tracks: self.tracks@.map_values(|t: MsfTrack| t@),
        }
    }
}

impl View for Container<Vec<u8>> {
    type V = Container<Seq<u8>>;

    open spec fn view(&self) -> Container<Seq<u8>> {
        match self {
            Container::Legacy => Container::Legacy,
            Container::Cmaf { init } => Container::Cmaf { init: init@ },
        }
    }
}

impl View for VideoConfig<String, Vec<u8>> {
    type V = VideoConfig<Seq<char>, Seq<u8>>;

    open spec fn view(&self) -> VideoConfig<Seq<char>, Seq<u8>> {
        VideoConfig {
            codec: self.codec@,
            description: bytes(self.description),
            coded_width: self.coded_width,
            coded_height: self.coded_height,
            bitrate: self.bitrate,
            framerate: self.framerate,
            container: self.container@,
            jitter: self.jitter,
        }
    }
}

impl View for AudioConfig<String, Vec<u8>> {
    type V = AudioConfig<Seq<char>, Seq<u8>>;

    open spec fn view(&self) -> AudioConfig<Seq<char>, Seq<u8>> {
        AudioConfig {
            codec: self.codec@,
            description: bytes(self.description),
            sample_rate: self.sample_rate,
            channel_count: self.channel_count,
            bitrate: self.bitrate,
            container: self.container@,
            jitter: self.jitter,
        }
    }
}

impl View for Rendition<String, Vec<u8>> {
    type V = Rendition<Seq<char>, Seq<u8>>;

    open spec fn view(&self) -> Rendition<Seq<char>, Seq<u8>> {
        match self {
            Rendition::Video(name, c) => Rendition::Video(name@, c@),
            Rendition::Audio(name, c) => Rendition::Audio(name@, c@),
        }
    }
}

impl View for HangCatalog {
    type V = HangCatalogView;

    open spec fn view(&self) -> HangCatalogView {
        HangCatalogView { renditions: self.renditions@.map_values(|r: Rendition| r@) }
    }
}

/// The same bytes once more.
pub fn clone_bytes(o: &Option<Vec<u8>>) -> (copy: Option<Vec<u8>>)
    ensures
        bytes(copy) == bytes(*o),
{
    match o {
        Some(b) => {
            let copy = vstd::slice::slice_to_vec(b.as_slice());
            Some(copy)
        },
        None => None,
    }
}

/// The same text once more.
fn clone_text(o: &Option<String>) -> (copy: Option<String>)
    ensures
        text(copy) == text(*o),
{
    match o {
        Some(s) => Some(s.clone()),
        None => None,
    }
}

impl Clone for Codec<String> {
    fn clone(&self) -> (copy: Self)
        ensures
            copy@ == self@,
    {
        match self {
            Codec::Video(c) => Codec::Video(c.clone()),
            Codec::Audio(c) => Codec::Audio(c.clone()),
        }
    }
}

impl Clone for MsfTrack<String> {
    fn clone(&self) -> (copy: Self)
        ensures
            copy@ == self@,
    {
        MsfTrack {
            name: self.name.clone(),
            packaging: self.packaging,
            is_live: self.is_live,
            role: self.role,
            codec: match &self.codec {
                Some(c) => Some(c.clone()),
                None => None,
            },
            width: self.width,
            height: self.height,
            framerate: self.framerate,
            samplerate: self.samplerate,
            channel_config: clone_text(&self.channel_config),
            bitrate: self.bitrate,
            init_data: clone_text(&self.init_data),
            render_group: self.render_group,
            alt_group: self.alt_group,
            max_grp_sap_starting_type: self.max_grp_sap_starting_type,
            max_obj_sap_starting_type: self.max_obj_sap_starting_type,
        }
    }
}

impl Clone for Container<Vec<u8>> {
    fn clone(&self) -> (copy: Self)
        ensures
            copy@ == self@,
    {
        match self {
            Container::Legacy => Container::Legacy,
            Container::Cmaf { init } => Container::Cmaf {
                init: vstd::slice::slice_to_vec(init.as_slice()),
            },
        }
    }
}

impl Clone for VideoConfig<String, Vec<u8>> {
    fn clone(&self) -> (copy: Self)
        ensures
            copy@ == self@,
    {
        VideoConfig {
            codec: self.codec.clone(),
            description: clone_bytes(&self.description),
            coded_width: self.coded_width,
            coded_height: self.coded_height,
            bitrate: self.bitrate,
            framerate: self.framerate,
            container: self.container.clone(),
            jitter: self.jitter,
        }
    }
}

impl Clone for AudioConfig<String, Vec<u8>> {
    fn clone(&self) -> (copy: Self)
        ensures
            copy@ == self@,
    {
        AudioConfig {
            codec: self.codec.clone(),
            description: clone_bytes(&self.description),
            sample_rate: self.sample_rate,
            channel_count: self.channel_count,
            bitrate: self.bitrate,
            container: self.container.clone(),
            jitter: self.jitter,
        }
    }
}

impl Clone for Rendition<String, Vec<u8>> {
    fn clone(&self) -> (copy: Self)
        ensures
            copy@ == self@,
    {
        match self {
            Rendition::Video(name, c) => Rendition::Video(name.clone(), c.clone()),
            Rendition::Audio(name, c) => Rendition::Audio(name.clone(), c.clone()),
        }
    }
}

} // verus!
