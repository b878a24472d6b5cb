//! A catalog that changes from phase to phase: a track is added, and taken away again.

use crate::libmoq::publish::same;
use crate::mux::catalog::{
    AudioConfig, Container, Framerate, HangCatalog, HangCatalogView, Rendition, VideoConfig,
};
use crate::mux::codec::{AudioCodec, H264, VideoCodec};
use vstd::prelude::*;

verus! {

/// Thirty frames per second, as the bits of a floating-point number.
pub const THIRTY_FPS: u64 = 0x403e_0000_0000_0000;

/// A made-up video track: H.264 of high profile, level 3.1.
pub open spec fn video_of(width: u32, height: u32) -> VideoConfig<Seq<char>, Seq<u8>> {
    VideoConfig {
        codec: VideoCodec::H264(
            H264 { profile: 0x64, constraints: 0x00, level: 0x1f, inline: false },
        ),
        description: None,
        coded_width: Some(width),
        coded_height: Some(height),
        bitrate: Some(2_000_000),
        framerate: Some(Framerate(THIRTY_FPS)),
        container: Container::Legacy,
        jitter: None,
    }
}

/// A made-up audio track: stereo Opus.
pub open spec fn audio() -> AudioConfig<Seq<char>, Seq<u8>> {
    AudioConfig {
        codec: AudioCodec::Opus,
        sample_rate: 48_000,
        channel_count: 2,
        bitrate: Some(128_000),
        description: None,
        container: Container::Legacy,
        jitter: None,
    }
}

/// Makes up a video track.
pub fn dummy_video(width: u32, height: u32) -> (config: VideoConfig)
    ensures
        config@ == video_of(width, height),
{
    VideoConfig {
        codec: VideoCodec::H264(
            H264 { profile: 0x64, constraints: 0x00, level: 0x1f, inline: false },
        ),
        description: None,
        coded_width: Some(width),
        coded_height: Some(height),
        bitrate: Some(2_000_000),
        framerate: Some(Framerate(THIRTY_FPS)),
        container: Container::Legacy,
        jitter: None,
    }
}

/// Makes up an audio track.
pub fn dummy_audio() -> (config: AudioConfig)
    ensures
        config@ == audio(),
{
    AudioConfig {
        codec: AudioCodec::Opus,
        sample_rate: 48_000,
        channel_count: 2,
        bitrate: Some(128_000),
        description: None,
        container: Container::Legacy,
        jitter: None,
    }
}

/// What the catalog holds in a phase: a second video track in the second one, and one of each
/// kind in all others.
pub open spec fn catalog_of(phase: u8) -> Seq<Rendition<Seq<char>, Seq<u8>>> {
    let first = Rendition::Video("video0.hang"@, video_of(1280, 720));
    let second = Rendition::Video("video1.hang"@, video_of(640, 360));
    let sound = Rendition::Audio("audio0.hang"@, audio());
    if phase == 2 {
        seq![first, sound, second]
    } else {
        seq![first, sound]
    }
}

/// The catalog of a phase.
pub fn phase_catalog(phase: u8) -> (catalog: HangCatalog)
    ensures
        catalog@ == (HangCatalogView { renditions: catalog_of(phase) }),
{
    let mut renditions: Vec<Rendition> = Vec::new();
    renditions.push(Rendition::Video("video0.hang".to_owned(), dummy_video(1280, 720)));
    renditions.push(Rendition::Audio("audio0.hang".to_owned(), dummy_audio()));
    if phase == 2 {
        renditions.push(Rendition::Video("video1.hang".to_owned(), dummy_video(640, 360)));
    }
    let catalog = HangCatalog { renditions };
    assert(catalog@.renditions =~= catalog_of(phase));
    catalog
}

/// The priority of a track, by its name.
pub open spec fn priority_of(name: Seq<char>) -> Option<u8> {
    if name == "video0.hang"@ {
        Some(2)
    } else if name == "audio0.hang"@ {
        Some(1)
    } else if name == "video1.hang"@ {
        Some(3)
    } else {
        None
    }
}

/// The priority that a track is created with; none if there is no such track.
pub fn track_priority(name: &str) -> (priority: Option<u8>)
    ensures
        priority == priority_of(name@),
{
    if same(name, "video0.hang") {
        Some(2)
    } else if same(name, "audio0.hang") {
        Some(1)
    } else if same(name, "video1.hang") {
        Some(3)
    } else {
        None
    }
}

/// Whether the second video track has data in a phase: from when it is added until one phase
/// after it has left the catalog.
pub open spec fn flows(phase: u8) -> bool {
    2 <= phase <= 3
}

/// Whether the second video track has data in a phase.
pub fn second_video_flows(phase: u8) -> (b: bool)
    ensures
        b == flows(phase),
{
    2 <= phase && phase <= 3
}

/// The second track is listed in one phase, and has data in that one and in the next.
pub proof fn law_second_track_comes_and_goes(phase: u8)
    ensures
        catalog_of(phase).len() == if phase == 2 {
            3int
        } else {
            2
        },
        flows(phase) <==> phase >= 2 && catalog_of((phase - 1) as u8).len() + catalog_of(
            phase,
        ).len() == 5,
        catalog_of(phase).take(2) == catalog_of(1).take(2),
{
    assert(catalog_of(phase).take(2) =~= catalog_of(1).take(2));
}

/// Every track that is listed in some phase can be created; each has a priority of its own.
pub proof fn law_listed_tracks_can_be_created(phase: u8, i: int)
    requires
        0 <= i < catalog_of(phase).len(),
    ensures
        ({
            let name = match catalog_of(phase)[i] {
                Rendition::Video(n, _) => n,
                Rendition::Audio(n, _) => n,
            };
            &&& priority_of(name) is Some
            &&& i == 0 ==> priority_of(name) == Some(2u8)
            &&& i == 1 ==> priority_of(name) == Some(1u8)
            &&& i == 2 ==> priority_of(name) == Some(3u8)
        }),
{
    reveal_strlit("video0.hang");
    reveal_strlit("video1.hang");
    reveal_strlit("audio0.hang");
    assert("video0.hang"@[0] != "audio0.hang"@[0]);
    assert("video0.hang"@[5] != "video1.hang"@[5]);
    assert("video1.hang"@[0] != "audio0.hang"@[0]);
}

/// The tracks that are made up: H.264 of two sizes at thirty frames per second, and stereo Opus,
/// none of which has a description of its own.
pub proof fn law_made_up_tracks(width: u32, height: u32)
    ensures
        ({
            let v = video_of(width, height);
            &&& v.coded_width == Some(width)
            &&& v.coded_height == Some(height)
            &&& v.codec is H264
            &&& v.codec->H264_0.profile == 100
            &&& v.codec->H264_0.constraints == 0
            &&& v.codec->H264_0.level == 31
            &&& !v.codec->H264_0.inline
            &&& v.bitrate == Some(2_000_000u64)
            &&& v.framerate is Some
            &&& v.description is None
            &&& v.jitter is None
            &&& v.container is Legacy
        }),
        audio().codec is Opus,
        audio().sample_rate == 48_000,
        audio().channel_count == 2,
        audio().bitrate == Some(128_000u64),
        audio().description is None,
        audio().container is Legacy,
{
}

} // verus!
