//! What the catalogs of a broadcast say of its tracks, and when they are published.

use crate::mux::base64::{base64_bytes, base64_text};
use crate::mux::broadcast::{msf_track, BroadcastView, TrackView};
use crate::mux::catalog::{Codec, Container, Packaging, Rendition, Role};
use crate::mux::cmsf::CmsfMetadata;
use crate::mux::group_laws::{all_differ, extends};
use crate::mux::outbox::{ActionView, OutboxView};
use crate::mux::types::{CmsfAudioTrack, CmsfVideoTrack, SapType, TrackKind, TrackState};
use crate::text::decimal;
use vstd::prelude::*;

verus! {

/// Whether tracks are numbered behind those of the catalogs, in their order.
pub open spec fn numbered(p: BroadcastView) -> bool {
    let first: int = if p.hang_track is Some {
        2
    } else {
        1
    };
    &&& p.msf_track == 0
    &&& p.hang_track matches Some(n) ==> n == 1
    &&& forall|i: int| 0 <= i < p.tracks.len() ==> (#[trigger] p.tracks[i]).state.track == first + i
}

/// Tracks that are numbered so all have numbers of their own, and stay so when one is added.
pub proof fn law_tracks_are_numbered(
    p: BroadcastView,
    out: OutboxView,
    video: CmsfVideoTrack,
    audio: CmsfAudioTrack,
)
    requires
        numbered(p),
        p.has_room(),
    ensures
        all_differ(p),
        numbered(p.add_video(out, video).0),
        numbered(p.add_audio(out, audio).0),
{
}

/// The number of an access point in a catalog: 1, 2 or 3 by its type, and none for no access point.
pub proof fn law_access_points_are_told(t: TrackView)
    ensures
        msf_track(t).max_grp_sap_starting_type == match t.state.max_grp_sap {
            SapType::NoSap => None,
            SapType::Type1 => Some(1u32),
            SapType::Type2 => Some(2u32),
            SapType::Type3 => Some(3u32),
        },
        msf_track(t).max_obj_sap_starting_type == match t.state.max_obj_sap {
            SapType::NoSap => None,
            SapType::Type1 => Some(1u32),
            SapType::Type2 => Some(2u32),
            SapType::Type3 => Some(3u32),
        },
{
}

/// A video track that is added is listed in both catalogs as it was given: under a name that counts
/// the video tracks, with its codec, size, rates and init segment. It is created under that name.
/// Its keyframes are of type 1 exactly if it is H.264 or VP8, and else of type 2. The other tracks
/// stay as they are.
pub proof fn law_video_is_listed(
    p: BroadcastView,
    out: OutboxView,
    track: CmsfVideoTrack,
    now: Option<u64>,
)
    requires
        p.has_room(),
        p.add_video(out, track).2 is Ok,
        base64_bytes(base64_text(track.init_segment@)) == Ok::<_, Seq<char>>(track.init_segment@),
    ensures
        ({
            let (q, o, res) = p.add_video(out, track);
            let i = res->Ok_0.0 as int;
            let name = "video"@ + decimal(p.video_count as nat) + ".m4s"@;
            let e = q.msf_catalog(now).tracks[i];
            let t = q.tracks[i].state;
            &&& i == p.tracks.len()
            &&& q.tracks.len() == i + 1
            &&& forall|k: int| 0 <= k < i ==> #[trigger] q.tracks[k] == p.tracks[k]
            &&& q.video_count == p.video_count + 1
            &&& q.audio_count == p.audio_count
            &&& q.has_video_track
            &&& extends(out, o)
            &&& o.sent[out.sent.len() as int] == (ActionView::CreateTrack { track: t.track, name })
            &&& t.kind == TrackKind::Video
            &&& !t.open
            &&& t.timescale == track.timescale
            &&& t.alt_group == track.alt_group
            &&& !t.explicit_groups
            &&& t.last_timestamp is None
            &&& t.jitter is None
            &&& t.keyframe_sap == SapType::Type1 <==> (track.codec is H264 || track.codec is VP8)
            &&& t.keyframe_sap == SapType::Type2 <==> !(track.codec is H264 || track.codec is VP8)
            &&& e.name == name
            &&& e.role == Some(Role::Video)
            &&& e.packaging == Packaging::Cmaf
            &&& e.is_live
            &&& e.codec == Some(Codec::Video(track.codec@))
            &&& e.width == track.width
            &&& e.height == track.height
            &&& e.framerate == track.framerate
            &&& e.bitrate == track.bitrate
            &&& e.samplerate is None
            &&& e.channel_config is None
            &&& e.init_data matches Some(text)
            &&& base64_bytes(text) == Ok::<_, Seq<char>>(track.init_segment@)
            &&& e.render_group == Some(1u32)
            &&& e.alt_group == track.alt_group
            &&& q.hang_catalog().renditions[i] matches Rendition::Video(n, c)
            &&& n == name
            &&& c.codec == track.codec@
            &&& c.coded_width == track.width
            &&& c.coded_height == track.height
            &&& c.framerate == track.framerate
            &&& c.bitrate == track.bitrate
            &&& c.description == match track.description {
                Some(d) => Some(d@),
                None => None,
            }
            &&& c.container == (Container::Cmaf { init: track.init_segment@ })
        }),
{
}

/// An audio track that is added is listed in both catalogs as it was given: under a name that
/// counts the audio tracks, with its codec, sample rate, channels, bitrate and init segment. It is
/// created under that name. Its keyframes are of type 1. The other tracks stay as they are.
pub proof fn law_audio_is_listed(
    p: BroadcastView,
    out: OutboxView,
    track: CmsfAudioTrack,
    now: Option<u64>,
)
    requires
        p.has_room(),
        p.add_audio(out, track).2 is Ok,
        base64_bytes(base64_text(track.init_segment@)) == Ok::<_, Seq<char>>(track.init_segment@),
    ensures
        ({
            let (q, o, res) = p.add_audio(out, track);
            let i = res->Ok_0.0 as int;
            let name = "audio"@ + decimal(p.audio_count as nat) + ".m4s"@;
            let e = q.msf_catalog(now).tracks[i];
            let t = q.tracks[i].state;
            &&& i == p.tracks.len()
            &&& q.tracks.len() == i + 1
            &&& forall|k: int| 0 <= k < i ==> #[trigger] q.tracks[k] == p.tracks[k]
            &&& q.audio_count == p.audio_count + 1
            &&& q.video_count == p.video_count
            &&& q.has_video_track == p.has_video_track
            &&& extends(out, o)
            &&& o.sent[out.sent.len() as int] == (ActionView::CreateTrack { track: t.track, name })
            &&& t.kind == TrackKind::Audio
            &&& !t.open
            &&& t.timescale == track.timescale
            &&& t.alt_group == track.alt_group
            &&& !t.explicit_groups
            &&& t.last_timestamp is None
            &&& t.jitter is None
            &&& t.keyframe_sap == SapType::Type1
            &&& e.name == name
            &&& e.role == Some(Role::Audio)
            &&& e.packaging == Packaging::Cmaf
            &&& e.is_live
            &&& e.codec == Some(Codec::Audio(track.codec@))
            &&& e.samplerate == Some(track.sample_rate)
            &&& e.channel_config == Some(decimal(track.channel_count as nat))
            &&& e.bitrate == track.bitrate
            &&& e.width is None
            &&& e.height is None
            &&& e.framerate is None
            &&& e.init_data matches Some(text)
            &&& base64_bytes(text) == Ok::<_, Seq<char>>(track.init_segment@)
            &&& e.render_group == Some(1u32)
            &&& e.alt_group == track.alt_group
            &&& q.hang_catalog().renditions[i] matches Rendition::Audio(n, c)
            &&& n == name
            &&& c.codec == track.codec@
            &&& c.sample_rate == track.sample_rate
            &&& c.channel_count == track.channel_count
            &&& c.bitrate == track.bitrate
            &&& c.description == match track.description {
                Some(d) => Some(d@),
                None => None,
            }
            &&& c.container == (Container::Cmaf { init: track.init_segment@ })
        }),
{
}

/// A track is added wherever the transport takes it; where it does not, no track is, and nothing
/// else is asked for.
pub proof fn law_track_is_owed(
    p: BroadcastView,
    out: OutboxView,
    video: CmsfVideoTrack,
    audio: CmsfAudioTrack,
)
    ensures
        p.add_video(out, video).2 is Ok <==> !out.refuses(),
        p.add_audio(out, audio).2 is Ok <==> !out.refuses(),
        out.refuses() ==> p.add_video(out, video).0.tracks == p.tracks && p.add_video(
            out,
            video,
        ).1.sent.len() == out.sent.len() + 1,
        out.refuses() ==> p.add_audio(out, audio).0.tracks == p.tracks && p.add_audio(
            out,
            audio,
        ).1.sent.len() == out.sent.len() + 1,
{
}

/// Each catalog lists every track once, in their order; that of MSF says its version and when it
/// was made.
pub proof fn law_catalogs_list_all(p: BroadcastView, now: Option<u64>, i: int)
    requires
        0 <= i < p.tracks.len(),
    ensures
        p.msf_catalog(now).tracks.len() == p.tracks.len(),
        p.msf_catalog(now).tracks[i].name == p.tracks[i].name,
        p.msf_catalog(now).generated_at == now,
        p.msf_catalog(now).version == 1,
        p.hang_catalog().renditions.len() == p.tracks.len(),
        match p.hang_catalog().renditions[i] {
            Rendition::Video(name, _) => name == p.tracks[i].name && p.tracks[i].config is Video,
            Rendition::Audio(name, _) => name == p.tracks[i].name && p.tracks[i].config is Audio,
        },
{
}

/// Catalogs are published as they are: each in a group of its own, which is opened, written and
/// finished, on its own track.
pub proof fn law_catalogs_are_published(p: BroadcastView, out: OutboxView)
    requires
        !p.catalog_failed,
        forall|n: int| out.sent.len() <= n < out.refused.len() ==> !#[trigger] out.refused[n],
    ensures
        ({
            let (q, o) = p.publish(out);
            let msf = out.sent + seq![
                ActionView::EncodeMsf { catalog: p.msf_catalog(out.now) },
                ActionView::AppendGroup { track: p.msf_track },
                ActionView::WriteCatalog { track: p.msf_track },
                ActionView::FinishGroup { track: p.msf_track },
            ];
            &&& q == p
            &&& p.hang_track is None ==> o.sent == msf
            &&& p.hang_track matches Some(track) ==> o.sent == msf + seq![
                ActionView::EncodeHang { catalog: p.hang_catalog() },
                ActionView::AppendGroup { track },
                ActionView::WriteCatalog { track },
                ActionView::FinishGroup { track },
            ]
        }),
{
    let (q, o) = p.publish(out);
    let msf = out.sent + seq![
        ActionView::EncodeMsf { catalog: p.msf_catalog(out.now) },
        ActionView::AppendGroup { track: p.msf_track },
        ActionView::WriteCatalog { track: p.msf_track },
        ActionView::FinishGroup { track: p.msf_track },
    ];
    match p.hang_track {
        None => {
            assert(o.sent =~= msf);
        },
        Some(track) => {
            assert(o.sent =~= msf + seq![
                ActionView::EncodeHang { catalog: p.hang_catalog() },
                ActionView::AppendGroup { track },
                ActionView::WriteCatalog { track },
                ActionView::FinishGroup { track },
            ]);
        },
    }
}

/// Where an object raises an access point of its track, the catalogs are due; where it raises none
/// they are due only if they were.
pub proof fn law_raised_access_point_is_due(
    t: TrackState,
    out: OutboxView,
    meta: CmsfMetadata,
    data: Seq<u8>,
)
    requires
        meta.is_keyframe,
        t.keyframe_sap == SapType::Type1 || t.keyframe_sap == SapType::Type2,
        t.write_leading(out, meta, data, None).2 is Ok,
    ensures
        ({
            let s = t.write_leading(out, meta, data, None).0;
            let raised = s.max_grp_sap != t.max_grp_sap || s.max_obj_sap != t.max_obj_sap;
            &&& s.sap_dirty <==> t.sap_dirty || raised
            &&& s.max_grp_sap.rank() >= t.keyframe_sap.rank()
            &&& s.max_obj_sap.rank() >= t.keyframe_sap.rank()
        }),
{
}

/// Catalogs that are due are published with what is now known, before anything else; and then they
/// are no longer due. Where they are not due, and the jitter did not fall, an object that is no
/// keyframe of the video asks for nothing more.
pub proof fn law_due_catalogs_are_published(
    p: BroadcastView,
    out: OutboxView,
    i: int,
    meta: CmsfMetadata,
    jitter: bool,
)
    requires
        0 <= i < p.tracks.len(),
        !p.catalog_failed,
    ensures
        ({
            let (q, o, res) = p.led(out, i, meta, jitter);
            let t = p.tracks[i].state;
            let due = t.sap_dirty || (jitter && t.jitter is Some);
            &&& due && (t.kind == TrackKind::Audio || !meta.is_keyframe) ==> {
                &&& o.sent.len() > out.sent.len()
                &&& o.sent[out.sent.len() as int] matches ActionView::EncodeMsf { catalog }
                &&& catalog.tracks == p.msf_catalog(out.now).tracks
                &&& catalog.generated_at == out.now
            }
            &&& !due && (t.kind == TrackKind::Audio || !meta.is_keyframe) ==> o == out && res is Ok
            &&& t.kind == TrackKind::Audio || !meta.is_keyframe ==> !q.tracks[i].state.sap_dirty
        }),
{
    let t = p.tracks[i].state;
    let clean = p.with_state(i, TrackState { sap_dirty: false, ..t });
    assert(clean.msf_catalog(out.now).tracks =~= p.msf_catalog(out.now).tracks);
}

/// The jitter of a track in milliseconds is the least distance of its frames, in whole
/// milliseconds: a thousandth more would be too much.
pub proof fn law_jitter_is_in_milliseconds(t: TrackState, jitter: u64)
    requires
        t.jitter == Some(jitter),
        t.timescale > 0,
        jitter < 0x1_0000_0000_0000,
    ensures
        t.jitter_ms() matches Some(ms) && ms * t.timescale <= jitter * 1000 && jitter * 1000 < (ms
            + 1) * t.timescale,
{
    let n = jitter as int * 1000;
    let d = t.timescale as int;
    let q = n / d;
    assert(q * d <= n && n < (q + 1) * d) by (nonlinear_arith)
        requires
            q == n / d,
            d > 0,
            n >= 0,
    ;
    assert(0 <= q <= n) by (nonlinear_arith)
        requires
            q == n / d,
            d > 0,
            n >= 0,
    ;
    assert(jitter as nat * 1000 / t.timescale as nat == q);
}

/// A track without frames at a distance, or whose time is not counted, has no jitter.
pub proof fn law_no_jitter(t: TrackState)
    ensures
        t.jitter is None || t.timescale == 0 ==> t.jitter_ms() is None,
{
}

/// A broadcast without media lists nothing, and its catalogs have the first numbers: that of hang
/// comes second, where it is published.
pub proof fn law_fresh_broadcast(publish_hang: bool, now: Option<u64>)
    ensures
        ({
            let p = BroadcastView::fresh(publish_hang);
            &&& p.msf_catalog(now).tracks.len() == 0
            &&& p.hang_catalog().renditions.len() == 0
            &&& p.msf_track == 0
            &&& p.hang_track is Some <==> publish_hang
            &&& publish_hang ==> p.hang_track == Some(1usize)
            &&& p.tracks.len() == 0
            &&& p.audio_buffer.len() == 0
            &&& !p.first_video_group && !p.has_video_track && !p.catalog_failed
            &&& p.video_count == 0 && p.audio_count == 0
            &&& p.has_room()
        }),
{
}

} // verus!
