//! What holds of every file that is imported as a broadcast, and of every broadcast that is read.

use crate::mux::base64::{base64_bytes, base64_text};
use crate::mux::broadcast_demux::{
    add_track, add_tracks, is_read, kept, listed, poll_tracks, BroadcastDemuxView, EntryView,
};
use crate::mux::catalog::{MsfCatalogView, MsfTrack, Packaging};
use crate::mux::cmsf::{metadata, timescale_of, CmsfErrorView, CmsfMetadata};
use crate::mux::cmsf_fmp4::{video_sap, CmsfFmp4Consumer, CmsfImport};
use crate::mux::codec::VideoCodec;
use crate::mux::config::{audio_of, video_of};
use crate::mux::consumer::{Polled, TrackConsumerView};
use crate::mux::demux::{init_of_track, DemuxView, MALFORMED_LIMIT};
use crate::mux::fragment::FragmentView;
use crate::mux::init::init_segment;
use crate::mux::mp4::MoovView;
use crate::mux::outbox::{ActionView, OutboxView};
use crate::mux::parser::{init_all, kind_of, Fmp4Sink, ImportErrorView};
use crate::mux::types::{MuxErrorView, SapType, TrackKind};
use vstd::prelude::*;

verus! {

/// A keyframe of H.264 or VP8 is an access point of type 1, and that of any other codec one of
/// type 2.
pub proof fn law_access_point_of_codec(codec: VideoCodec<Seq<char>>)
    ensures
        video_sap(codec) == SapType::Type1 <==> codec is H264 || codec is VP8,
        video_sap(codec) == SapType::Type2 <==> !(codec is H264 || codec is VP8),
{
}

/// A video track of a file becomes a track of the broadcast, as it is described, with its own init
/// segment and timescale, in the group of the video tracks that can be switched between; its
/// identifier leads to it.
pub proof fn law_video_is_imported(
    c: CmsfImport,
    out: OutboxView,
    raw: Seq<u8>,
    moov: MoovView,
    index: nat,
)
    requires
        index < moov.trak.len(),
        c.init(out, TrackKind::Video, raw, moov, index).2 is Ok,
    ensures
        ({
            let (d, o, _res) = c.init(out, TrackKind::Video, raw, moov, index);
            let trak = moov.trak[index as int];
            let v = video_of(raw, index)->Ok_0;
            let t = d.producer.tracks.last();
            &&& video_of(raw, index) is Ok
            &&& init_segment(raw, moov, index) is Ok
            &&& d.producer.tracks.len() == c.producer.tracks.len() + 1
            &&& d.producer.tracks.drop_last() == c.producer.tracks
            &&& d.track_map.contains_key(trak.track_id)
            &&& d.track_map[trak.track_id].0 == c.producer.tracks.len() as usize
            &&& forall|id: u32|
                id != trak.track_id ==> (d.track_map.contains_key(id) <==> c.track_map.contains_key(
                    id,
                )) && #[trigger] d.track_map[id] == c.track_map[id]
            &&& t.state.kind == TrackKind::Video
            &&& t.state.timescale == trak.timescale
            &&& t.state.alt_group == Some(1u32)
            &&& t.state.keyframe_sap == SapType::Type1 <==> v.codec is H264 || v.codec is VP8
            &&& t.state.keyframe_sap == SapType::Type2 <==> !(v.codec is H264 || v.codec is VP8)
            &&& t.config is Video
            &&& t.config->Video_codec == v.codec
            &&& t.config->Video_description == v.description
            &&& t.config->width == Some(v.width)
            &&& t.config->height == Some(v.height)
            &&& t.config->Video_bitrate is None
            &&& t.config->framerate is None
            &&& t.config->Video_init_data == base64_text(init_segment(raw, moov, index)->Ok_0)
        }),
{
    let (d, o, _res) = c.init(out, TrackKind::Video, raw, moov, index);
    assert(d.producer.tracks.drop_last() =~= c.producer.tracks);
}

/// An audio track of a file becomes a track of the broadcast, as it is described, with its own init
/// segment and timescale, in the group of the audio tracks that can be switched between; its
/// identifier leads to it.
pub proof fn law_audio_is_imported(
    c: CmsfImport,
    out: OutboxView,
    raw: Seq<u8>,
    moov: MoovView,
    index: nat,
)
    requires
        index < moov.trak.len(),
        c.init(out, TrackKind::Audio, raw, moov, index).2 is Ok,
    ensures
        ({
            let (d, o, _res) = c.init(out, TrackKind::Audio, raw, moov, index);
            let trak = moov.trak[index as int];
            let a = audio_of(raw, index)->Ok_0;
            let t = d.producer.tracks.last();
            &&& audio_of(raw, index) is Ok
            &&& init_segment(raw, moov, index) is Ok
            &&& d.producer.tracks.len() == c.producer.tracks.len() + 1
            &&& d.producer.tracks.drop_last() == c.producer.tracks
            &&& d.track_map.contains_key(trak.track_id)
            &&& d.track_map[trak.track_id].0 == c.producer.tracks.len() as usize
            &&& t.state.kind == TrackKind::Audio
            &&& t.state.timescale == trak.timescale
            &&& t.state.alt_group == Some(2u32)
            &&& t.state.keyframe_sap == SapType::Type1
            &&& t.config is Audio
            &&& t.config->Audio_codec == a.codec
            &&& t.config->Audio_description == a.description
            &&& t.config->sample_rate == a.sample_rate
            &&& t.config->channel_count == a.channel_count
            &&& t.config->Audio_bitrate == a.bitrate
            &&& t.config->Audio_init_data == base64_text(init_segment(raw, moov, index)->Ok_0)
        }),
{
    let (d, o, _res) = c.init(out, TrackKind::Audio, raw, moov, index);
    assert(d.producer.tracks.drop_last() =~= c.producer.tracks);
}

/// A track whose description and init segment can be had is imported, where there is room and the
/// transport does not refuse it.
pub proof fn law_import_is_owed(
    c: CmsfImport,
    out: OutboxView,
    kind: TrackKind,
    raw: Seq<u8>,
    moov: MoovView,
    index: nat,
)
    ensures
        c.init(out, kind, raw, moov, index).2 is Ok <==> {
            &&& init_segment(raw, moov, index) is Ok
            &&& kind == TrackKind::Video ==> video_of(raw, index) is Ok
            &&& kind == TrackKind::Audio ==> audio_of(raw, index) is Ok
            &&& c.producer.has_room()
            &&& !out.refuses()
        },
{
}

/// A fragment of a track that was not announced is refused, and one that says nothing of its times
/// too; neither changes anything.
pub proof fn law_strange_fragments_are_refused(c: CmsfImport, out: OutboxView, f: FragmentView)
    ensures
        !c.track_map.contains_key(f.track_id) ==> c.fragment(out, f) == (
            c,
            out,
            Err::<(), _>(ImportErrorView::UnknownTrack),
        ),
        c.track_map.contains_key(f.track_id) && metadata(f.data) is Err ==> c.fragment(out, f) == (
            c,
            out,
            Err::<(), _>(ImportErrorView::Mux(MuxErrorView::Cmsf(metadata(f.data)->Err_0))),
        ),
{
}

/// A fragment is written to the track that its identifier leads to, whole, with its own times, and
/// to no group that the caller chose; the identifiers lead where they did.
pub proof fn law_fragment_goes_to_its_track(c: CmsfImport, out: OutboxView, f: FragmentView)
    requires
        c.track_map.contains_key(f.track_id),
        metadata(f.data) is Ok,
    ensures
        ({
            let (d, o, res) = c.fragment(out, f);
            let (p, w, r) = c.producer.write(
                out,
                c.track_map[f.track_id],
                f.data,
                None,
                metadata(f.data)->Ok_0,
            );
            &&& d.producer == p
            &&& o == w
            &&& d.track_map == c.track_map
            &&& res is Ok <==> r is Ok
            &&& res is Err ==> res->Err_0 == ImportErrorView::Mux(r->Err_0)
        }),
{
}

/// A demuxer that has read nothing has no group, no malformed frame and no end.
pub proof fn law_fresh_demuxer(track: TrackConsumerView<Vec<u8>>, init: Seq<u8>, timescale: u64)
    ensures
        ({
            let d = DemuxView::fresh(track, init, timescale);
            &&& d.track == track
            &&& d.init_data == init
            &&& d.timescale == timescale
            &&& d.current_group is None
            &&& d.end_reason is None
            &&& d.malformed_count == 0
        }),
        MALFORMED_LIMIT == 100,
{
}

/// A segment is the frame as it came, with the name and the timescale of its track, the number of
/// its group, and the times that the frame says.
pub proof fn law_segment_is_the_frame(d: DemuxView, group: u64, data: Seq<u8>, meta: CmsfMetadata)
    ensures
        ({
            let s = d.segment(group, data, meta);
            &&& s.track_name == d.track.name
            &&& s.group_id == group
            &&& s.media_data == data
            &&& s.pts == meta.pts
            &&& s.duration == meta.duration
            &&& s.timescale == d.timescale
            &&& s.is_keyframe == meta.is_keyframe
        }),
{
}

/// The init segment of a track is what its catalog entry says in base64, and the timescale is that
/// of the init segment; each reason why there is none is told.
pub proof fn law_init_of_entry(init_data: Option<Seq<char>>)
    ensures
        init_data is None ==> init_of_track(init_data) == Err::<(Seq<u8>, u64), _>(
            CmsfErrorView::MissingInitData,
        ),
        init_data is Some && base64_bytes(init_data->Some_0) is Err ==> init_of_track(init_data)
            == Err::<(Seq<u8>, u64), _>(
            CmsfErrorView::Base64(base64_bytes(init_data->Some_0)->Err_0),
        ),
        init_data is Some && base64_bytes(init_data->Some_0) is Ok ==> {
            let init = base64_bytes(init_data->Some_0)->Ok_0;
            &&& timescale_of(init) is Ok ==> init_of_track(init_data) == Ok::<_, CmsfErrorView>(
                (init, timescale_of(init)->Ok_0),
            )
            &&& timescale_of(init) is Err ==> init_of_track(init_data) == Err::<(Seq<u8>, u64), _>(
                timescale_of(init)->Err_0,
            )
        },
{
}

/// A track of the catalog is subscribed to exactly if it is CMAF, is not read yet, and has an init
/// segment that can be read; it is then read from its beginning, unless the transport refuses.
pub proof fn law_listed_track_is_subscribed(
    tracks: Seq<EntryView>,
    out: OutboxView,
    t: MsfTrack<Seq<char>>,
)
    ensures
        ({
            let (u, o) = add_track(tracks, out, t);
            let wanted = t.packaging == Packaging::Cmaf && !is_read(tracks, t.name)
                && init_of_track(t.init_data) is Ok;
            &&& !wanted ==> u == tracks && o == out
            &&& wanted ==> o.sent == out.sent.push(ActionView::Subscribe { name: t.name })
            &&& wanted && out.refuses() ==> u == tracks
            &&& wanted && !out.refuses() ==> {
                let e = u.last();
                &&& u.len() == tracks.len() + 1
                &&& u.drop_last() == tracks
                &&& e.active
                &&& e.demuxer.track.name == t.name
                &&& e.demuxer.track.groups.len() == 0
                &&& e.demuxer.init_data == init_of_track(t.init_data)->Ok_0.0
                &&& e.demuxer.timescale == init_of_track(t.init_data)->Ok_0.1
                &&& e.demuxer.current_group is None
                &&& e.demuxer.end_reason is None
                &&& e.demuxer.malformed_count == 0
            }
        }),
{
    let (u, o) = add_track(tracks, out, t);
    if u.len() == tracks.len() + 1 {
        assert(u.drop_last() =~= tracks);
    }
}

/// Whether a track gives a segment when it is polled.
pub open spec fn gives(t: EntryView) -> bool {
    &&& t.active
    &&& t.demuxer.poll().1 matches Polled::Ready(Ok(Some(_)))
}

/// What a track is after it was polled: it stays active exactly if it gave a segment or waits.
pub open spec fn after_poll(t: EntryView, u: EntryView) -> bool {
    if t.active {
        &&& u.demuxer == t.demuxer.poll().0
        &&& u.active <==> gives(t) || t.demuxer.poll().1 is Pending
    } else {
        u == t
    }
}

/// The segment that a broadcast gives is that of the first of its tracks that has one: the tracks
/// up to it were polled, once each, and those behind it were not. If none has one, all were.
pub proof fn law_first_track_with_a_segment(tracks: Seq<EntryView>, i: nat)
    requires
        i <= tracks.len(),
    ensures
        ({
            let (u, found) = poll_tracks(tracks, i);
            &&& u.len() == tracks.len()
            &&& forall|j: int| 0 <= j < i ==> #[trigger] u[j] == tracks[j]
            &&& found is None ==> forall|j: int|
                i <= j < tracks.len() ==> !gives(#[trigger] tracks[j]) && after_poll(
                    tracks[j],
                    u[j],
                )
            &&& found is Some ==> exists|k: int|
                {
                    &&& i <= k < tracks.len()
                    &&& #[trigger] gives(tracks[k])
                    &&& tracks[k].demuxer.poll().1 == Polled::Ready(found->Some_0)
                    &&& after_poll(tracks[k], u[k])
                    &&& forall|j: int|
                        i <= j < k ==> !gives(#[trigger] tracks[j]) && after_poll(tracks[j], u[j])
                    &&& forall|j: int| k < j < tracks.len() ==> #[trigger] u[j] == tracks[j]
                }
        }),
    decreases tracks.len() - i,
{
    if i < tracks.len() {
        let t = tracks[i as int];
        let (u, found) = poll_tracks(tracks, i);
        if !t.active {
            law_first_track_with_a_segment(tracks, i + 1);
            if found is Some {
                let k = choose|k: int|
                    {
                        &&& i + 1 <= k < tracks.len()
                        &&& #[trigger] gives(tracks[k])
                        &&& tracks[k].demuxer.poll().1 == Polled::Ready(found->Some_0)
                        &&& after_poll(tracks[k], u[k])
                        &&& forall|j: int|
                            i + 1 <= j < k ==> !gives(#[trigger] tracks[j]) && after_poll(
                                tracks[j],
                                u[j],
                            )
                        &&& forall|j: int| k < j < tracks.len() ==> #[trigger] u[j] == tracks[j]
                    };
                assert(gives(tracks[k]));
            }
        } else {
            let (demuxer, res) = t.demuxer.poll();
            match res {
                Polled::Ready(Ok(Some(_))) => {
                    assert(gives(tracks[i as int]));
                },
                _ => {
                    let next = tracks.update(
                        i as int,
                        EntryView { demuxer, active: res is Pending },
                    );
                    law_first_track_with_a_segment(next, i + 1);
                    assert(u[i as int] == next[i as int]);
                    assert forall|j: int| 0 <= j < i implies #[trigger] u[j] == tracks[j] by {
                        assert(u[j] == next[j]);
                    }
                    if found is None {
                        assert forall|j: int| i <= j < tracks.len() implies !gives(
                            #[trigger] tracks[j],
                        ) && after_poll(tracks[j], u[j]) by {
                            if j > i {
                                assert(next[j] == tracks[j]);
                            }
                        }
                    } else {
                        let k = choose|k: int|
                            {
                                &&& i + 1 <= k < next.len()
                                &&& #[trigger] gives(next[k])
                                &&& next[k].demuxer.poll().1 == Polled::Ready(found->Some_0)
                                &&& after_poll(next[k], u[k])
                                &&& forall|j: int|
                                    i + 1 <= j < k ==> !gives(#[trigger] next[j]) && after_poll(
                                        next[j],
                                        u[j],
                                    )
                                &&& forall|j: int| k < j < next.len() ==> #[trigger] u[j] == next[j]
                            };
                        assert(next[k] == tracks[k]);
                        assert(gives(tracks[k]));
                        assert forall|j: int| i <= j < k implies !gives(#[trigger] tracks[j])
                            && after_poll(tracks[j], u[j]) by {
                            if j > i {
                                assert(next[j] == tracks[j]);
                            }
                        }
                        assert forall|j: int| k < j < tracks.len() implies #[trigger] u[j]
                            == tracks[j] by {
                            assert(u[j] == next[j]);
                        }
                    }
                },
            }
        }
    }
}

/// A broadcast has ended exactly if its catalog is closed and none of its tracks goes on; as long
/// as one does, or the catalog may still come, it waits. A catalog that is closed is not read
/// again.
pub proof fn law_when_a_broadcast_ends(s: BroadcastDemuxView, out: OutboxView)
    ensures
        ({
            let (t, o, res) = s.poll(out);
            &&& s.catalog_closed ==> t.catalog_closed && o == out && t.catalog_track
                == s.catalog_track && t.catalog_group == s.catalog_group
            &&& (res matches Polled::Ready(Ok(None))) ==> t.catalog_closed && forall|j: int|
                0 <= j < t.tracks.len() ==> !(#[trigger] t.tracks[j]).active
            &&& res is Pending ==> !t.catalog_closed || exists|j: int|
                0 <= j < t.tracks.len() && (#[trigger] t.tracks[j]).active
            &&& !(res matches Polled::Ready(Err(_)))
        }),
{
    let (r, o) = s.refresh(out);
    law_first_track_with_a_segment(r.tracks, 0);
}

/// A broadcast is ready once it reads a track. The first catalog that leads to none, or that ends,
/// is reported as that; one that cannot be read with the reason.
pub proof fn law_when_a_broadcast_is_ready(s: BroadcastDemuxView, out: OutboxView)
    ensures
        ({
            let (t, o, res) = s.poll_ready(out);
            let (c, catalog) = s.poll_catalog();
            &&& (res matches Polled::Ready(Ok(()))) ==> t.tracks.len() > 0
            &&& s.tracks.len() > 0 ==> t == s && o == out && res == Polled::Ready(
                Ok::<(), CmsfErrorView>(()),
            )
            &&& s.tracks.len() == 0 && catalog is Pending ==> res is Pending && o == out
            &&& s.tracks.len() == 0 && (catalog matches Polled::Ready(Ok(None))) ==> {
                &&& t.catalog_closed
                &&& o == out
                &&& res == Polled::Ready(Err::<(), _>(CmsfErrorView::NoTracks))
            }
            &&& s.tracks.len() == 0 && (catalog is Ready && catalog->Ready_0 is Err) ==> {
                &&& o == out
                &&& res == Polled::Ready(Err::<(), _>(catalog->Ready_0->Err_0))
            }
            &&& s.tracks.len() == 0 && (catalog is Ready && catalog->Ready_0 is Ok
                && catalog->Ready_0->Ok_0 is Some) ==> {
                let told = catalog->Ready_0->Ok_0->Some_0;
                &&& t == c.apply(out, told).0
                &&& o == c.apply(out, told).1
                &&& t.tracks.len() == 0 ==> res == Polled::Ready(
                    Err::<(), _>(CmsfErrorView::NoTracks),
                )
            }
        }),
{
}

/// A catalog is the first frame of the newest group, once that is there: it is read once, what
/// makes it none is told, and a group without a frame is left.
pub proof fn law_catalog_is_the_first_frame(s: BroadcastDemuxView)
    requires
        s.newest().1 is None,
    ensures
        ({
            let (n, _e) = s.newest();
            let (t, res) = s.poll_catalog();
            let frames = n.catalog_group->Some_0.frames;
            &&& n.catalog_group is None ==> res is Pending && t == n
            &&& n.catalog_group is Some && frames.len() == 0 ==> res is Pending && t == n
            &&& n.catalog_group is Some && frames.len() > 0 ==> {
                &&& t.catalog_group is None
                &&& t.tracks == n.tracks
                &&& t.catalog_track == n.catalog_track
                &&& match frames[0] {
                    Ok(Some(Ok(catalog))) => res == Polled::Ready(
                        Ok::<_, CmsfErrorView>(Some(catalog@)),
                    ),
                    Ok(Some(Err(e))) => res is Ready && res->Ready_0 is Err && res->Ready_0->Err_0
                        == CmsfErrorView::CatalogParse(e@),
                    Ok(None) => res is Pending,
                    Err(e) => res is Ready && res->Ready_0 is Err && res->Ready_0->Err_0
                        == CmsfErrorView::Moq(e),
                }
            }
        }),
{
}

/// A catalog that is read takes effect, one that ends or fails closes the catalog, and while none
/// has come the tracks stay as they are.
pub proof fn law_catalog_is_refreshed(s: BroadcastDemuxView, out: OutboxView)
    requires
        !s.catalog_closed,
    ensures
        ({
            let (t, res) = s.poll_catalog();
            let (r, o) = s.refresh(out);
            &&& res is Pending ==> r == t && o == out
            &&& res is Ready && res->Ready_0 is Ok && res->Ready_0->Ok_0 is Some ==> (r, o)
                == t.apply(out, res->Ready_0->Ok_0->Some_0)
            &&& res is Ready && (res->Ready_0 is Err || res->Ready_0->Ok_0 is None) ==> {
                &&& r.catalog_closed
                &&& r.tracks == t.tracks
                &&& o == out
            }
        }),
{
}

/// The end of the catalog waits for a catalog that came before it: as long as a group is there to
/// be read, the search for the newest does not end with the end of the track.
pub proof fn law_end_waits_for_the_last_catalog(s: BroadcastDemuxView)
    ensures
        ({
            let (t, ended) = s.newest();
            &&& s.catalog_group is Some ==> t.catalog_group is Some
            &&& ended is Some && ended->Some_0 is Ok ==> t.catalog_group is None
            &&& ended is Some && ended->Some_0 is Ok ==> ended->Some_0->Ok_0 is None
            &&& t.tracks == s.tracks
            &&& t.catalog_closed == s.catalog_closed
            &&& ended is None ==> t.catalog_track.groups.len() == 0
                || t.catalog_track.groups[0] matches Ok(None)
        }),
    decreases s.catalog_track.groups.len(),
{
    let groups = s.catalog_track.groups;
    if groups.len() > 0 {
        if let Ok(Some(g)) = groups[0] {
            let rest = BroadcastDemuxView {
                catalog_track: TrackConsumerView {
                    groups: groups.drop_first(),
                    ..s.catalog_track
                },
                ..s
            };
            law_end_waits_for_the_last_catalog(
                BroadcastDemuxView { catalog_group: Some(g), ..rest },
            );
        }
    }
}

/// Once all tracks of a file are announced, the broadcast has one more track for each, and every
/// identifier leads to one.
pub proof fn law_all_tracks_are_imported(
    c: CmsfImport,
    out: OutboxView,
    raw: Seq<u8>,
    moov: MoovView,
    i: nat,
)
    requires
        i <= moov.trak.len(),
        init_all::<CmsfFmp4Consumer>(c, out, raw, moov, i).2 is Ok,
    ensures
        ({
            let (d, _o, _res) = init_all::<CmsfFmp4Consumer>(c, out, raw, moov, i);
            &&& d.producer.tracks.len() == c.producer.tracks.len() + moov.trak.len() - i
            &&& forall|id: u32| #[trigger]
                c.track_map.contains_key(id) ==> d.track_map.contains_key(id)
            &&& forall|j: int|
                i <= j < moov.trak.len() ==> d.track_map.contains_key(
                    (#[trigger] moov.trak[j]).track_id,
                )
        }),
    decreases moov.trak.len() - i,
{
    if i < moov.trak.len() {
        let kind = kind_of(moov.trak[i as int].handler)->Ok_0;
        assert(<CmsfFmp4Consumer as Fmp4Sink>::inits(c, out, kind, raw, moov, i) == c.init(
            out,
            kind,
            raw,
            moov,
            i,
        ));
        let (d, o, res) = c.init(out, kind, raw, moov, i);
        match kind {
            TrackKind::Video => law_video_is_imported(c, out, raw, moov, i),
            TrackKind::Audio => law_audio_is_imported(c, out, raw, moov, i),
        }
        assert forall|id: u32| #[trigger] c.track_map.contains_key(id) implies d.track_map.contains_key(
            id,
        ) by {}
        law_all_tracks_are_imported(d, o, raw, moov, i + 1);
        assert(d.track_map.contains_key(moov.trak[i as int].track_id));
    }
}

/// Subscribing to a track goes on reading those that are read.
proof fn lemma_still_read(tracks: Seq<EntryView>, out: OutboxView, t: MsfTrack<Seq<char>>, name: Seq<char>)
    ensures
        is_read(tracks, name) ==> is_read(add_track(tracks, out, t).0, name),
{
    let (u, o) = add_track(tracks, out, t);
    if is_read(tracks, name) {
        let i = choose|i: int|
            0 <= i < tracks.len() && (#[trigger] tracks[i]).active
                && tracks[i].demuxer.track.name == name;
        assert(u[i] == tracks[i]);
    }
}

/// Once a catalog has taken effect, every track is read that it lists as CMAF with an init segment
/// that can be read, wherever the transport refuses nothing; and those that were read still are.
pub proof fn law_all_listed_are_read(
    tracks: Seq<EntryView>,
    out: OutboxView,
    catalog: Seq<MsfTrack<Seq<char>>>,
    i: nat,
    name: Seq<char>,
)
    requires
        i <= catalog.len(),
        forall|n: int| out.sent.len() <= n < out.refused.len() ==> !(#[trigger] out.refused[n]),
    ensures
        is_read(tracks, name) ==> is_read(add_tracks(tracks, out, catalog, i).0, name),
        (exists|j: int|
            i <= j < catalog.len() && (#[trigger] catalog[j]).name == name && catalog[j].packaging
                == Packaging::Cmaf && init_of_track(catalog[j].init_data) is Ok) ==> is_read(
            add_tracks(tracks, out, catalog, i).0,
            name,
        ),
    decreases catalog.len() - i,
{
    if i < catalog.len() {
        let t = catalog[i as int];
        let (u, o) = add_track(tracks, out, t);
        lemma_still_read(tracks, out, t, name);
        law_all_listed_are_read(u, o, catalog, i + 1, name);
        if t.name == name && t.packaging == Packaging::Cmaf && init_of_track(t.init_data) is Ok {
            if !is_read(tracks, name) {
                assert(!out.refuses());
                assert(u[tracks.len() as int].active);
            }
            assert(is_read(u, name));
        }
        if exists|j: int|
            i <= j < catalog.len() && (#[trigger] catalog[j]).name == name && catalog[j].packaging
                == Packaging::Cmaf && init_of_track(catalog[j].init_data) is Ok {
            let j = choose|j: int|
                i <= j < catalog.len() && (#[trigger] catalog[j]).name == name
                    && catalog[j].packaging == Packaging::Cmaf && init_of_track(
                    catalog[j].init_data,
                ) is Ok;
            if j > i {
                assert(catalog[j].name == name);
            }
        }
    }
}

/// A catalog takes effect on all tracks: of those that are read, those that it lists go on, and
/// then all that it lists are subscribed to, from the first to the last.
pub proof fn law_catalog_takes_effect(
    s: BroadcastDemuxView,
    out: OutboxView,
    catalog: MsfCatalogView,
    t: EntryView,
)
    ensures
        ({
            let keeps = kept(s.tracks, catalog.tracks);
            let (r, o) = s.apply(out, catalog);
            &&& (r.tracks, o) == add_tracks(keeps, out, catalog.tracks, 0)
            &&& keeps.contains(t) <==> s.tracks.contains(t) && t.active && exists|i: int|
                0 <= i < catalog.tracks.len() && (#[trigger] catalog.tracks[i]).name
                    == t.demuxer.track.name
            &&& r.catalog_track == s.catalog_track
            &&& r.catalog_group == s.catalog_group
            &&& r.catalog_closed == s.catalog_closed
        }),
{
    let keep = |t: EntryView| t.active && listed(catalog.tracks, t.demuxer.track.name);
    let keeps = kept(s.tracks, catalog.tracks);
    if keeps.contains(t) {
        s.tracks.lemma_filter_contains_rev(keep, t);
        let i = choose|i: int| 0 <= i < keeps.len() && keeps[i] == t;
        s.tracks.lemma_filter_pred(keep, i);
    }
    if s.tracks.contains(t) && keep(t) {
        let i = choose|i: int| 0 <= i < s.tracks.len() && s.tracks[i] == t;
        s.tracks.lemma_filter_contains(keep, i);
    }
}

} // verus!
