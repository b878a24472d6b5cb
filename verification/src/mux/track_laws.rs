//! What holds of every track of a broadcast, step by step.

use crate::mux::broadcast::BroadcastView;
use crate::mux::cmsf::CmsfMetadata;
use crate::mux::group_laws::{extends, lemma_led_extends, lemma_told_extends};
use crate::mux::import_laws::grants;
use crate::mux::outbox::{ActionView, OutboxView};
use crate::mux::types::{
    keyframe_sap, msf_value, CmsfTrackConfig, MuxErrorView, SapType, TrackId, TrackKind, TrackState,
};
use vstd::prelude::*;

verus! {

/// The types of access points are told by their numbers, and no access point by none; a group may
/// start at the first two, and the higher of two is the one with the higher number.
pub proof fn law_access_point_types(a: SapType, b: SapType)
    ensures
        a.is_keyframe_spec() <==> msf_value(a) == Some(1u32) || msf_value(a) == Some(2u32),
        msf_value(a) is None <==> a == SapType::NoSap,
        msf_value(SapType::Type1) == Some(1u32),
        msf_value(SapType::Type2) == Some(2u32),
        msf_value(SapType::Type3) == Some(3u32),
        a.higher_spec(b) == a || a.higher_spec(b) == b,
        a.higher_spec(b) == b.higher_spec(a),
        a.higher_spec(SapType::NoSap) == a,
        a == SapType::Type3 ==> a.higher_spec(b) == a,
        a == SapType::Type2 && b == SapType::Type1 ==> a.higher_spec(b) == a,
{
}

/// The keyframes of sound, H.264 and VP8 start anew, and those of any other codec may not.
pub proof fn law_keyframe_of_track(kind: TrackKind, config: CmsfTrackConfig)
    ensures
        keyframe_sap(TrackKind::Audio, config) == SapType::Type1,
        config is Video && kind == TrackKind::Video ==> (keyframe_sap(kind, config)
            == SapType::Type1 <==> config->Video_codec is H264 || config->Video_codec is VP8),
        keyframe_sap(kind, config) == SapType::Type1 || keyframe_sap(kind, config)
            == SapType::Type2,
{
}

/// A group is started with the number that it is given, or with the next one: the open one is
/// finished first. If the transport refuses anything, none is open afterwards.
pub proof fn law_group_is_started(t: TrackState, out: OutboxView, id: Option<u64>)
    ensures
        ({
            let (s, o, res) = t.start_group(out, id);
            let start = match id {
                Some(sequence) => ActionView::CreateGroup { track: t.track, sequence },
                None => ActionView::AppendGroup { track: t.track },
            };
            &&& grants(out, 2) ==> res is Ok
            &&& res is Ok ==> s.open && s.media_group_id == id
            &&& res is Ok && t.open ==> o.sent == out.sent.push(
                ActionView::FinishGroup { track: t.track },
            ).push(start)
            &&& res is Ok && !t.open ==> o.sent == out.sent.push(start)
            &&& res is Err ==> !s.open && s.media_group_id == t.media_group_id
            &&& s == (TrackState { open: s.open, media_group_id: s.media_group_id, ..t })
        }),
{
    let n = out.sent.len() as int;
    if grants(out, 2) {
        assert(n < out.refused.len() ==> !out.refused[n]);
        assert(n + 1 < out.refused.len() ==> !out.refused[n + 1]);
    }
}

/// A fragment is written to the open group as it is; without one it is refused, and nothing is
/// asked for.
pub proof fn law_fragment_is_written(t: TrackState, out: OutboxView, data: Seq<u8>)
    ensures
        !t.open ==> t.write_fragment(out, data) == (out, Err::<(), _>(MuxErrorView::NoOpenGroup)),
        t.open ==> t.write_fragment(out, data).0.sent == out.sent.push(
            ActionView::WriteFrame { track: t.track, data },
        ),
        t.open ==> (t.write_fragment(out, data).1 is Ok <==> !out.refuses()),
{
}

/// A group starts only at an access point of the first two types; the catalogs are due exactly if
/// that is higher than any before it. Nothing else of the track changes.
pub proof fn law_where_a_group_starts(t: TrackState, sap: SapType)
    ensures
        ({
            let (s, res) = t.validate_group_sap(sap);
            let can = sap == SapType::Type1 || sap == SapType::Type2;
            &&& res is Ok <==> can
            &&& !can ==> s == t && res == Err::<(), _>(MuxErrorView::InvalidGroupStart(sap))
            &&& can ==> s == (TrackState {
                max_grp_sap: s.max_grp_sap,
                sap_dirty: s.sap_dirty,
                ..t
            })
            &&& can ==> s.max_grp_sap.rank() >= sap.rank() && s.max_grp_sap.rank()
                >= t.max_grp_sap.rank()
            &&& can ==> s.max_grp_sap == sap || s.max_grp_sap == t.max_grp_sap
            &&& can ==> (s.sap_dirty <==> t.sap_dirty || s.max_grp_sap != t.max_grp_sap)
        }),
        ({
            let s = t.track_object_sap(sap);
            &&& s == (TrackState { max_obj_sap: s.max_obj_sap, sap_dirty: s.sap_dirty, ..t })
            &&& s.max_obj_sap.rank() >= sap.rank() && s.max_obj_sap.rank() >= t.max_obj_sap.rank()
            &&& s.max_obj_sap == sap || s.max_obj_sap == t.max_obj_sap
            &&& s.sap_dirty <==> t.sap_dirty || s.max_obj_sap != t.max_obj_sap
        }),
{
}

/// The last time of a track is the latest that it has seen, and its jitter the least distance by
/// which a time was later than the latest before it.
pub proof fn law_times_of_track(t: TrackState, pts: u64)
    ensures
        ({
            let s = t.update_jitter(pts);
            let last = t.last_timestamp;
            &&& s.last_timestamp is Some
            &&& last is None ==> s.last_timestamp == Some(pts) && s.jitter == t.jitter
            &&& last is Some && pts <= last->Some_0 ==> s == t
            &&& last is Some && last->Some_0 < pts ==> s.last_timestamp == Some(pts)
            &&& last is Some && last->Some_0 < pts && pts - last->Some_0 < u64::MAX ==> {
                &&& s.jitter is Some
                &&& s.jitter->Some_0 <= pts - last->Some_0
                &&& s.jitter->Some_0 == pts - last->Some_0 || s.jitter == t.jitter
                &&& t.jitter is Some ==> s.jitter->Some_0 <= t.jitter->Some_0
            }
            &&& s == (TrackState {
                jitter: s.jitter,
                last_timestamp: s.last_timestamp,
                ..t
            })
            &&& t.lowers_jitter(pts) <==> s.jitter != t.jitter
        }),
{
}

/// A track that is finished has no group: the open one is finished before the track.
pub proof fn law_track_is_finished(t: TrackState, out: OutboxView)
    ensures
        ({
            let (s, o, res) = t.finish(out);
            let end = ActionView::FinishTrack { track: t.track };
            &&& s == (TrackState { open: false, ..t })
            &&& grants(out, 2) ==> res is Ok
            &&& res is Ok && t.open ==> o.sent == out.sent.push(
                ActionView::FinishGroup { track: t.track },
            ).push(end)
            &&& res is Ok && !t.open ==> o.sent == out.sent.push(end)
        }),
{
    let n = out.sent.len() as int;
    if grants(out, 2) {
        assert(n < out.refused.len() ==> !out.refused[n]);
        assert(n + 1 < out.refused.len() ==> !out.refused[n + 1]);
    }
}

/// The time of an object counts exactly if the object was written; the access point that it is, is
/// noted either way, and only a keyframe is one.
pub proof fn law_written_objects_count(
    t: TrackState,
    out: OutboxView,
    meta: CmsfMetadata,
    data: Seq<u8>,
)
    ensures
        ({
            let (s, o, res) = t.put(out, meta, data);
            &&& res is Ok <==> t.open && !out.refuses()
            &&& res is Ok ==> o.sent == out.sent.push(
                ActionView::WriteFrame { track: t.track, data },
            ) && s.jitter == t.update_jitter(meta.pts).jitter && s.last_timestamp
                == t.update_jitter(meta.pts).last_timestamp
            &&& res is Err ==> s.jitter == t.jitter && s.last_timestamp == t.last_timestamp
            &&& meta.is_keyframe ==> s.max_obj_sap.rank() >= t.keyframe_sap.rank()
            &&& !meta.is_keyframe ==> s.max_obj_sap == t.max_obj_sap && s.sap_dirty == t.sap_dirty
            &&& s.open == t.open
        }),
        t.sap_of(meta) == SapType::NoSap <==> !meta.is_keyframe || t.keyframe_sap == SapType::NoSap,
        meta.is_keyframe ==> t.sap_of(meta) == t.keyframe_sap,
{
}

/// As long as the assignment stays the same, objects go into the group that it started, keyframes
/// or not: each is written and nothing else is asked for.
pub proof fn law_same_assignment_goes_on(
    t: TrackState,
    out: OutboxView,
    meta: CmsfMetadata,
    data: Seq<u8>,
    id: u64,
)
    requires
        t.open,
        t.last_explicit_group_id == Some(id),
        t.keyframe_sap == SapType::Type1 || t.keyframe_sap == SapType::Type2,
    ensures
        ({
            let (a, o, res) = t.write_leading(out, meta, data, Some(id));
            let (b, p, other) = t.write_explicit(out, meta, data, id);
            let sent = out.sent.push(ActionView::WriteFrame { track: t.track, data });
            &&& o.sent == sent
            &&& p.sent == sent
            &&& res is Ok <==> !out.refuses()
            &&& other is Ok <==> !out.refuses()
            &&& a.last_explicit_group_id == Some(id) && a.explicit_groups && a.open
            &&& b.last_explicit_group_id == Some(id) && b.explicit_groups && b.open
        }),
{
}

/// A keyframe whose assignment is not below the last is accepted where the transport takes it.
pub proof fn law_assigned_keyframe_is_accepted(
    t: TrackState,
    out: OutboxView,
    meta: CmsfMetadata,
    data: Seq<u8>,
    id: u64,
)
    requires
        meta.is_keyframe,
        t.keyframe_sap == SapType::Type1 || t.keyframe_sap == SapType::Type2,
        t.last_explicit_group_id is Some ==> t.last_explicit_group_id->Some_0 < id,
        grants(out, 3),
    ensures
        t.write_leading(out, meta, data, Some(id)).2 is Ok,
        t.write_explicit(out, meta, data, id).2 is Ok,
        t.write_leading(out, meta, data, Some(id)).0.last_explicit_group_id == Some(id),
        t.write_explicit(out, meta, data, id).0.last_explicit_group_id == Some(id),
        t.write_leading(out, meta, data, Some(id)).0.media_group_id == Some(id),
        t.write_explicit(out, meta, data, id).0.media_group_id == Some(id),
{
    let n = out.sent.len() as int;
    assert(n < out.refused.len() ==> !out.refused[n]);
    assert(n + 1 < out.refused.len() ==> !out.refused[n + 1]);
    assert(n + 2 < out.refused.len() ==> !out.refused[n + 2]);
}

/// Whether an object leads its track: it is video, or sound that is switched, or sound without any
/// video beside it and without an assignment.
pub open spec fn leads(p: BroadcastView, t: TrackState, group_id: Option<u64>) -> bool {
    t.kind == TrackKind::Video || t.alt_group is Some || (group_id is None && !p.has_video_track)
}

/// An object that leads its track is written by the rules of the track before anything else, and
/// the other tracks stay as they are if that fails.
pub proof fn law_leading_object_is_written_first(
    p: BroadcastView,
    out: OutboxView,
    id: TrackId,
    data: Seq<u8>,
    group_id: Option<u64>,
    meta: CmsfMetadata,
)
    requires
        id.0 < p.tracks.len(),
        leads(p, p.tracks[id.0 as int].state, group_id),
    ensures
        ({
            let t = p.tracks[id.0 as int].state;
            let (s, o1, res1) = t.write_leading(out, meta, data, group_id);
            let (q, o, res) = p.write(out, id, data, group_id, meta);
            &&& extends(o1, o)
            &&& res1 is Err ==> res == res1 && o == o1 && q.tracks[id.0 as int].state == s
            &&& res1 is Err ==> forall|k: int|
                0 <= k < p.tracks.len() && k != id.0 ==> #[trigger] q.tracks[k] == p.tracks[k]
            &&& q.tracks.len() == p.tracks.len()
        }),
{
    let i = id.0 as int;
    let t = p.tracks[i].state;
    let (s, o1, res1) = t.write_leading(out, meta, data, group_id);
    if res1 is Ok {
        let next = p.with_state(i, s);
        lemma_led_extends(next, o1, i, meta, t.lowers_jitter(meta.pts));
    }
}

/// An object of a track that does not exist is refused, and nothing happens.
pub proof fn law_unknown_track(
    p: BroadcastView,
    out: OutboxView,
    id: TrackId,
    data: Seq<u8>,
    group_id: Option<u64>,
    meta: CmsfMetadata,
)
    requires
        id.0 >= p.tracks.len(),
    ensures
        p.write(out, id, data, group_id, meta) == (
            p,
            out,
            Err::<(), _>(MuxErrorView::InvalidTrack),
        ),
{
}

/// No group changes the times of its track.
proof fn lemma_lead_keeps_times(t: TrackState, out: OutboxView, sap: SapType, group_id: Option<u64>)
    ensures
        t.lead(out, sap, group_id).0.jitter == t.jitter,
        t.lead(out, sap, group_id).0.last_timestamp == t.last_timestamp,
{
    let valid = if sap.is_keyframe_spec() {
        t.validate_group_sap(sap).0
    } else {
        t
    };
    law_where_a_group_starts(t, sap);
    match group_id {
        None => law_group_is_started(valid, out, None),
        Some(id) => {
            let explicit = TrackState { explicit_groups: true, ..valid };
            law_where_a_group_starts(explicit, sap);
            law_group_is_started(explicit.validate_group_sap(sap).0, out, Some(id));
        },
    }
}

/// What becomes of the times of a track whose object was written.
proof fn lemma_leading_times(
    t: TrackState,
    out: OutboxView,
    meta: CmsfMetadata,
    data: Seq<u8>,
    group_id: Option<u64>,
)
    requires
        t.write_leading(out, meta, data, group_id).2 is Ok,
    ensures
        t.write_leading(out, meta, data, group_id).0.jitter == t.update_jitter(meta.pts).jitter,
{
    let (led, o, res) = t.lead(out, t.sap_of(meta), group_id);
    lemma_lead_keeps_times(t, out, t.sap_of(meta), group_id);
    assert(t.write_leading(out, meta, data, group_id) == led.put(o, meta, data));
    law_written_objects_count(led, o, meta, data);
    assert(led.update_jitter(meta.pts).jitter == t.update_jitter(meta.pts).jitter);
}

/// When the catalogs are published behind an object.
proof fn lemma_led_tells(q: BroadcastView, out: OutboxView, i: int, meta: CmsfMetadata, jitter: bool)
    requires
        0 <= i < q.tracks.len(),
        !q.catalog_failed,
    ensures
        ({
            let t = q.tracks[i].state;
            let o = q.led(out, i, meta, jitter).1;
            let n = out.sent.len() as int;
            let due = t.sap_dirty || (jitter && t.jitter is Some);
            &&& due ==> n < o.sent.len() && o.sent[n] is EncodeMsf
            &&& !due && !meta.is_keyframe ==> o == out
        }),
{
    let t = q.tracks[i].state;
    let clean = q.with_state(i, TrackState { sap_dirty: false, ..t });
    let n = out.sent.len() as int;
    if t.sap_dirty || (jitter && t.jitter is Some) {
        let (told, published) = clean.publish(out);
        assert(published.sent.len() > n && published.sent[n] is EncodeMsf);
        lemma_told_extends(told, published);
        let o = q.led(out, i, meta, jitter).1;
        assert(extends(published, o));
        assert(o.sent[n] == published.sent[n]);
    }
}

/// An object that comes sooner after the one before it than any other did, or that raises an access
/// point, has the catalogs published anew, right behind it.
pub proof fn law_news_are_published(
    p: BroadcastView,
    out: OutboxView,
    id: TrackId,
    data: Seq<u8>,
    group_id: Option<u64>,
    meta: CmsfMetadata,
)
    requires
        id.0 < p.tracks.len(),
        leads(p, p.tracks[id.0 as int].state, group_id),
        p.tracks[id.0 as int].state.write_leading(out, meta, data, group_id).2 is Ok,
        !p.catalog_failed,
    ensures
        ({
            let t = p.tracks[id.0 as int].state;
            let (s, o1, _res) = t.write_leading(out, meta, data, group_id);
            let n = o1.sent.len() as int;
            let o = p.write(out, id, data, group_id, meta).1;
            let sooner = t.last_timestamp is Some && t.last_timestamp->Some_0 < meta.pts && meta.pts
                - t.last_timestamp->Some_0 < u64::MAX && (t.jitter is None || meta.pts
                - t.last_timestamp->Some_0 < t.jitter->Some_0);
            &&& sooner || s.sap_dirty ==> n < o.sent.len() && o.sent[n] is EncodeMsf
            &&& sooner ==> s.jitter == Some((meta.pts - t.last_timestamp->Some_0) as u64)
            &&& !sooner && !s.sap_dirty && !meta.is_keyframe ==> o == o1
        }),
{
    let i = id.0 as int;
    let t = p.tracks[i].state;
    let (s, o1, res) = t.write_leading(out, meta, data, group_id);
    lemma_leading_times(t, out, meta, data, group_id);
    let next = p.with_state(i, s);
    lemma_led_tells(next, o1, i, meta, t.lowers_jitter(meta.pts));
    assert(next.tracks[i].state == s);
}

/// Sound that follows the video starts with a keyframe too: without one it is refused before
/// anything is asked for, and the access point of its first group is that of its keyframes.
pub proof fn law_following_sound_starts(
    t: TrackState,
    out: OutboxView,
    meta: CmsfMetadata,
    data: Seq<u8>,
)
    requires
        !t.open,
    ensures
        ({
            let (s, o, res) = t.write_following(out, meta, data);
            &&& !meta.is_keyframe ==> res == Err::<(), _>(
                MuxErrorView::InvalidGroupStart(SapType::NoSap),
            ) && o == out && s == t
            &&& meta.is_keyframe && res is Ok ==> s.max_grp_sap.rank() >= t.keyframe_sap.rank() && (
            s.max_grp_sap == t.keyframe_sap || s.max_grp_sap == t.max_grp_sap)
            &&& res is Ok ==> s.media_group_id is None && s.open
        }),
{
}

/// A catalog track that takes no group stops all further catalogs; nothing else does, and nothing
/// else of a broadcast is changed by a catalog.
pub proof fn law_refused_catalog_stops(p: BroadcastView, out: OutboxView)
    ensures
        ({
            let (q, o) = p.publish(out);
            let n = out.sent.len() as int;
            let no_text = n < out.refused.len() && out.refused[n];
            let no_group = n + 1 < out.refused.len() && out.refused[n + 1];
            &&& p.catalog_failed ==> q == p && o == out
            &&& !p.catalog_failed ==> (q.catalog_failed <==> !no_text && no_group)
            &&& !p.catalog_failed && no_text ==> o.sent.len() == n + 1
            &&& q == (BroadcastView { catalog_failed: q.catalog_failed, ..p })
            &&& q.catalog_failed ==> forall|later: OutboxView| #[trigger]
                q.publish(later) == (q, later)
        }),
{
}

} // verus!
