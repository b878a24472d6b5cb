//! What holds of a broadcast whatever is written to it.

use crate::mux::broadcast::{media_name, BroadcastView, BufferedView};
use crate::mux::cmsf::CmsfMetadata;
use crate::mux::outbox::{ActionView, OutboxView};
use crate::mux::types::{MuxErrorView, SapType, TrackId, TrackKind, TrackState};
use crate::text::{decimal, law_decimal_is_injective};
use vstd::prelude::*;

verus! {

/// What a track keeps, and what only ever moves one way: explicit groups never go back, the mode
/// is never left, access points rise, and the jitter falls.
pub open spec fn advances(a: TrackState, b: TrackState) -> bool {
    &&& b.track == a.track
    &&& b.kind == a.kind
    &&& b.alt_group == a.alt_group
    &&& b.timescale == a.timescale
    &&& b.keyframe_sap == a.keyframe_sap
    &&& a.explicit_groups ==> b.explicit_groups
    &&& a.last_explicit_group_id matches Some(x) ==> (b.last_explicit_group_id matches Some(y)
        && x <= y)
    &&& a.max_grp_sap.rank() <= b.max_grp_sap.rank()
    &&& a.max_obj_sap.rank() <= b.max_obj_sap.rank()
    &&& a.jitter matches Some(x) ==> (b.jitter matches Some(y) && y <= x)
}

/// A broadcast whose tracks are the same, and each advanced.
pub open spec fn all_advance(p: BroadcastView, q: BroadcastView) -> bool {
    &&& p.tracks.len() == q.tracks.len()
    &&& forall|i: int|
        #![trigger q.tracks[i]]
        0 <= i < p.tracks.len() ==> advances(p.tracks[i].state, q.tracks[i].state)
            && q.tracks[i].name == p.tracks[i].name && q.tracks[i].config == p.tracks[i].config
}

proof fn lemma_all_advance_trans(p: BroadcastView, q: BroadcastView, r: BroadcastView)
    requires
        all_advance(p, q),
        all_advance(q, r),
    ensures
        all_advance(p, r),
{
    assert forall|i: int|
        #![trigger r.tracks[i]]
        0 <= i < p.tracks.len() implies advances(p.tracks[i].state, r.tracks[i].state)
        && r.tracks[i].name == p.tracks[i].name && r.tracks[i].config == p.tracks[i].config by {
        assert(advances(p.tracks[i].state, q.tracks[i].state));
        assert(advances(q.tracks[i].state, r.tracks[i].state));
    }
}

proof fn lemma_with_state(p: BroadcastView, i: int, state: TrackState)
    requires
        0 <= i < p.tracks.len(),
        advances(p.tracks[i].state, state),
    ensures
        all_advance(p, p.with_state(i, state)),
{
}

proof fn lemma_publish(p: BroadcastView, out: OutboxView)
    ensures
        all_advance(p, p.publish(out).0),
        p.publish(out).0.audio_buffer == p.audio_buffer,
        p.publish(out).0.first_video_group == p.first_video_group,
        p.publish(out).0.has_video_track == p.has_video_track,
{
}

proof fn lemma_flush(p: BroadcastView, out: OutboxView, items: Seq<BufferedView>)
    ensures
        all_advance(p, p.flush(out, items).0),
        p.flush(out, items).0.audio_buffer == p.audio_buffer,
        p.flush(out, items).0.first_video_group == p.first_video_group,
    decreases items.len(),
{
    if items.len() > 0 {
        let i = items[0].track.0 as int;
        if i < p.tracks.len() {
            let (state, o, res) = p.tracks[i].state.write_following(
                out,
                items[0].meta,
                items[0].data,
            );
            let next = p.with_state(i, state);
            lemma_with_state(p, i, state);
            if res is Ok {
                lemma_flush(next, o, items.skip(1));
                lemma_all_advance_trans(p, next, next.flush(o, items.skip(1)).0);
            }
        }
    }
}

proof fn lemma_rotate(p: BroadcastView, out: OutboxView, i: nat)
    ensures
        all_advance(p, p.rotate(out, i).0),
        p.rotate(out, i).0.audio_buffer == p.audio_buffer,
        p.rotate(out, i).0.first_video_group == p.first_video_group,
        forall|j: int|
            #![trigger p.tracks[j]]
            0 <= j < p.tracks.len() && (j < i || p.tracks[j].state.explicit_groups
                || !p.tracks[j].state.non_switching()) ==> p.rotate(out, i).0.tracks[j]
                == p.tracks[j],
    decreases p.tracks.len() - i,
{
    if i < p.tracks.len() {
        let t = p.tracks[i as int].state;
        if t.non_switching() && t.open && !t.explicit_groups {
            let (state, o, res) = t.start_group(out, None);
            let next = p.with_state(i as int, state);
            lemma_with_state(p, i as int, state);
            if res is Ok {
                lemma_rotate(next, o, i + 1);
                lemma_all_advance_trans(p, next, next.rotate(o, i + 1).0);
                assert forall|j: int|
                    #![trigger p.tracks[j]]
                    0 <= j < p.tracks.len() && (j < i || p.tracks[j].state.explicit_groups
                        || !p.tracks[j].state.non_switching()) implies p.rotate(
                    out,
                    i,
                ).0.tracks[j] == p.tracks[j] by {
                    assert(next.tracks[j] == p.tracks[j]);
                }
            }
        } else {
            lemma_rotate(p, out, i + 1);
        }
    }
}

proof fn lemma_led(p: BroadcastView, out: OutboxView, i: int, meta: CmsfMetadata, jitter: bool)
    requires
        0 <= i < p.tracks.len(),
    ensures
        all_advance(p, p.led(out, i, meta, jitter).0),
{
    let s = p.tracks[i].state;
    let clean = p.with_state(i, TrackState { sap_dirty: false, ..s });
    lemma_with_state(p, i, TrackState { sap_dirty: false, ..s });
    let (told, o2) = if s.sap_dirty || (jitter && s.jitter is Some) {
        clean.publish(out)
    } else {
        (clean, out)
    };
    lemma_publish(clean, out);
    lemma_all_advance_trans(p, clean, told);
    let begun = BroadcastView { first_video_group: true, audio_buffer: Seq::empty(), ..told };
    assert(all_advance(p, begun));
    lemma_flush(begun, o2, told.audio_buffer);
    lemma_all_advance_trans(p, begun, begun.flush(o2, told.audio_buffer).0);
    lemma_rotate(told, o2, 0);
    lemma_all_advance_trans(p, told, told.rotate(o2, 0).0);
}

proof fn lemma_explicit(t: TrackState, out: OutboxView, meta: CmsfMetadata, data: Seq<u8>, id: u64)
    ensures
        advances(t, t.write_explicit(out, meta, data, id).0),
{
}

proof fn lemma_following(t: TrackState, out: OutboxView, meta: CmsfMetadata, data: Seq<u8>)
    ensures
        advances(t, t.write_following(out, meta, data).0),
{
}

proof fn lemma_assign(t: TrackState, out: OutboxView, sap: SapType, id: u64)
    ensures
        advances(t, t.assign(out, sap, id).0),
{
}

proof fn lemma_lead(t: TrackState, out: OutboxView, sap: SapType, group_id: Option<u64>)
    ensures
        advances(t, t.lead(out, sap, group_id).0),
{
    if let Some(id) = group_id {
        lemma_assign(t, out, sap, id);
        lemma_assign(t.validate_group_sap(sap).0, out, sap, id);
    }
}

proof fn lemma_put(t: TrackState, out: OutboxView, meta: CmsfMetadata, data: Seq<u8>)
    ensures
        advances(t, t.put(out, meta, data).0),
{
}

proof fn lemma_leading(
    t: TrackState,
    out: OutboxView,
    meta: CmsfMetadata,
    data: Seq<u8>,
    group_id: Option<u64>,
)
    ensures
        advances(t, t.write_leading(out, meta, data, group_id).0),
{
    let sap = t.sap_of(meta);
    lemma_lead(t, out, sap, group_id);
    let (led, o, _) = t.lead(out, sap, group_id);
    lemma_put(led, o, meta, data);
}

/// Whatever is written, the tracks stay what they are, explicit groups never go back, access
/// points never fall and the jitter never rises.
pub proof fn law_write_advances(
    p: BroadcastView,
    out: OutboxView,
    id: TrackId,
    data: Seq<u8>,
    group_id: Option<u64>,
    meta: CmsfMetadata,
)
    ensures
        all_advance(p, p.write(out, id, data, group_id, meta).0),
{
    let i = id.0 as int;
    if i < p.tracks.len() {
        let t = p.tracks[i].state;
        if t.non_switching() && group_id is Some {
            lemma_explicit(t, out, meta, data, group_id->Some_0);
            lemma_with_state(p, i, t.write_explicit(out, meta, data, group_id->Some_0).0);
        } else if t.non_switching() && p.has_video_track && !p.first_video_group
            && !t.explicit_groups {
        } else if t.non_switching() && p.has_video_track {
            lemma_following(t, out, meta, data);
            lemma_with_state(p, i, t.write_following(out, meta, data).0);
        } else {
            let (state, o, res) = t.write_leading(out, meta, data, group_id);
            let next = p.with_state(i, state);
            lemma_leading(t, out, meta, data, group_id);
            lemma_with_state(p, i, state);
            if res is Ok {
                let jitter = t.lowers_jitter(meta.pts);
                lemma_led(next, o, i, meta, jitter);
                lemma_all_advance_trans(p, next, next.led(o, i, meta, jitter).0);
            }
        }
    }
}

/// Audio that follows the video is held back until the first keyframe of the video: nothing is
/// asked of the transport, and the object waits behind the others.
pub proof fn law_audio_waits(
    p: BroadcastView,
    out: OutboxView,
    id: TrackId,
    data: Seq<u8>,
    meta: CmsfMetadata,
)
    requires
        id.0 < p.tracks.len(),
        p.tracks[id.0 as int].state.non_switching(),
        !p.tracks[id.0 as int].state.explicit_groups,
        p.has_video_track,
        !p.first_video_group,
    ensures
        ({
            let (q, o, res) = p.write(out, id, data, None, meta);
            &&& res is Ok
            &&& o == out
            &&& q.tracks == p.tracks
            &&& q.audio_buffer == p.audio_buffer.push(BufferedView { track: id, data, meta })
        }),
{
}

/// Audio whose groups the caller assigns does not wait.
pub proof fn law_explicit_audio_does_not_wait(
    p: BroadcastView,
    out: OutboxView,
    id: TrackId,
    data: Seq<u8>,
    group_id: u64,
    meta: CmsfMetadata,
)
    requires
        id.0 < p.tracks.len(),
        p.tracks[id.0 as int].state.non_switching(),
    ensures
        ({
            let (q, o, res) = p.write(out, id, data, Some(group_id), meta);
            &&& q.audio_buffer == p.audio_buffer
            &&& q.tracks[id.0 as int].state.explicit_groups
            &&& res is Ok ==> {
                &&& o.sent.len() > out.sent.len()
                &&& o.sent.last() == (ActionView::WriteFrame {
                    track: p.tracks[id.0 as int].state.track,
                    data,
                })
                &&& q.tracks[id.0 as int].state.open
                &&& q.tracks[id.0 as int].state.last_explicit_group_id == Some(group_id)
            }
        }),
{
}

/// Once a keyframe of the video was written, no audio waits any more.
pub proof fn law_keyframe_empties_buffer(
    p: BroadcastView,
    out: OutboxView,
    id: TrackId,
    data: Seq<u8>,
    group_id: Option<u64>,
    meta: CmsfMetadata,
)
    requires
        id.0 < p.tracks.len(),
        p.tracks[id.0 as int].state.kind == TrackKind::Video,
        p.tracks[id.0 as int].state.sap_of(meta).is_keyframe_spec(),
        p.write(out, id, data, group_id, meta).2 is Ok,
        p.first_video_group ==> p.audio_buffer.len() == 0,
    ensures
        p.write(out, id, data, group_id, meta).0.first_video_group,
        p.write(out, id, data, group_id, meta).0.audio_buffer.len() == 0,
{
    let i = id.0 as int;
    let t = p.tracks[i].state;
    let (state, o, res) = t.write_leading(out, meta, data, group_id);
    let next = p.with_state(i, state);
    let s = next.tracks[i].state;
    let clean = next.with_state(i, TrackState { sap_dirty: false, ..s });
    let (told, o2) = if s.sap_dirty || (t.lowers_jitter(meta.pts) && s.jitter is Some) {
        clean.publish(o)
    } else {
        (clean, o)
    };
    lemma_publish(clean, o);
    assert(s.kind == TrackKind::Video && s.sap_of(meta) == t.sap_of(meta));
    lemma_flush(
        BroadcastView { first_video_group: true, audio_buffer: Seq::empty(), ..told },
        o2,
        told.audio_buffer,
    );
    lemma_rotate(told, o2, 0);
}

/// The first object of a leading track must be a keyframe: any other is refused, and nothing is
/// asked of the transport.
pub proof fn law_first_must_be_keyframe(
    p: BroadcastView,
    out: OutboxView,
    id: TrackId,
    data: Seq<u8>,
    group_id: Option<u64>,
    meta: CmsfMetadata,
)
    requires
        id.0 < p.tracks.len(),
        !p.tracks[id.0 as int].state.non_switching() || (group_id is None && !p.has_video_track),
        !p.tracks[id.0 as int].state.open,
        !meta.is_keyframe,
    ensures
        p.write(out, id, data, group_id, meta).2 == Err::<(), _>(MuxErrorView::FirstNotKeyframe),
        p.write(out, id, data, group_id, meta).1 == out,
        p.write(out, id, data, group_id, meta).0.tracks =~= p.tracks,
{
}

/// A group that the caller assigns may not come before the last one of its track, whatever the
/// track and the object: it is refused before anything is asked of the transport.
pub proof fn law_explicit_groups_are_monotonic(
    p: BroadcastView,
    out: OutboxView,
    id: TrackId,
    data: Seq<u8>,
    group_id: u64,
    last: u64,
    meta: CmsfMetadata,
)
    requires
        id.0 < p.tracks.len(),
        p.tracks[id.0 as int].state.last_explicit_group_id == Some(last),
        group_id < last,
    ensures
        ({
            let t = p.tracks[id.0 as int].state;
            let (_, o, res) = p.write(out, id, data, Some(group_id), meta);
            &&& o == out
            &&& res == Err::<(), _>(
                if t.non_switching() || t.open || t.sap_of(meta).is_keyframe_spec() {
                    MuxErrorView::NonMonotonic { id: group_id, last }
                } else {
                    MuxErrorView::FirstNotKeyframe
                },
            )
        }),
{
}

/// Once the groups of a track are assigned, an object without an assignment goes on in the open
/// group: it is written and no group is started, though it is a keyframe.
pub proof fn law_explicit_mode_goes_on(
    t: TrackState,
    out: OutboxView,
    meta: CmsfMetadata,
    data: Seq<u8>,
)
    requires
        t.explicit_groups,
        t.open,
    ensures
        ({
            let write = ActionView::WriteFrame { track: t.track, data };
            &&& t.write_leading(out, meta, data, None).1 == out.with(write)
            &&& t.write_following(out, meta, data).1 == out.with(write)
            &&& t.write_leading(out, meta, data, None).0.media_group_id == t.media_group_id
            &&& t.write_following(out, meta, data).0.media_group_id == t.media_group_id
        }),
{
}

/// Audio in explicit mode does not wait for the video, though an object has no assignment.
pub proof fn law_explicit_mode_does_not_wait(
    p: BroadcastView,
    out: OutboxView,
    id: TrackId,
    data: Seq<u8>,
    meta: CmsfMetadata,
)
    requires
        id.0 < p.tracks.len(),
        p.tracks[id.0 as int].state.non_switching(),
        p.tracks[id.0 as int].state.explicit_groups,
        p.tracks[id.0 as int].state.open,
        p.has_video_track,
    ensures
        ({
            let (q, o, _) = p.write(out, id, data, None, meta);
            &&& q.audio_buffer == p.audio_buffer
            &&& o == out.with(
                ActionView::WriteFrame { track: p.tracks[id.0 as int].state.track, data },
            )
        }),
{
}

/// No group starts at an object that is no access point: where the assignment of such an object
/// changes, it is refused, and nothing is asked of the transport.
pub proof fn law_no_group_without_access_point(
    t: TrackState,
    out: OutboxView,
    meta: CmsfMetadata,
    data: Seq<u8>,
    id: u64,
)
    requires
        !meta.is_keyframe,
        t.last_explicit_group_id matches Some(last) ==> last < id,
    ensures
        t.write_leading(out, meta, data, Some(id)).1 == out,
        t.open ==> t.write_leading(out, meta, data, Some(id)).2 == Err::<(), _>(
            MuxErrorView::InvalidGroupStart(SapType::NoSap),
        ),
        !t.open ==> t.write_leading(out, meta, data, Some(id)).2 == Err::<(), _>(
            MuxErrorView::FirstNotKeyframe,
        ),
        t.write_explicit(out, meta, data, id).1 == out,
        t.write_explicit(out, meta, data, id).2 == Err::<(), _>(
            MuxErrorView::InvalidGroupStart(SapType::NoSap),
        ),
{
}

/// Where the assignment changes, a group with that number is opened, and the object is the first
/// in it.
pub proof fn law_assignment_starts_group(
    t: TrackState,
    out: OutboxView,
    meta: CmsfMetadata,
    data: Seq<u8>,
    id: u64,
)
    requires
        t.last_explicit_group_id != Some(id),
    ensures
        ({
            let start = seq![
                ActionView::CreateGroup { track: t.track, sequence: id },
                ActionView::WriteFrame { track: t.track, data },
            ];
            let sent = out.sent + if t.open {
                seq![ActionView::FinishGroup { track: t.track }] + start
            } else {
                start
            };
            let (a, led, first) = t.write_leading(out, meta, data, Some(id));
            let (b, followed, second) = t.write_explicit(out, meta, data, id);
            &&& first is Ok ==> led.sent == sent && a.last_explicit_group_id == Some(id)
            &&& second is Ok ==> followed.sent == sent && b.last_explicit_group_id == Some(id)
        }),
{
    let start = seq![
        ActionView::CreateGroup { track: t.track, sequence: id },
        ActionView::WriteFrame { track: t.track, data },
    ];
    let sent = out.sent + if t.open {
        seq![ActionView::FinishGroup { track: t.track }] + start
    } else {
        start
    };
    if t.write_leading(out, meta, data, Some(id)).2 is Ok {
        assert(t.write_leading(out, meta, data, Some(id)).1.sent =~= sent);
    }
    if t.write_explicit(out, meta, data, id).2 is Ok {
        assert(t.write_explicit(out, meta, data, id).1.sent =~= sent);
    }
}

/// A keyframe of the video gives the audio that follows it a new group, but never audio whose
/// groups the caller assigns, nor audio that is switched.
pub proof fn law_rotation_spares_explicit(p: BroadcastView, out: OutboxView, j: int)
    requires
        0 <= j < p.tracks.len(),
        p.tracks[j].state.explicit_groups || !p.tracks[j].state.non_switching(),
    ensures
        p.rotate(out, 0).0.tracks[j] == p.tracks[j],
{
    lemma_rotate(p, out, 0);
}

/// A keyframe of a leading track whose groups are not assigned starts a new group and is the
/// first object in it: the old group, if one is open, is finished, the next one is opened, and the
/// bytes are written to it unchanged.
pub proof fn law_keyframe_starts_group(
    t: TrackState,
    out: OutboxView,
    meta: CmsfMetadata,
    data: Seq<u8>,
)
    requires
        t.sap_of(meta).is_keyframe_spec(),
        !t.explicit_groups,
        t.write_leading(out, meta, data, None).2 is Ok,
    ensures
        ({
            let start = seq![
                ActionView::AppendGroup { track: t.track },
                ActionView::WriteFrame { track: t.track, data },
            ];
            &&& t.write_leading(out, meta, data, None).0.open
            &&& t.write_leading(out, meta, data, None).1.sent == out.sent + if t.open {
                seq![ActionView::FinishGroup { track: t.track }] + start
            } else {
                start
            }
        }),
{
    let start = seq![
        ActionView::AppendGroup { track: t.track },
        ActionView::WriteFrame { track: t.track, data },
    ];
    assert(t.write_leading(out, meta, data, None).1.sent =~= out.sent + if t.open {
        seq![ActionView::FinishGroup { track: t.track }] + start
    } else {
        start
    });
}

/// No two media tracks have the same name: not two of a kind, for they are numbered, and not two
/// of different kinds.
pub proof fn law_media_names_differ(i: nat, j: nat)
    ensures
        i != j ==> media_name("video"@, i) != media_name("video"@, j),
        i != j ==> media_name("audio"@, i) != media_name("audio"@, j),
        media_name("video"@, i) != media_name("audio"@, j),
{
    reveal_strlit("video");
    reveal_strlit("audio");
    lemma_name_tells_number("video"@, i, j);
    lemma_name_tells_number("audio"@, i, j);
    assert(media_name("video"@, i)[0] == 'v');
    assert(media_name("audio"@, j)[0] == 'a');
}

proof fn lemma_name_tells_number(prefix: Seq<char>, i: nat, j: nat)
    ensures
        media_name(prefix, i) == media_name(prefix, j) ==> i == j,
{
    let a = media_name(prefix, i);
    let b = media_name(prefix, j);
    let end = ".m4s"@.len();
    if a == b {
        assert(a.subrange(prefix.len() as int, a.len() - end) =~= decimal(i));
        assert(b.subrange(prefix.len() as int, b.len() - end) =~= decimal(j));
        law_decimal_is_injective(i, j);
    }
}

} // verus!
