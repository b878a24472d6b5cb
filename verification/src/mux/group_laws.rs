//! Which groups a broadcast opens and finishes, and what it writes to them.

use crate::mux::broadcast::{BroadcastView, BufferedView};
use crate::mux::cmsf::CmsfMetadata;
use crate::mux::outbox::{ActionView, OutboxView};
use crate::mux::types::{SapType, TrackId, TrackKind, TrackState};
use vstd::prelude::*;

verus! {

/// Whether a track is audio that is not switched, and whose groups the caller does not assign.
pub open spec fn follows(t: TrackState) -> bool {
    t.kind == TrackKind::Audio && t.alt_group is None && !t.explicit_groups
}

/// Whether requests were only added.
pub open spec fn extends(a: OutboxView, b: OutboxView) -> bool {
    &&& a.sent.len() <= b.sent.len()
    &&& forall|n: int| 0 <= n < a.sent.len() ==> #[trigger] b.sent[n] == a.sent[n]
}

/// Whether request `n` ends the group of a track, and the next one begins another.
pub open spec fn renews(sent: Seq<ActionView>, n: int, track: usize) -> bool {
    &&& 0 <= n
    &&& n + 1 < sent.len()
    &&& sent[n] == (ActionView::FinishGroup { track })
    &&& sent[n + 1] == (ActionView::AppendGroup { track })
}

/// Whether a request is one to a track.
pub open spec fn concerns(a: ActionView, track: usize) -> bool {
    match a {
        ActionView::FinishGroup { track: t } => t == track,
        ActionView::AppendGroup { track: t } => t == track,
        ActionView::CreateGroup { track: t, .. } => t == track,
        ActionView::WriteFrame { track: t, .. } => t == track,
        ActionView::WriteCatalog { track: t } => t == track,
        ActionView::FinishTrack { track: t } => t == track,
        _ => false,
    }
}

/// Whether all tracks, and those of the catalogs, have numbers of their own.
pub open spec fn all_differ(p: BroadcastView) -> bool {
    &&& forall|i: int, j: int|
        0 <= i < j < p.tracks.len() ==> (#[trigger] p.tracks[i]).state.track != (
        #[trigger] p.tracks[j]).state.track
    &&& forall|i: int|
        0 <= i < p.tracks.len() ==> (#[trigger] p.tracks[i]).state.track != p.msf_track
            && p.hang_track != Some(p.tracks[i].state.track)
}

/// Whether a request is one to audio that follows the video and has a group open.
pub open spec fn to_follower(a: ActionView, p: BroadcastView) -> bool {
    exists|j: int|
        0 <= j < p.tracks.len() && follows(p.tracks[j].state) && p.tracks[j].state.open
            && #[trigger] concerns(a, p.tracks[j].state.track)
}

proof fn lemma_extends_trans(a: OutboxView, b: OutboxView, c: OutboxView)
    requires
        extends(a, b),
        extends(b, c),
    ensures
        extends(a, c),
{
    assert forall|n: int| 0 <= n < a.sent.len() implies #[trigger] c.sent[n] == a.sent[n] by {
        assert(b.sent[n] == a.sent[n]);
    }
}

/// What the rotation asks for.
proof fn lemma_rotation_asks(p: BroadcastView, out: OutboxView, i: nat)
    ensures
        ({
            let (q, o, res) = p.rotate(out, i);
            &&& extends(out, o)
            &&& q.tracks.len() == p.tracks.len()
            &&& forall|j: int|
                0 <= j < p.tracks.len() && (j < i || !(follows(p.tracks[j].state)
                    && p.tracks[j].state.open)) ==> #[trigger] q.tracks[j] == p.tracks[j]
            &&& res is Ok ==> forall|j: int|
                i <= j < p.tracks.len() && follows((#[trigger] p.tracks[j]).state)
                    && p.tracks[j].state.open ==> q.tracks[j].state.open && exists|n: int|
                    out.sent.len() <= n && #[trigger] renews(
                        o.sent,
                        n,
                        p.tracks[j].state.track,
                    )
            &&& forall|n: int|
                out.sent.len() <= n < o.sent.len() ==> #[trigger] to_follower(o.sent[n], p)
        }),
    decreases p.tracks.len() - i,
{
    if i < p.tracks.len() {
        let t = p.tracks[i as int].state;
        let (q, o, res) = p.rotate(out, i);
        if follows(t) && t.open {
            let (state, o1, res1) = t.start_group(out, None);
            let next = p.with_state(i as int, state);
            let m = out.sent.len() as int;
            assert(extends(out, o1));
            assert(o1.sent[m] == (ActionView::FinishGroup { track: t.track }));
            if res1 is Ok {
                assert(o1.sent[m + 1] == (ActionView::AppendGroup { track: t.track }));
                lemma_rotation_asks(next, o1, i + 1);
                lemma_extends_trans(out, o1, o);
                assert(o.sent[m] == o1.sent[m] && o.sent[m + 1] == o1.sent[m + 1]);
                assert(renews(o.sent, m, t.track));
                assert(q.tracks[i as int] == next.tracks[i as int]);
                assert forall|j: int|
                    i <= j < p.tracks.len() && follows((#[trigger] p.tracks[j]).state)
                        && p.tracks[j].state.open && res is Ok implies q.tracks[j].state.open
                    && exists|n: int|
                    out.sent.len() <= n && #[trigger] renews(
                        o.sent,
                        n,
                        p.tracks[j].state.track,
                    ) by {
                    if j > i {
                        assert(next.tracks[j] == p.tracks[j]);
                        let n = choose|n: int|
                            o1.sent.len() <= n && #[trigger] renews(
                                o.sent,
                                n,
                                next.tracks[j].state.track,
                            );
                        assert(renews(o.sent, n, p.tracks[j].state.track));
                    }
                }
                assert forall|j: int|
                    0 <= j < p.tracks.len() && (j < i || !(follows(p.tracks[j].state)
                        && p.tracks[j].state.open)) implies #[trigger] q.tracks[j]
                    == p.tracks[j] by {
                    assert(next.tracks[j] == p.tracks[j]);
                    assert(q.tracks[j] == next.tracks[j]);
                }
                assert forall|n: int| out.sent.len() <= n < o.sent.len() implies
                    #[trigger] to_follower(o.sent[n], p) by {
                    if n < o1.sent.len() {
                        assert(concerns(o.sent[n], p.tracks[i as int].state.track));
                    } else {
                        assert(to_follower(o.sent[n], next));
                        let j = choose|j: int|
                            0 <= j < next.tracks.len() && follows(next.tracks[j].state)
                                && next.tracks[j].state.open && #[trigger] concerns(
                                o.sent[n],
                                next.tracks[j].state.track,
                            );
                        if j != i {
                            assert(next.tracks[j] == p.tracks[j]);
                        }
                        assert(concerns(o.sent[n], p.tracks[j].state.track));
                    }
                }
            } else {
                assert forall|n: int| out.sent.len() <= n < o.sent.len() implies
                    #[trigger] to_follower(o.sent[n], p) by {
                    assert(concerns(o.sent[n], p.tracks[i as int].state.track));
                }
            }
        } else {
            lemma_rotation_asks(p, out, i + 1);
        }
    }
}

/// What the catalogs ask for.
proof fn lemma_publish_asks(p: BroadcastView, out: OutboxView)
    ensures
        ({
            let (q, o) = p.publish(out);
            &&& extends(out, o)
            &&& q.tracks == p.tracks
            &&& q.first_video_group == p.first_video_group
            &&& q.audio_buffer == p.audio_buffer
            &&& forall|n: int, track: usize|
                out.sent.len() <= n < o.sent.len() && #[trigger] concerns(o.sent[n], track)
                    ==> track == p.msf_track || p.hang_track == Some(track)
        }),
{
}

/// What the object of a leading track asks for.
proof fn lemma_leading_asks(
    t: TrackState,
    out: OutboxView,
    meta: CmsfMetadata,
    data: Seq<u8>,
    group_id: Option<u64>,
)
    ensures
        ({
            let (s, o, res) = t.write_leading(out, meta, data, group_id);
            &&& extends(out, o)
            &&& s.track == t.track
            &&& s.kind == t.kind
            &&& s.keyframe_sap == t.keyframe_sap
            &&& forall|n: int, track: usize|
                out.sent.len() <= n < o.sent.len() && #[trigger] concerns(o.sent[n], track)
                    ==> track == t.track
        }),
{
    let sap = t.sap_of(meta);
    let (led, o1, res1) = t.lead(out, sap, group_id);
    assert(extends(out, o1) && led.track == t.track && led.kind == t.kind && led.keyframe_sap
        == t.keyframe_sap) by {
        if let Some(id) = group_id {
            lemma_assign_asks(t, out, sap, id);
            lemma_assign_asks(t.validate_group_sap(sap).0, out, sap, id);
        }
    }
    assert(forall|n: int, track: usize|
        out.sent.len() <= n < o1.sent.len() && #[trigger] concerns(o1.sent[n], track) ==> track
            == t.track) by {
        if let Some(id) = group_id {
            lemma_assign_asks(t, out, sap, id);
            lemma_assign_asks(t.validate_group_sap(sap).0, out, sap, id);
        }
    }
}

proof fn lemma_assign_asks(t: TrackState, out: OutboxView, sap: SapType, id: u64)
    ensures
        ({
            let (s, o, res) = t.assign(out, sap, id);
            &&& extends(out, o)
            &&& s.track == t.track
            &&& s.kind == t.kind
            &&& s.keyframe_sap == t.keyframe_sap
            &&& forall|n: int, track: usize|
                out.sent.len() <= n < o.sent.len() && #[trigger] concerns(o.sent[n], track)
                    ==> track == t.track
        }),
{
}

/// What a broadcast is once an object of a leading track was written and the catalogs, if they
/// changed, were published; and what was asked for.
spec fn told(p: BroadcastView, out: OutboxView, i: int, jitter: bool) -> (
    BroadcastView,
    OutboxView,
) {
    let t = p.tracks[i].state;
    let clean = p.with_state(i, TrackState { sap_dirty: false, ..t });
    if t.sap_dirty || (jitter && t.jitter is Some) {
        clean.publish(out)
    } else {
        (clean, out)
    }
}

/// Once the video has begun, each of its keyframes renews the groups of the audio that follows it:
/// where one is open, it is finished and the next one opened, in that order, and that is open
/// afterwards. So it is whichever track the keyframe is of, and whatever group it is assigned to.
/// Such audio without an open group is asked for nothing, and stays as it is.
pub proof fn law_keyframe_renews_audio(
    p: BroadcastView,
    out: OutboxView,
    id: TrackId,
    data: Seq<u8>,
    group_id: Option<u64>,
    meta: CmsfMetadata,
    j: int,
)
    requires
        id.0 < p.tracks.len(),
        p.tracks[id.0 as int].state.kind == TrackKind::Video,
        p.tracks[id.0 as int].state.keyframe_sap == SapType::Type1
            || p.tracks[id.0 as int].state.keyframe_sap == SapType::Type2,
        meta.is_keyframe,
        p.first_video_group,
        p.write(out, id, data, group_id, meta).2 is Ok,
        0 <= j < p.tracks.len(),
        follows(p.tracks[j].state),
    ensures
        ({
            let (q, o, _) = p.write(out, id, data, group_id, meta);
            let t = p.tracks[j].state;
            &&& t.open ==> q.tracks[j].state.open
            &&& t.open ==> exists|n: int|
                out.sent.len() <= n && #[trigger] renews(o.sent, n, t.track)
            &&& !t.open ==> q.tracks[j] == p.tracks[j]
            &&& !t.open && all_differ(p) ==> forall|n: int|
                out.sent.len() <= n < o.sent.len() ==> !concerns(#[trigger] o.sent[n], t.track)
        }),
{
    let i = id.0 as int;
    let lead = p.tracks[i].state;
    let (state, o1, res1) = lead.write_leading(out, meta, data, group_id);
    lemma_leading_asks(lead, out, meta, data, group_id);
    let next = p.with_state(i, state);
    let jitter = lead.lowers_jitter(meta.pts);
    let s = next.tracks[i].state;
    let clean = next.with_state(i, TrackState { sap_dirty: false, ..s });
    let (known, o2) = told(next, o1, i, jitter);
    lemma_publish_asks(clean, o1);
    lemma_extends_trans(out, o1, o2);
    let (q, o, res) = known.rotate(o2, 0);
    assert(p.write(out, id, data, group_id, meta) == (q, o, res));
    lemma_rotation_asks(known, o2, 0);
    lemma_extends_trans(out, o2, o);
    let t = p.tracks[j].state;
    assert(known.tracks[j] == p.tracks[j]);
    if t.open {
        let n = choose|n: int|
            o2.sent.len() <= n && #[trigger] renews(o.sent, n, known.tracks[j].state.track);
        assert(renews(o.sent, n, t.track));
    } else if all_differ(p) {
        assert forall|n: int| out.sent.len() <= n < o.sent.len() implies !concerns(
            #[trigger] o.sent[n],
            t.track,
        ) by {
            if n < o1.sent.len() {
                assert(o2.sent[n] == o1.sent[n]);
                assert(o.sent[n] == o2.sent[n]);
                if concerns(o1.sent[n], t.track) {
                    assert(t.track == lead.track);
                    assert(p.tracks[i].state.track == p.tracks[j].state.track);
                }
            } else if n < o2.sent.len() {
                assert(o.sent[n] == o2.sent[n]);
                if concerns(o2.sent[n], t.track) {
                    assert(p.tracks[j].state.track != p.msf_track);
                }
            } else if concerns(o.sent[n], t.track) {
                assert(to_follower(o.sent[n], known));
                let k = choose|k: int|
                    0 <= k < known.tracks.len() && follows(known.tracks[k].state)
                        && known.tracks[k].state.open && #[trigger] concerns(
                        o.sent[n],
                        known.tracks[k].state.track,
                    );
                assert(known.tracks[k].state.track == t.track);
                if k != i {
                    assert(known.tracks[k] == p.tracks[k]);
                }
                assert(k != j);
                assert(p.tracks[k].state.track == p.tracks[j].state.track);
            }
        }
    }
}

/// Audio that follows the video and has a group open is written to it, and nothing else is asked
/// for, once the video has begun; where none is open the next one is opened first.
pub proof fn law_audio_joins_its_group(
    p: BroadcastView,
    out: OutboxView,
    id: TrackId,
    data: Seq<u8>,
    meta: CmsfMetadata,
)
    requires
        id.0 < p.tracks.len(),
        follows(p.tracks[id.0 as int].state),
        p.has_video_track,
        p.first_video_group,
    ensures
        ({
            let t = p.tracks[id.0 as int].state;
            let (q, o, res) = p.write(out, id, data, None, meta);
            let frame = ActionView::WriteFrame { track: t.track, data };
            &&& t.open ==> o.sent == out.sent.push(frame)
            &&& t.open ==> (res is Ok <==> !out.refuses())
            &&& !t.open && res is Ok ==> o.sent == out.sent.push(
                ActionView::AppendGroup { track: t.track },
            ).push(frame) && q.tracks[id.0 as int].state.open
            &&& q.audio_buffer == p.audio_buffer
            &&& q.tracks.len() == p.tracks.len()
            &&& forall|k: int|
                0 <= k < p.tracks.len() && k != id.0 ==> #[trigger] q.tracks[k] == p.tracks[k]
        }),
{
}

/// An object of a leading track that is no keyframe, and is assigned to no group, goes on in the
/// open one: it is written unchanged, and the group stays open.
pub proof fn law_delta_goes_on(t: TrackState, out: OutboxView, meta: CmsfMetadata, data: Seq<u8>)
    requires
        t.open,
        !meta.is_keyframe,
    ensures
        ({
            let (s, o, res) = t.write_leading(out, meta, data, None);
            &&& o.sent == out.sent.push(ActionView::WriteFrame { track: t.track, data })
            &&& res is Ok <==> !out.refuses()
            &&& s.open
            &&& s.media_group_id == t.media_group_id
            &&& s.max_grp_sap == t.max_grp_sap
        }),
{
}

/// What is written is accepted where the transport takes it: a keyframe of a leading track without
/// assigned groups, whatever was written before.
pub proof fn law_keyframe_is_accepted(
    t: TrackState,
    out: OutboxView,
    meta: CmsfMetadata,
    data: Seq<u8>,
)
    requires
        meta.is_keyframe,
        t.keyframe_sap == SapType::Type1 || t.keyframe_sap == SapType::Type2,
        forall|n: int| out.sent.len() <= n < out.refused.len() ==> !#[trigger] out.refused[n],
    ensures
        t.write_leading(out, meta, data, None).2 is Ok,
        t.write_following(out, meta, data).2 is Ok,
{
}

/// Frames that are written in order.
pub open spec fn in_order(sent: Seq<ActionView>, at: Seq<int>, from: int) -> bool {
    &&& forall|k: int| 0 <= k < at.len() ==> from <= #[trigger] at[k] < sent.len()
    &&& forall|k: int, l: int| 0 <= k < l < at.len() ==> #[trigger] at[k] < #[trigger] at[l]
}

/// Whether the frames at these places are those of the objects.
pub open spec fn writes(
    sent: Seq<ActionView>,
    at: Seq<int>,
    items: Seq<BufferedView>,
    p: BroadcastView,
) -> bool {
    &&& at.len() == items.len()
    &&& forall|k: int|
        0 <= k < items.len() ==> items[k].track.0 < p.tracks.len() && sent[#[trigger] at[k]] == (
        ActionView::WriteFrame {
            track: p.tracks[items[k].track.0 as int].state.track,
            data: items[k].data,
        })
}

/// What was buffered is written in order.
proof fn lemma_flush_asks(p: BroadcastView, out: OutboxView, items: Seq<BufferedView>)
    ensures
        ({
            let (q, o, res) = p.flush(out, items);
            &&& extends(out, o)
            &&& q.tracks.len() == p.tracks.len()
            &&& res is Ok ==> exists|at: Seq<int>|
                #[trigger] in_order(o.sent, at, out.sent.len() as int) && writes(
                    o.sent,
                    at,
                    items,
                    p,
                )
        }),
    decreases items.len(),
{
    let (q, o, res) = p.flush(out, items);
    if items.len() == 0 {
        let at = Seq::<int>::empty();
        assert(in_order(o.sent, at, out.sent.len() as int));
        assert(writes(o.sent, at, items, p));
    } else {
        let i = items[0].track.0 as int;
        if i < p.tracks.len() {
            let t = p.tracks[i].state;
            let (state, o1, res1) = t.write_following(out, items[0].meta, items[0].data);
            let next = p.with_state(i, state);
            assert(extends(out, o1));
            assert(state.track == t.track);
            if res1 is Ok {
                let m = o1.sent.len() - 1;
                assert(o1.sent[m] == (ActionView::WriteFrame { track: t.track, data: items[0].data }));
                lemma_flush_asks(next, o1, items.skip(1));
                lemma_extends_trans(out, o1, o);
                if res is Ok {
                    let rest = choose|at: Seq<int>|
                        #[trigger] in_order(o.sent, at, o1.sent.len() as int) && writes(
                            o.sent,
                            at,
                            items.skip(1),
                            next,
                        );
                    let at = seq![m] + rest;
                    assert forall|k: int| 0 <= k < at.len() implies out.sent.len()
                        <= #[trigger] at[k] < o.sent.len() by {
                        if k > 0 {
                            assert(at[k] == rest[k - 1]);
                        }
                    }
                    assert forall|k: int, l: int| 0 <= k < l < at.len() implies #[trigger] at[k]
                        < #[trigger] at[l] by {
                        assert(at[l] == rest[l - 1]);
                        if k > 0 {
                            assert(at[k] == rest[k - 1]);
                        }
                    }
                    assert(in_order(o.sent, at, out.sent.len() as int));
                    assert forall|k: int| 0 <= k < items.len() implies items[k].track.0
                        < p.tracks.len() && o.sent[#[trigger] at[k]] == (ActionView::WriteFrame {
                        track: p.tracks[items[k].track.0 as int].state.track,
                        data: items[k].data,
                    }) by {
                        if k == 0 {
                            assert(o.sent[m] == o1.sent[m]);
                        } else {
                            assert(items.skip(1)[k - 1] == items[k]);
                            assert(at[k] == rest[k - 1]);
                            let x = items[k].track.0 as int;
                            assert(next.tracks[x].state.track == p.tracks[x].state.track);
                        }
                    }
                    assert(writes(o.sent, at, items, p));
                }
            }
        }
    }
}

/// The first keyframe of the video lets go of all audio that waited for it: every object is
/// written to its track, unchanged and in the order in which they came.
pub proof fn law_waiting_audio_is_written(
    p: BroadcastView,
    out: OutboxView,
    id: TrackId,
    data: Seq<u8>,
    group_id: Option<u64>,
    meta: CmsfMetadata,
)
    requires
        id.0 < p.tracks.len(),
        p.tracks[id.0 as int].state.kind == TrackKind::Video,
        p.tracks[id.0 as int].state.keyframe_sap == SapType::Type1
            || p.tracks[id.0 as int].state.keyframe_sap == SapType::Type2,
        meta.is_keyframe,
        !p.first_video_group,
        p.write(out, id, data, group_id, meta).2 is Ok,
    ensures
        ({
            let o = p.write(out, id, data, group_id, meta).1;
            exists|at: Seq<int>|
                #[trigger] in_order(o.sent, at, out.sent.len() as int) && writes(
                    o.sent,
                    at,
                    p.audio_buffer,
                    p,
                )
        }),
{
    let i = id.0 as int;
    let lead = p.tracks[i].state;
    let (state, o1, res1) = lead.write_leading(out, meta, data, group_id);
    lemma_leading_asks(lead, out, meta, data, group_id);
    let next = p.with_state(i, state);
    let jitter = lead.lowers_jitter(meta.pts);
    let s = next.tracks[i].state;
    let clean = next.with_state(i, TrackState { sap_dirty: false, ..s });
    let (known, o2) = told(next, o1, i, jitter);
    lemma_publish_asks(clean, o1);
    lemma_extends_trans(out, o1, o2);
    let begun = BroadcastView {
        first_video_group: true,
        audio_buffer: Seq::empty(),
        ..known
    };
    let (q, o, res) = begun.flush(o2, known.audio_buffer);
    assert(p.write(out, id, data, group_id, meta) == (q, o, res));
    lemma_flush_asks(begun, o2, p.audio_buffer);
    let at = choose|at: Seq<int>|
        #[trigger] in_order(o.sent, at, o2.sent.len() as int) && writes(
            o.sent,
            at,
            p.audio_buffer,
            begun,
        );
    assert forall|k: int| 0 <= k < at.len() implies out.sent.len() <= #[trigger] at[k]
        < o.sent.len() by {
        assert(o2.sent.len() <= at[k]);
    }
    assert(in_order(o.sent, at, out.sent.len() as int));
    assert forall|k: int| 0 <= k < p.audio_buffer.len() implies p.audio_buffer[k].track.0
        < p.tracks.len() && o.sent[#[trigger] at[k]] == (ActionView::WriteFrame {
        track: p.tracks[p.audio_buffer[k].track.0 as int].state.track,
        data: p.audio_buffer[k].data,
    }) by {
        let x = p.audio_buffer[k].track.0 as int;
        assert(begun.tracks[x].state.track == p.tracks[x].state.track);
    }
    assert(writes(o.sent, at, p.audio_buffer, p));
}

/// All tracks are finished, and behind them the catalogs.
proof fn lemma_finish_asks(p: BroadcastView, out: OutboxView, i: nat)
    ensures
        ({
            let (q, o, res) = p.finish(out, i);
            &&& extends(out, o)
            &&& q.tracks.len() == p.tracks.len()
            &&& forall|j: int| 0 <= j < i && j < p.tracks.len() ==> #[trigger] q.tracks[j]
                == p.tracks[j]
            &&& res is Ok ==> forall|j: int|
                i <= j < p.tracks.len() ==> !(#[trigger] q.tracks[j]).state.open && exists|n: int|
                    {
                        &&& out.sent.len() <= n < o.sent.len()
                        &&& #[trigger] ends(o.sent, n, p.tracks[j].state)
                    }
            &&& res is Ok && p.hang_track is None ==> o.sent.last() == (ActionView::FinishTrack {
                track: p.msf_track,
            })
            &&& res is Ok && p.hang_track is Some ==> o.sent.len() >= 2 && o.sent[o.sent.len() - 2]
                == (ActionView::FinishTrack { track: p.msf_track }) && o.sent.last() == (
            ActionView::FinishTrack { track: p.hang_track->Some_0 })
            &&& res is Ok ==> o.sent.len() > 0
        }),
    decreases p.tracks.len() - i,
{
    let (q, o, res) = p.finish(out, i);
    if i < p.tracks.len() {
        let t = p.tracks[i as int].state;
        let (state, o1, res1) = t.finish(out);
        let next = p.with_state(i as int, state);
        assert(extends(out, o1));
        if res1 is Ok {
            lemma_finish_asks(next, o1, i + 1);
            lemma_extends_trans(out, o1, o);
            let m = o1.sent.len() - 1;
            assert(o.sent[m] == o1.sent[m]);
            if t.open {
                assert(o.sent[m - 1] == o1.sent[m - 1]);
            }
            assert(ends(o.sent, m, t));
            assert forall|j: int| 0 <= j < i && j < p.tracks.len() implies #[trigger] q.tracks[j]
                == p.tracks[j] by {
                assert(next.tracks[j] == p.tracks[j]);
            }
            assert(q.tracks[i as int] == next.tracks[i as int]);
            if res is Ok {
                assert forall|j: int| i <= j < p.tracks.len() implies !(
                #[trigger] q.tracks[j]).state.open && exists|n: int|
                    {
                        &&& out.sent.len() <= n < o.sent.len()
                        &&& #[trigger] ends(o.sent, n, p.tracks[j].state)
                    } by {
                    if j > i {
                        assert(next.tracks[j] == p.tracks[j]);
                        let n = choose|n: int|
                            {
                                &&& o1.sent.len() <= n < o.sent.len()
                                &&& #[trigger] ends(o.sent, n, next.tracks[j].state)
                            };
                        assert(ends(o.sent, n, p.tracks[j].state));
                    }
                }
            }
        }
    }
}

/// Whether request `n` ends a track, right behind the end of the group that was open, if one was.
pub open spec fn ends(sent: Seq<ActionView>, n: int, t: TrackState) -> bool {
    &&& sent[n] == (ActionView::FinishTrack { track: t.track })
    &&& t.open ==> n > 0 && sent[n - 1] == (ActionView::FinishGroup { track: t.track })
}

/// A broadcast that is finished has finished every one of its tracks, each with its open group, and
/// at the end those of the catalogs.
pub proof fn law_finish_ends_everything(p: BroadcastView, out: OutboxView, j: int)
    requires
        p.finish(out, 0).2 is Ok,
        0 <= j < p.tracks.len(),
    ensures
        ({
            let (q, o, _) = p.finish(out, 0);
            &&& !q.tracks[j].state.open
            &&& exists|n: int|
                {
                    &&& out.sent.len() <= n < o.sent.len()
                    &&& #[trigger] ends(o.sent, n, p.tracks[j].state)
                }
            &&& p.hang_track is None ==> o.sent.last() == (ActionView::FinishTrack {
                track: p.msf_track,
            })
            &&& p.hang_track is Some ==> o.sent[o.sent.len() - 2] == (ActionView::FinishTrack {
                track: p.msf_track,
            }) && o.sent.last() == (ActionView::FinishTrack { track: p.hang_track->Some_0 })
        }),
{
    lemma_finish_asks(p, out, 0);
    let (q, o, _) = p.finish(out, 0);
    assert(!q.tracks[j].state.open);
}

/// What follows an object of a leading track only adds requests, and no track.
pub proof fn lemma_led_extends(
    p: BroadcastView,
    out: OutboxView,
    i: int,
    meta: CmsfMetadata,
    jitter: bool,
)
    requires
        0 <= i < p.tracks.len(),
    ensures
        extends(out, p.led(out, i, meta, jitter).1),
        p.led(out, i, meta, jitter).0.tracks.len() == p.tracks.len(),
{
    let t = p.tracks[i].state;
    let clean = p.with_state(i, TrackState { sap_dirty: false, ..t });
    lemma_publish_asks(clean, out);
    let (told, o) = if t.sap_dirty || (jitter && t.jitter is Some) {
        clean.publish(out)
    } else {
        (clean, out)
    };
    let released = BroadcastView {
        first_video_group: true,
        audio_buffer: Seq::empty(),
        ..told
    };
    lemma_flush_asks(released, o, told.audio_buffer);
    lemma_rotation_asks(told, o, 0);
    lemma_extends_trans(out, o, p.led(out, i, meta, jitter).1);
}

/// What a keyframe of the video asks for once the catalogs were published is only added.
pub proof fn lemma_told_extends(told: BroadcastView, out: OutboxView)
    ensures
        extends(out, told.rotate(out, 0).1),
        extends(
            out,
            (BroadcastView {
                first_video_group: true,
                audio_buffer: Seq::empty(),
                ..told
            }).flush(out, told.audio_buffer).1,
        ),
{
    lemma_rotation_asks(told, out, 0);
    lemma_flush_asks(
        BroadcastView { first_video_group: true, audio_buffer: Seq::empty(), ..told },
        out,
        told.audio_buffer,
    );
}

} // verus!
