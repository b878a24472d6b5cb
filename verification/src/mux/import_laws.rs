//! What holds of every frame that an import writes.

use crate::mux::config::{audio_config, video_config};
use crate::mux::fmp4::{
    from_scale, listed_at, place_of, required, write_frame, ConfigView, Fmp4Inner, Fmp4Track,
    Fmp4View, ListedView, Times,
};
use crate::mux::fragment::{fragment_of, FragmentView, ParseErrorView, SampleInfo};
use crate::mux::group_laws::{extends, in_order};
use crate::mux::leaf::head;
use crate::mux::mp4::{atom_at, is_atom, moof_at, moov_at, AtomKind, MoovView, TrafView};
use crate::mux::outbox::{ActionView, OutboxView};
use crate::mux::parser::{
    atom_step, decode_all, extract, feed_all, init_all, kind_of, Fmp4Sink, ImportErrorView,
    ParserView,
};
use crate::mux::types::{MuxErrorView, TrackKind};
use vstd::prelude::*;

verus! {

/// Whether the next `n` requests are not refused.
pub open spec fn grants(out: OutboxView, n: nat) -> bool {
    forall|k: int|
        out.sent.len() <= k < out.sent.len() + n && k < out.refused.len() ==> !(
        #[trigger] out.refused[k])
}

/// A keyframe begins a group: the one that is open is finished, another is appended, and the frame
/// is written to it, which stays open.
pub proof fn law_keyframe_begins_a_group(t: Fmp4Track, out: OutboxView, data: Seq<u8>)
    requires
        grants(out, 3),
    ensures
        ({
            let (u, o, res) = write_frame(t, out, false, true, data);
            &&& res is Ok
            &&& u == (Fmp4Track { open: true, ..t })
            &&& t.open ==> o.sent == out.sent + seq![
                ActionView::FinishGroup { track: t.track },
                ActionView::AppendGroup { track: t.track },
                ActionView::WriteFrame { track: t.track, data },
            ]
            &&& !t.open ==> o.sent == out.sent + seq![
                ActionView::AppendGroup { track: t.track },
                ActionView::WriteFrame { track: t.track, data },
            ]
        }),
{
    let n = out.sent.len() as int;
    assert(n < out.refused.len() ==> !out.refused[n]);
    assert(n + 1 < out.refused.len() ==> !out.refused[n + 1]);
    assert(n + 2 < out.refused.len() ==> !out.refused[n + 2]);
}

/// A frame that is no keyframe, or whose group the caller chose, goes into the open group and
/// nothing else happens.
pub proof fn law_frame_joins_its_group(
    t: Fmp4Track,
    out: OutboxView,
    explicit: bool,
    keyframe: bool,
    data: Seq<u8>,
)
    requires
        explicit || !keyframe,
        t.open,
        grants(out, 1),
    ensures
        write_frame(t, out, explicit, keyframe, data).0 == t,
        write_frame(t, out, explicit, keyframe, data).1.sent == out.sent.push(
            ActionView::WriteFrame { track: t.track, data },
        ),
        write_frame(t, out, explicit, keyframe, data).2 is Ok,
{
    let n = out.sent.len() as int;
    assert(n < out.refused.len() ==> !out.refused[n]);
}

/// Without an open group such a frame is refused, and nothing is asked for: a track starts with a
/// keyframe, or with a group that the caller started.
pub proof fn law_frame_needs_a_group(
    t: Fmp4Track,
    out: OutboxView,
    explicit: bool,
    keyframe: bool,
    data: Seq<u8>,
)
    requires
        explicit || !keyframe,
        !t.open,
    ensures
        ({
            let (u, o, res) = write_frame(t, out, explicit, keyframe, data);
            &&& u == t
            &&& o == out
            &&& res is Err
            &&& explicit ==> res->Err_0 is NoActiveGroup
            &&& !explicit ==> res->Err_0 is NoKeyframe
        }),
{
}

/// A frame is written exactly if the call succeeds, and then it is the last thing that was asked
/// for; if the transport refuses anything, no group stays open. No other track is asked for.
pub proof fn law_frame_is_written(
    t: Fmp4Track,
    out: OutboxView,
    explicit: bool,
    keyframe: bool,
    data: Seq<u8>,
)
    ensures
        ({
            let (u, o, res) = write_frame(t, out, explicit, keyframe, data);
            &&& extends(out, o)
            &&& o.refused == out.refused
            &&& res is Ok ==> o.sent.len() > out.sent.len() && o.sent.last() == (
            ActionView::WriteFrame { track: t.track, data }) && u.open
            &&& res is Err && o != out ==> !u.open && res->Err_0 == ImportErrorView::Mux(
                MuxErrorView::Refused,
            )
            &&& u == (Fmp4Track { open: u.open, ..t })
        }),
{
}

/// A time in microseconds is the last whole one that is not after the time that was told; it is
/// refused exactly if time is not counted, or if 62 bits do not hold it.
pub proof fn law_times_are_exact(pts: u64, timescale: u64)
    ensures
        from_scale(pts, timescale) is Some ==> {
            let t = from_scale(pts, timescale)->Some_0;
            &&& timescale > 0
            &&& t <= 0x3fff_ffff_ffff_ffff
            &&& t * timescale <= pts * 1_000_000 < (t + 1) * timescale
        },
        timescale > 0 && pts * 1_000_000 < 0x4000_0000_0000_0000 * timescale ==> from_scale(
            pts,
            timescale,
        ) is Some,
        timescale == 0 || pts * 1_000_000 >= 0x4000_0000_0000_0000 * timescale ==> from_scale(
            pts,
            timescale,
        ) is None,
{
    if timescale > 0 {
        let n = pts as int * 1_000_000;
        let s = timescale as int;
        let t = n / s;
        vstd::arithmetic::div_mod::lemma_fundamental_div_mod(n, s);
        vstd::arithmetic::div_mod::lemma_mod_bound(n, s);
        assert(t * s <= n < (t + 1) * s) by (nonlinear_arith)
            requires
                n == s * t + n % s,
                0 <= n % s < s,
        ;
        assert(t >= 0) by (nonlinear_arith)
            requires
                n >= 0,
                s > 0,
                n < (t + 1) * s,
        ;
        if n < 0x4000_0000_0000_0000 * s {
            assert(t < 0x4000_0000_0000_0000) by (nonlinear_arith)
                requires
                    t * s <= n,
                    n < 0x4000_0000_0000_0000 * s,
                    s > 0,
            ;
        } else {
            assert(t >= 0x4000_0000_0000_0000) by (nonlinear_arith)
                requires
                    n < (t + 1) * s,
                    n >= 0x4000_0000_0000_0000 * s,
                    s > 0,
            ;
        }
    }
}

/// The time of a sample, in microseconds.
pub open spec fn time_of(samples: Seq<SampleInfo>, k: int) -> u64 {
    from_scale(samples[k].pts, samples[k].timescale)->Some_0
}

/// The time that sample `k` follows on: that of the sample before it, or the last of the fragment
/// before.
pub open spec fn before(t: Fmp4Track, samples: Seq<SampleInfo>, k: int) -> Option<u64> {
    if k == 0 {
        t.last_timestamp
    } else {
        Some(time_of(samples, k - 1))
    }
}

/// Whether the times of the first `n` samples were noted: the earliest and the latest, which are
/// times of samples, the last, and a distance that is not above that of any sample from the one
/// before it.
pub open spec fn noted(from: Fmp4Track, to: Times, samples: Seq<SampleInfo>, n: nat) -> bool {
    let least = to.track.min_duration;
    &&& n == 0 ==> to.min is None && to.max is None && to.track == from
    &&& n > 0 ==> {
        &&& to.min is Some
        &&& to.max is Some
        &&& exists|k: int| 0 <= k < n && #[trigger] time_of(samples, k) == to.min->Some_0
        &&& exists|k: int| 0 <= k < n && #[trigger] time_of(samples, k) == to.max->Some_0
        &&& to.track.last_timestamp == Some(time_of(samples, n - 1))
    }
    &&& forall|k: int|
        0 <= k < n ==> to.min->Some_0 <= #[trigger] time_of(samples, k) <= to.max->Some_0
    &&& from.min_duration is Some ==> least is Some && least->Some_0 <= from.min_duration->Some_0
    &&& forall|k: int|
        0 <= k < n && (#[trigger] before(from, samples, k)) is Some && before(
            from,
            samples,
            k,
        )->Some_0 <= time_of(samples, k) && time_of(samples, k) - before(from, samples, k)->Some_0
            < 0x3fff_ffff_ffff_ffff ==> least is Some && least->Some_0 <= time_of(samples, k)
            - before(from, samples, k)->Some_0
    &&& least == from.min_duration || exists|k: int|
        0 <= k < n && (#[trigger] before(from, samples, k)) is Some && least is Some
            && least->Some_0 == time_of(samples, k) - before(from, samples, k)->Some_0
}

proof fn lemma_noted(from: Fmp4Track, to: Times, samples: Seq<SampleInfo>, n: nat)
    requires
        n <= samples.len(),
        noted(from, to, samples, n),
        forall|k: int|
            0 <= k < n ==> from_scale((#[trigger] samples[k]).pts, samples[k].timescale) is Some,
        to.see_all(samples, n).1,
    ensures
        noted(from, to.see_all(samples, n).0, samples, samples.len()),
        forall|k: int|
            0 <= k < samples.len() ==> from_scale(
                (#[trigger] samples[k]).pts,
                samples[k].timescale,
            ) is Some,
    decreases samples.len() - n,
{
    if n < samples.len() {
        let t = from_scale(samples[n as int].pts, samples[n as int].timescale)->Some_0;
        let next = to.see(t);
        assert(time_of(samples, n as int) == t);
        assert(before(from, samples, n as int) == to.track.last_timestamp);
        let lo = next.min->Some_0;
        let hi = next.max->Some_0;
        if n > 0 {
            let a = choose|k: int| 0 <= k < n && #[trigger] time_of(samples, k) == to.min->Some_0;
            let b = choose|k: int| 0 <= k < n && #[trigger] time_of(samples, k) == to.max->Some_0;
            assert(time_of(samples, a) == to.min->Some_0);
            assert(time_of(samples, b) == to.max->Some_0);
        }
        assert(exists|k: int| 0 <= k < n + 1 && #[trigger] time_of(samples, k) == lo);
        assert(exists|k: int| 0 <= k < n + 1 && #[trigger] time_of(samples, k) == hi);
        let least = next.track.min_duration;
        assert(least == from.min_duration || exists|k: int|
            0 <= k < n + 1 && (#[trigger] before(from, samples, k)) is Some && least is Some
                && least->Some_0 == time_of(samples, k) - before(from, samples, k)->Some_0) by {
            if least == to.track.min_duration {
                if least != from.min_duration {
                    let k = choose|k: int|
                        0 <= k < n && (#[trigger] before(from, samples, k)) is Some && least is Some
                            && least->Some_0 == time_of(samples, k) - before(
                            from,
                            samples,
                            k,
                        )->Some_0;
                    assert(before(from, samples, k) is Some);
                }
            } else {
                assert(before(from, samples, n as int) is Some);
            }
        }
        assert(noted(from, next, samples, n + 1));
        lemma_noted(from, next, samples, n + 1);
    }
}

/// Of a fragment the earliest and the latest of the times of its samples are known, the last of
/// them is remembered, and the distance that is remembered is the least that was met, here or
/// before.
pub proof fn law_times_are_noted(t: Fmp4Track, samples: Seq<SampleInfo>)
    requires
        (Times { track: t, min: None, max: None }).see_all(samples, 0).1,
    ensures
        noted(
            t,
            (Times { track: t, min: None, max: None }).see_all(samples, 0).0,
            samples,
            samples.len(),
        ),
{
    lemma_noted(t, Times { track: t, min: None, max: None }, samples, 0);
}

/// What a fragment needs buffered is what lies between its first and its last moment, and one
/// distance more.
pub proof fn law_buffer_spans_the_fragment(times: Times)
    ensures
        required(times) is Some <==> times.min is Some && times.max is Some
            && times.track.min_duration is Some,
        required(times) is Some && times.min->Some_0 <= times.max->Some_0 ==> required(times)->Some_0
            + times.min->Some_0 == times.max->Some_0 + times.track.min_duration->Some_0,
{
}

/// Where a track of the catalog stands.
proof fn lemma_listed(catalog: Seq<ListedView>, track: usize, i: nat)
    requires
        i <= catalog.len(),
    ensures
        match listed_at(catalog, track, i) {
            Some(k) => i <= k < catalog.len() && catalog[k as int].track == track && forall|j: int|
                i <= j < k ==> (#[trigger] catalog[j]).track != track,
            None => forall|j: int| i <= j < catalog.len() ==> (#[trigger] catalog[j]).track != track,
        },
    decreases catalog.len() - i,
{
    if i < catalog.len() && catalog[i as int].track != track {
        lemma_listed(catalog, track, i + 1);
    }
}

/// The jitter that a description has, in milliseconds.
pub open spec fn jitter_of(c: ConfigView) -> Option<u64> {
    match c {
        ConfigView::Video(v) => v.jitter,
        ConfigView::Audio(a) => a.jitter,
    }
}

/// After a fragment the jitter of its track is the least that any fragment needed, and its entry
/// in the catalog says as much, in whole milliseconds. No other entry changes, and nothing else of
/// this one.
pub proof fn law_jitter_is_the_least(v: Fmp4View, i: int, jitter: nat)
    requires
        0 <= i < v.tracks.len(),
        jitter < 0x3fff_ffff_ffff_ffff,
    ensures
        ({
            let (w, res) = v.lower_jitter(i, jitter);
            let had = v.tracks[i].jitter;
            let is_lower = had is None || jitter < had->Some_0;
            &&& w.tracks.len() == v.tracks.len()
            &&& w.catalog.len() == v.catalog.len()
            &&& w.tracks[i].jitter is Some
            &&& is_lower ==> w.tracks[i].jitter->Some_0 == jitter
            &&& !is_lower ==> w == v
            &&& w.tracks[i] == (Fmp4Track { jitter: w.tracks[i].jitter, ..v.tracks[i] })
            &&& forall|j: int|
                0 <= j < v.tracks.len() && j != i ==> #[trigger] w.tracks[j] == v.tracks[j]
            &&& forall|k: int|
                0 <= k < v.catalog.len() && v.catalog[k].track != v.tracks[i].track
                    ==> #[trigger] w.catalog[k] == v.catalog[k]
            &&& is_lower && res is Ok ==> exists|k: int|
                {
                    &&& 0 <= k < w.catalog.len()
                    &&& (#[trigger] w.catalog[k]).track == v.tracks[i].track
                    &&& v.catalog[k].track == v.tracks[i].track
                    &&& jitter_of(w.catalog[k].config) is Some
                    &&& jitter_of(w.catalog[k].config)->Some_0 * 1000 <= jitter < (jitter_of(
                        w.catalog[k].config,
                    )->Some_0 + 1) * 1000
                    &&& w.catalog[k].config == v.catalog[k].config.with_jitter(
                        jitter_of(w.catalog[k].config)->Some_0,
                    )
                }
            &&& res is Err ==> res->Err_0 == ImportErrorView::MissingConfig(v.tracks[i].kind)
                && forall|k: int|
                0 <= k < v.catalog.len() ==> (#[trigger] v.catalog[k]).track != v.tracks[i].track
        }),
{
    lemma_listed(v.catalog, v.tracks[i].track, 0);
    let (w, res) = v.lower_jitter(i, jitter);
    if let Some(k) = listed_at(v.catalog, v.tracks[i].track, 0) {
        let had = v.tracks[i].jitter;
        if had is None || jitter < had->Some_0 {
            assert(w.catalog[k as int].track == v.tracks[i].track);
        }
    }
}

/// A description with another jitter says the same otherwise.
pub proof fn law_only_jitter_changes(c: ConfigView, ms: u64)
    ensures
        jitter_of(c.with_jitter(ms)) == Some(ms),
        c is Video <==> c.with_jitter(ms) is Video,
        c is Video ==> {
            let (a, b) = (c->Video_0, c.with_jitter(ms)->Video_0);
            &&& a.codec == b.codec
            &&& a.description == b.description
            &&& a.coded_width == b.coded_width
            &&& a.coded_height == b.coded_height
            &&& a.bitrate == b.bitrate
            &&& a.framerate == b.framerate
            &&& a.container == b.container
        },
        c is Audio ==> {
            let (a, b) = (c->Audio_0, c.with_jitter(ms)->Audio_0);
            &&& a.codec == b.codec
            &&& a.description == b.description
            &&& a.sample_rate == b.sample_rate
            &&& a.channel_count == b.channel_count
            &&& a.bitrate == b.bitrate
            &&& a.container == b.container
        },
{
}

proof fn lemma_place(tracks: Seq<Fmp4Track>, id: u32, i: nat)
    requires
        i <= tracks.len(),
    ensures
        match place_of(tracks, id, i) {
            Some(k) => i <= k < tracks.len() && tracks[k as int].id == id && forall|j: int|
                i <= j < k ==> (#[trigger] tracks[j]).id != id,
            None => forall|j: int| i <= j < tracks.len() ==> (#[trigger] tracks[j]).id != id,
        },
    decreases tracks.len() - i,
{
    if i < tracks.len() && tracks[i as int].id != id {
        lemma_place(tracks, id, i + 1);
    }
}

/// A track that is announced is created under the next number and a name that ends as fragments
/// do, is listed with the description of its kind, and has no group, no jitter and no times yet.
pub proof fn law_announced_track(
    v: Fmp4View,
    out: OutboxView,
    kind: TrackKind,
    raw: Seq<u8>,
    moov: MoovView,
    index: nat,
)
    requires
        index < moov.trak.len(),
        v.init(out, kind, raw, moov, index).2 is Ok,
    ensures
        ({
            let (w, o, _res) = v.init(out, kind, raw, moov, index);
            let listed = w.catalog.last();
            &&& o.sent == out.sent.push(
                ActionView::UniqueTrack { track: v.next_track, suffix: ".m4s"@ },
            )
            &&& w.next_track == v.next_track + 1
            &&& w.explicit_groups == v.explicit_groups
            &&& v.tracks.len() <= w.tracks.len() <= v.tracks.len() + 1
            &&& w.catalog.drop_last() == v.catalog
            &&& w.catalog.len() == v.catalog.len() + 1
            &&& listed.track == v.next_track
            &&& kind == TrackKind::Video ==> listed.config is Video && Ok::<_, ImportErrorView>(
                listed.config->Video_0,
            ) == video_config(raw, moov, index)
            &&& kind == TrackKind::Audio ==> listed.config is Audio && Ok::<_, ImportErrorView>(
                listed.config->Audio_0,
            ) == audio_config(raw, moov, index)
            &&& exists|k: int|
                {
                    &&& 0 <= k < w.tracks.len()
                    &&& (#[trigger] w.tracks[k]).id == moov.trak[index as int].track_id
                    &&& w.tracks[k].kind == kind
                    &&& w.tracks[k].track == v.next_track
                    &&& !w.tracks[k].open
                    &&& w.tracks[k].jitter is None
                    &&& w.tracks[k].last_timestamp is None
                    &&& w.tracks[k].min_duration is None
                }
            &&& forall|k: int|
                0 <= k < v.tracks.len() && v.tracks[k].id != moov.trak[index as int].track_id
                    ==> #[trigger] w.tracks[k] == v.tracks[k]
        }),
{
    let id = moov.trak[index as int].track_id;
    lemma_place(v.tracks, id, 0);
    let (w, o, _res) = v.init(out, kind, raw, moov, index);
    assert(w.catalog.drop_last() =~= v.catalog);
    match place_of(v.tracks, id, 0) {
        Some(k) => {
            assert(w.tracks[k as int].id == id);
        },
        None => {
            assert(w.tracks[v.tracks.len() as int].id == id);
        },
    }
}

/// A track that can be described, and that the transport does not refuse, is announced.
pub proof fn law_announcement_is_owed(
    v: Fmp4View,
    out: OutboxView,
    kind: TrackKind,
    raw: Seq<u8>,
    moov: MoovView,
    index: nat,
)
    requires
        grants(out, 1),
        v.next_track < usize::MAX,
    ensures
        v.init(out, kind, raw, moov, index).2 is Ok <==> match kind {
            TrackKind::Video => video_config(raw, moov, index) is Ok,
            TrackKind::Audio => audio_config(raw, moov, index) is Ok,
        },
{
    let n = out.sent.len() as int;
    assert(n < out.refused.len() ==> !out.refused[n]);
}

/// Whether two states have the same tracks, but for their groups and times.
pub open spec fn same_tracks(a: Seq<Fmp4Track>, b: Seq<Fmp4Track>) -> bool {
    &&& a.len() == b.len()
    &&& forall|j: int|
        0 <= j < a.len() ==> (#[trigger] b[j]).id == a[j].id && b[j].track == a[j].track && b[j].kind
            == a[j].kind
}

proof fn lemma_seen(times: Times, samples: Seq<SampleInfo>, i: nat)
    ensures
        ({
            let t = times.see_all(samples, i).0.track;
            t == (Fmp4Track {
                last_timestamp: t.last_timestamp,
                min_duration: t.min_duration,
                ..times.track
            })
        }),
    decreases samples.len() - i,
{
    if i < samples.len() {
        match from_scale(samples[i as int].pts, samples[i as int].timescale) {
            None => {},
            Some(t) => lemma_seen(times.see(t), samples, i + 1),
        }
    }
}

/// A fragment that is published is the last thing that was asked for, on the track with its
/// identifier, as one frame. One of a track that was not announced is refused.
pub proof fn law_fragment_becomes_a_frame(v: Fmp4View, out: OutboxView, f: FragmentView)
    ensures
        ({
            let (w, o, res) = v.fragment(out, f);
            &&& same_tracks(v.tracks, w.tracks)
            &&& w.explicit_groups == v.explicit_groups
            &&& w.next_track == v.next_track
            &&& extends(out, o)
            &&& res is Ok ==> o.sent.len() > out.sent.len() && exists|k: int|
                {
                    &&& 0 <= k < v.tracks.len()
                    &&& (#[trigger] v.tracks[k]).id == f.track_id
                    &&& o.sent.last() == (ActionView::WriteFrame {
                        track: v.tracks[k].track,
                        data: f.data,
                    })
                }
            &&& (forall|k: int| 0 <= k < v.tracks.len() ==> (#[trigger] v.tracks[k]).id != f.track_id)
                ==> res == Err::<(), _>(ImportErrorView::UnknownTrack) && o == out && w == v
        }),
{
    lemma_place(v.tracks, f.track_id, 0);
    if let Some(p) = place_of(v.tracks, f.track_id, 0) {
        let start = Times { track: v.tracks[p as int], min: None, max: None };
        lemma_seen(start, f.samples, 0);
        let (times, counted) = start.see_all(f.samples, 0);
        if counted {
            law_frame_is_written(times.track, out, v.explicit_groups, f.keyframe, f.data);
        }
    }
}

/// Whether the requests at these places write the fragments of a moof from number `i` on.
pub open spec fn frames_at(
    sent: Seq<ActionView>,
    at: Seq<int>,
    tracks: Seq<Fmp4Track>,
    parts: Seq<FragmentView>,
) -> bool {
    &&& at.len() == parts.len()
    &&& forall|k: int| 0 <= k < parts.len() ==> #[trigger] frame_at(sent[at[k]], tracks, parts[k])
}

/// Whether a request writes a fragment as a frame of the track that has its identifier.
pub open spec fn frame_at(a: ActionView, tracks: Seq<Fmp4Track>, f: FragmentView) -> bool {
    exists|j: int|
        0 <= j < tracks.len() && (#[trigger] tracks[j]).id == f.track_id && a == (
        ActionView::WriteFrame { track: tracks[j].track, data: f.data })
}

/// The fragments of a moof, from number `i` on.
pub open spec fn parts_of(
    moov: MoovView,
    raw: Seq<u8>,
    traf: Seq<TrafView>,
    header_size: u64,
    data: Seq<u8>,
    i: nat,
) -> Seq<FragmentView> {
    Seq::new(
        (traf.len() - i) as nat,
        |k: int|
            fragment_of(
                moov,
                raw,
                (i + k) as nat,
                traf[i + k],
                raw.len() as u64,
                header_size,
                data,
            )->Ok_0,
    )
}

/// Where a moof and its mdat are published, every track fragment was written, as one frame of its
/// track and in the order of the moof.
pub proof fn law_fragments_are_written_in_order(
    v: Fmp4View,
    out: OutboxView,
    moov: MoovView,
    raw: Seq<u8>,
    traf: Seq<TrafView>,
    header_size: u64,
    data: Seq<u8>,
    i: nat,
)
    requires
        i <= traf.len(),
    ensures
        ({
            let (w, o, res) = feed_all::<Fmp4Inner>(
                v,
                out,
                moov,
                raw,
                traf,
                header_size,
                data,
                i,
            );
            &&& same_tracks(v.tracks, w.tracks)
            &&& extends(out, o)
            &&& res is Ok ==> exists|at: Seq<int>|
                #[trigger] in_order(o.sent, at, out.sent.len() as int) && frames_at(
                    o.sent,
                    at,
                    v.tracks,
                    parts_of(moov, raw, traf, header_size, data, i),
                )
        }),
    decreases traf.len() - i,
{
    let (w, o, res) = feed_all::<Fmp4Inner>(v, out, moov, raw, traf, header_size, data, i);
    let parts = parts_of(moov, raw, traf, header_size, data, i);
    if i >= traf.len() {
        let at = Seq::<int>::empty();
        assert(in_order(o.sent, at, out.sent.len() as int));
        assert(frames_at(o.sent, at, v.tracks, parts));
    } else {
        let one = fragment_of(
            moov,
            raw,
            i,
            traf[i as int],
            raw.len() as u64,
            header_size,
            data,
        );
        if let Ok(f) = one {
            law_fragment_becomes_a_frame(v, out, f);
            let (v1, o1, r1) = v.fragment(out, f);
            assert(<Fmp4Inner as Fmp4Sink>::fragments(v, out, f) == v.fragment(out, f));
            if r1 is Ok {
                law_fragments_are_written_in_order(
                    v1,
                    o1,
                    moov,
                    raw,
                    traf,
                    header_size,
                    data,
                    i + 1,
                );
                assert(extends(out, o)) by {
                    assert forall|n: int| 0 <= n < out.sent.len() implies #[trigger] o.sent[n]
                        == out.sent[n] by {
                        assert(o1.sent[n] == out.sent[n]);
                    }
                }
                if res is Ok {
                    let rest = parts_of(moov, raw, traf, header_size, data, i + 1);
                    let at1 = choose|at: Seq<int>|
                        #[trigger] in_order(o.sent, at, o1.sent.len() as int) && frames_at(
                            o.sent,
                            at,
                            v1.tracks,
                            rest,
                        );
                    let at = seq![o1.sent.len() - 1] + at1;
                    assert(parts =~= seq![f] + rest);
                    assert(o.sent[o1.sent.len() - 1] == o1.sent.last());
                    assert forall|k: int| 0 <= k < parts.len() implies #[trigger] frame_at(
                        o.sent[at[k]],
                        v.tracks,
                        parts[k],
                    ) by {
                        if k == 0 {
                            let j = choose|j: int|
                                {
                                    &&& 0 <= j < v.tracks.len()
                                    &&& (#[trigger] v.tracks[j]).id == f.track_id
                                    &&& o1.sent.last() == (ActionView::WriteFrame {
                                        track: v.tracks[j].track,
                                        data: f.data,
                                    })
                                };
                            assert(v.tracks[j].id == f.track_id);
                        } else {
                            assert(frame_at(o.sent[at1[k - 1]], v1.tracks, rest[k - 1]));
                            let g = rest[k - 1];
                            let j = choose|j: int|
                                0 <= j < v1.tracks.len() && (#[trigger] v1.tracks[j]).id
                                    == g.track_id && o.sent[at1[k - 1]] == (
                                ActionView::WriteFrame { track: v1.tracks[j].track, data: g.data });
                            assert(v1.tracks[j].id == v.tracks[j].id);
                            assert(v.tracks[j].id == g.track_id);
                        }
                    }
                    assert(in_order(o.sent, at, out.sent.len() as int));
                    assert(frames_at(o.sent, at, v.tracks, parts));
                }
            }
        }
    }
}

/// A moof waits for one mdat: the mdat uses it up, whether or not it can be published; a second
/// moof, or an mdat without a moof or before the moov, is refused and changes nothing.
pub proof fn law_moof_and_mdat_pair(
    p: ParserView,
    v: Fmp4View,
    out: OutboxView,
    raw: Seq<u8>,
    data: Seq<u8>,
)
    ensures
        ({
            let (q, w, o, res) = extract::<Fmp4Inner>(p, v, out, raw, data);
            &&& p.moov is Some && p.moof is Some ==> q.moof is None && q.moov == p.moov
            &&& p.moov is None ==> res == Err::<(), _>(
                ImportErrorView::Parse(ParseErrorView::MissingMoov),
            )
            &&& p.moov is Some && p.moof is None ==> res == Err::<(), _>(
                ImportErrorView::Parse(ParseErrorView::MissingMoof),
            )
            &&& p.moov is None || p.moof is None ==> q == p && w == v && o == out
        }),
        moof_at(raw) is Ok ==> {
            let (q, w, o, res) = atom_step::<Fmp4Inner>(p, v, out, AtomKind::Moof, raw);
            &&& w == v
            &&& o == out
            &&& p.moof is Some ==> q == p && res == Err::<(), _>(
                ImportErrorView::Parse(ParseErrorView::DuplicateMoof),
            )
            &&& p.moof is None ==> q.moof == Some(raw) && q.moov == p.moov && res is Ok
        },
{
}

/// Whether request `n` is the start of a group with a sequence number on a track, behind the end of
/// the one that was open.
pub open spec fn begins(sent: Seq<ActionView>, n: int, t: Fmp4Track, sequence: u64) -> bool {
    &&& 0 <= n < sent.len()
    &&& sent[n] == (ActionView::CreateGroup { track: t.track, sequence })
    &&& t.open ==> n > 0 && sent[n - 1] == (ActionView::FinishGroup { track: t.track })
}

/// Whether there is such a request, behind so many others.
pub open spec fn has_begun(sent: Seq<ActionView>, from: nat, t: Fmp4Track, sequence: u64) -> bool {
    exists|n: int| from <= n && #[trigger] begins(sent, n, t, sequence)
}

/// Whether request `n` ends a track, behind the end of the group that was open.
pub open spec fn closes(sent: Seq<ActionView>, n: int, t: Fmp4Track) -> bool {
    &&& 0 <= n < sent.len()
    &&& sent[n] == (ActionView::FinishTrack { track: t.track })
    &&& t.open ==> n > 0 && sent[n - 1] == (ActionView::FinishGroup { track: t.track })
}

/// Whether there is such a request, behind so many others.
pub open spec fn has_closed(sent: Seq<ActionView>, from: nat, t: Fmp4Track) -> bool {
    exists|n: int| from <= n && #[trigger] closes(sent, n, t)
}

/// Where groups are started, each track gets one, and the one that was open is finished right
/// before it.
pub proof fn law_groups_begin_in_order(v: Fmp4View, out: OutboxView, sequence: u64, i: nat)
    requires
        i <= v.tracks.len(),
        v.start_groups(out, sequence, i).2 is Ok,
    ensures
        ({
            let (w, o, _res) = v.start_groups(out, sequence, i);
            &&& extends(out, o)
            &&& w.tracks.len() == v.tracks.len()
            &&& forall|j: int|
                i <= j < v.tracks.len() ==> #[trigger] has_begun(
                    o.sent,
                    out.sent.len(),
                    v.tracks[j],
                    sequence,
                )
        }),
    decreases v.tracks.len() - i,
{
    let (w, o, _res) = v.start_groups(out, sequence, i);
    if i < v.tracks.len() {
        let t = v.tracks[i as int];
        let opened = Fmp4View {
            tracks: v.tracks.update(i as int, Fmp4Track { open: true, ..t }),
            ..v
        };
        let o1 = if t.open {
            out.with(ActionView::FinishGroup { track: t.track })
        } else {
            out
        };
        let o2 = o1.with(ActionView::CreateGroup { track: t.track, sequence });
        law_groups_begin_in_order(opened, o2, sequence, i + 1);
        assert(extends(out, o)) by {
            assert forall|n: int| 0 <= n < out.sent.len() implies #[trigger] o.sent[n]
                == out.sent[n] by {
                assert(o.sent[n] == o2.sent[n]);
            }
        }
        let at = o1.sent.len() as int;
        assert(o.sent[at] == o2.sent[at]);
        if t.open {
            assert(o.sent[at - 1] == o2.sent[at - 1]);
        }
        assert(begins(o.sent, at, v.tracks[i as int], sequence));
        assert forall|j: int| i <= j < v.tracks.len() implies #[trigger] has_begun(
            o.sent,
            out.sent.len(),
            v.tracks[j],
            sequence,
        ) by {
            if j > i {
                assert(opened.tracks[j] == v.tracks[j]);
                assert(has_begun(o.sent, o2.sent.len(), opened.tracks[j], sequence));
                let n = choose|n: int|
                    o2.sent.len() <= n && #[trigger] begins(
                        o.sent,
                        n,
                        opened.tracks[j],
                        sequence,
                    );
                assert(begins(o.sent, n, v.tracks[j], sequence));
            }
        }
    }
}

/// Where all tracks are finished, each is, and the group that was open is finished right before it.
pub proof fn law_tracks_end_in_order(v: Fmp4View, out: OutboxView, i: nat)
    requires
        i <= v.tracks.len(),
        v.finish(out, i).2 is Ok,
    ensures
        ({
            let (w, o, _res) = v.finish(out, i);
            &&& extends(out, o)
            &&& w.catalog == v.catalog
            &&& forall|j: int|
                i <= j < v.tracks.len() ==> #[trigger] has_closed(
                    o.sent,
                    out.sent.len(),
                    v.tracks[j],
                )
        }),
    decreases v.tracks.len() - i,
{
    let (w, o, _res) = v.finish(out, i);
    if i < v.tracks.len() {
        let t = v.tracks[i as int];
        let closed = Fmp4View {
            tracks: v.tracks.update(i as int, Fmp4Track { open: false, ..t }),
            ..v
        };
        let o1 = if t.open {
            out.with(ActionView::FinishGroup { track: t.track })
        } else {
            out
        };
        let o2 = o1.with(ActionView::FinishTrack { track: t.track });
        law_tracks_end_in_order(closed, o2, i + 1);
        assert(extends(out, o)) by {
            assert forall|n: int| 0 <= n < out.sent.len() implies #[trigger] o.sent[n]
                == out.sent[n] by {
                assert(o.sent[n] == o2.sent[n]);
            }
        }
        let at = o1.sent.len() as int;
        assert(o.sent[at] == o2.sent[at]);
        if t.open {
            assert(o.sent[at - 1] == o2.sent[at - 1]);
        }
        assert(closes(o.sent, at, v.tracks[i as int]));
        assert forall|j: int| i <= j < v.tracks.len() implies #[trigger] has_closed(
            o.sent,
            out.sent.len(),
            v.tracks[j],
        ) by {
            if j > i {
                assert(closed.tracks[j] == v.tracks[j]);
                assert(has_closed(o.sent, o2.sent.len(), closed.tracks[j]));
                let n = choose|n: int|
                    o2.sent.len() <= n && #[trigger] closes(o.sent, n, closed.tracks[j]);
                assert(closes(o.sent, n, v.tracks[j]));
            }
        }
    }
}

/// Groups are started, and tracks are finished, wherever the transport takes it.
pub proof fn law_starting_and_ending_are_owed(v: Fmp4View, out: OutboxView, sequence: u64, i: nat)
    requires
        i <= v.tracks.len(),
        forall|n: int| out.sent.len() <= n < out.refused.len() ==> !(#[trigger] out.refused[n]),
    ensures
        v.start_groups(out, sequence, i).2 is Ok,
        v.finish(out, i).2 is Ok,
    decreases v.tracks.len() - i,
{
    if i < v.tracks.len() {
        let t = v.tracks[i as int];
        let o1 = if t.open {
            out.with(ActionView::FinishGroup { track: t.track })
        } else {
            out
        };
        let opened = Fmp4View {
            tracks: v.tracks.update(i as int, Fmp4Track { open: true, ..t }),
            ..v
        };
        let closed = Fmp4View {
            tracks: v.tracks.update(i as int, Fmp4Track { open: false, ..t }),
            ..v
        };
        law_starting_and_ending_are_owed(
            opened,
            o1.with(ActionView::CreateGroup { track: t.track, sequence }),
            sequence,
            i + 1,
        );
        law_starting_and_ending_are_owed(
            closed,
            o1.with(ActionView::FinishTrack { track: t.track }),
            sequence,
            i + 1,
        );
    }
}

/// A fragment of a track that is announced is published wherever the transport takes it, its times
/// can be counted, its group is open or it starts one, and its track is listed.
pub proof fn law_publication_is_owed(
    v: Fmp4View,
    out: OutboxView,
    f: FragmentView,
    k: int,
    c: int,
)
    requires
        0 <= k < v.tracks.len(),
        v.tracks[k].id == f.track_id,
        forall|j: int| 0 <= j < k ==> (#[trigger] v.tracks[j]).id != f.track_id,
        grants(out, 3),
        v.tracks[k].open || (f.keyframe && !v.explicit_groups),
        0 <= c < v.catalog.len(),
        v.catalog[c].track == v.tracks[k].track,
        ({
            let (times, counted) = (Times { track: v.tracks[k], min: None, max: None }).see_all(
                f.samples,
                0,
            );
            counted && (required(times) is Some ==> required(times)->Some_0 <= 0x3fff_ffff_ffff_ffff)
        }),
    ensures
        v.fragment(out, f).2 is Ok,
{
    lemma_place(v.tracks, f.track_id, 0);
    lemma_listed(v.catalog, v.tracks[k].track, 0);
    lemma_seen(Times { track: v.tracks[k], min: None, max: None }, f.samples, 0);
    let n = out.sent.len() as int;
    assert(n < out.refused.len() ==> !out.refused[n]);
    assert(n + 1 < out.refused.len() ==> !out.refused[n + 1]);
    assert(n + 2 < out.refused.len() ==> !out.refused[n + 2]);
}

/// Once all tracks of a file are announced, each was created under a number of its own and is
/// listed, and every identifier has a track.
pub proof fn law_all_tracks_are_announced(
    v: Fmp4View,
    out: OutboxView,
    raw: Seq<u8>,
    moov: MoovView,
    i: nat,
)
    requires
        i <= moov.trak.len(),
        init_all::<Fmp4Inner>(v, out, raw, moov, i).2 is Ok,
    ensures
        ({
            let (w, o, _res) = init_all::<Fmp4Inner>(v, out, raw, moov, i);
            let n = moov.trak.len() - i;
            &&& w.next_track == v.next_track + n
            &&& w.catalog.len() == v.catalog.len() + n
            &&& o.sent.len() == out.sent.len() + n
            &&& forall|j: int| 0 <= j < v.tracks.len() ==> has_id(w.tracks, (#[trigger] v.tracks[j]).id)
            &&& forall|j: int|
                i <= j < moov.trak.len() ==> has_id(w.tracks, (#[trigger] moov.trak[j]).track_id)
            &&& forall|k: int|
                0 <= k < n ==> w.catalog[#[trigger] (v.catalog.len() + k)].track == v.next_track + k
        }),
    decreases moov.trak.len() - i,
{
    if i < moov.trak.len() {
        let kind = kind_of(moov.trak[i as int].handler)->Ok_0;
        assert(<Fmp4Inner as Fmp4Sink>::inits(v, out, kind, raw, moov, i) == v.init(
            out,
            kind,
            raw,
            moov,
            i,
        ));
        let (u, o1, _res) = v.init(out, kind, raw, moov, i);
        law_announced_track(v, out, kind, raw, moov, i);
        law_all_tracks_are_announced(u, o1, raw, moov, i + 1);
        lemma_catalog_grows(u, o1, raw, moov, i + 1);
        let (w, o, _r) = init_all::<Fmp4Inner>(v, out, raw, moov, i);
        let k = choose|k: int|
            0 <= k < u.tracks.len() && (#[trigger] u.tracks[k]).id == moov.trak[i as int].track_id;
        assert(has_id(w.tracks, u.tracks[k].id));
        assert forall|j: int| 0 <= j < v.tracks.len() implies has_id(
            w.tracks,
            (#[trigger] v.tracks[j]).id,
        ) by {
            if v.tracks[j].id != moov.trak[i as int].track_id {
                assert(u.tracks[j] == v.tracks[j]);
            }
        }
        assert forall|k: int| 0 <= k < moov.trak.len() - i implies w.catalog[#[trigger] (
        v.catalog.len() + k)].track == v.next_track + k by {
            if k > 0 {
                assert(w.catalog[u.catalog.len() + (k - 1)].track == u.next_track + (k - 1));
            } else {
                assert(w.catalog[v.catalog.len() as int] == u.catalog.last());
            }
        }
    }
}

/// Whether a track has this identifier.
pub open spec fn has_id(tracks: Seq<Fmp4Track>, id: u32) -> bool {
    exists|k: int| 0 <= k < tracks.len() && (#[trigger] tracks[k]).id == id
}

/// Announcing tracks only adds to the catalog.
proof fn lemma_catalog_grows(v: Fmp4View, out: OutboxView, raw: Seq<u8>, moov: MoovView, i: nat)
    requires
        i <= moov.trak.len(),
    ensures
        ({
            let w = init_all::<Fmp4Inner>(v, out, raw, moov, i).0;
            &&& v.catalog.len() <= w.catalog.len()
            &&& forall|k: int| 0 <= k < v.catalog.len() ==> #[trigger] w.catalog[k] == v.catalog[k]
        }),
    decreases moov.trak.len() - i,
{
    if i < moov.trak.len() {
        if let Ok(kind) = kind_of(moov.trak[i as int].handler) {
            assert(<Fmp4Inner as Fmp4Sink>::inits(v, out, kind, raw, moov, i) == v.init(
                out,
                kind,
                raw,
                moov,
                i,
            ));
            let (u, o1, res) = v.init(out, kind, raw, moov, i);
            if res is Ok {
                lemma_catalog_grows(u, o1, raw, moov, i + 1);
                let w = init_all::<Fmp4Inner>(v, out, raw, moov, i).0;
                assert forall|k: int| 0 <= k < v.catalog.len() implies #[trigger] w.catalog[k]
                    == v.catalog[k] by {
                    assert(u.catalog[k] == v.catalog[k]);
                }
            }
        }
    }
}

/// A moov that is accepted takes the place of the one before, and leaves the moof that waits; one
/// that is not changes nothing of what was read. No track of a kind that is not known is accepted.
pub proof fn law_moov_is_taken(p: ParserView, v: Fmp4View, out: OutboxView, raw: Seq<u8>)
    ensures
        ({
            let (q, w, o, res) = atom_step::<Fmp4Inner>(p, v, out, AtomKind::Moov, raw);
            &&& q.moof == p.moof
            &&& res is Ok ==> q.moov == Some(raw)
            &&& res is Err ==> q.moov == p.moov
            &&& moov_at(raw) is Err ==> w == v && o == out && res == Err::<(), _>(
                ImportErrorView::Parse(ParseErrorView::Mp4(moov_at(raw)->Err_0)),
            )
            &&& moov_at(raw) is Ok ==> (w, o, res) == init_all::<Fmp4Inner>(
                v,
                out,
                raw,
                moov_at(raw)->Ok_0,
                0,
            )
        }),
        atom_step::<Fmp4Inner>(p, v, out, AtomKind::Other, raw) == (
            p,
            v,
            out,
            Ok::<(), ImportErrorView>(()),
        ),
        atom_step::<Fmp4Inner>(p, v, out, AtomKind::Ftyp, raw) == (
            p,
            v,
            out,
            Ok::<(), ImportErrorView>(()),
        ),
        atom_step::<Fmp4Inner>(p, v, out, AtomKind::Styp, raw) == (
            p,
            v,
            out,
            Ok::<(), ImportErrorView>(()),
        ),
{
}

/// A track of a kind that is not known stops the announcement, and tells which.
pub proof fn law_unknown_kinds_are_refused<S: Fmp4Sink>(
    s: S::State,
    out: OutboxView,
    raw: Seq<u8>,
    moov: MoovView,
    i: nat,
)
    requires
        i < moov.trak.len(),
        kind_of(moov.trak[i as int].handler) is Err,
    ensures
        init_all::<S>(s, out, raw, moov, i) == (
            s,
            out,
            Err::<(), _>(
                ImportErrorView::Parse(kind_of(moov.trak[i as int].handler)->Err_0),
            ),
        ),
{
}

/// Whoever is told of the fragments of a moof is told of each of them, one after another, as long
/// as none fails; the first that cannot be taken out ends it, with the reason.
pub proof fn law_fragments_one_by_one<S: Fmp4Sink>(
    s: S::State,
    out: OutboxView,
    moov: MoovView,
    raw: Seq<u8>,
    traf: Seq<TrafView>,
    header_size: u64,
    data: Seq<u8>,
    i: nat,
)
    requires
        i < traf.len(),
    ensures
        ({
            let f = fragment_of(
                moov,
                raw,
                i,
                traf[i as int],
                raw.len() as u64,
                header_size,
                data,
            );
            let all = feed_all::<S>(s, out, moov, raw, traf, header_size, data, i);
            &&& f is Err ==> all == (s, out, Err::<(), _>(ImportErrorView::Parse(f->Err_0)))
            &&& f is Ok ==> {
                let (t, o, res) = S::fragments(s, out, f->Ok_0);
                &&& res is Err ==> all == (t, o, res)
                &&& res is Ok ==> all == feed_all::<S>(
                    t,
                    o,
                    moov,
                    raw,
                    traf,
                    header_size,
                    data,
                    i + 1,
                )
            }
        }),
        feed_all::<S>(s, out, moov, raw, traf, header_size, data, traf.len()) == (
            s,
            out,
            Ok::<(), ImportErrorView>(()),
        ),
{
}

/// A stream of atoms is read one atom after another: what follows an atom is read from where the
/// atom led to, and not at all if it failed.
pub proof fn law_atoms_one_by_one<S: Fmp4Sink>(
    p: ParserView,
    s: S::State,
    out: OutboxView,
    b: Seq<u8>,
    kind: AtomKind,
    rest: Seq<u8>,
)
    requires
        b.len() > 0,
        is_atom(b, kind),
    ensures
        ({
            let (q, t, o, res) = atom_step::<S>(p, s, out, kind, b);
            let all = decode_all::<S>(p, s, out, b + rest);
            &&& res is Ok ==> all == decode_all::<S>(q, t, o, rest)
            &&& res is Err ==> all == (q, t, o, Err::<Seq<u8>, _>(res->Err_0))
        }),
{
    assert(atom_at(b + rest) == Ok::<_, Seq<char>>(Some((kind, b.len()))));
    assert((b + rest).take(b.len() as int) =~= b);
    assert((b + rest).skip(b.len() as int) =~= rest);
}

/// An mdat is taken apart by the moof that waits: its samples are counted from behind the header
/// that it has, be that short or long, and its payload is its body.
pub proof fn law_mdat_is_taken_apart<S: Fmp4Sink>(
    p: ParserView,
    s: S::State,
    out: OutboxView,
    raw: Seq<u8>,
)
    requires
        p.moov is Some,
        p.moof is Some,
        head(raw) is Some,
        head(raw)->Some_0.2 == raw.len(),
    ensures
        ({
            let start = head(raw)->Some_0.1;
            let moof = p.moof->Some_0;
            let (q, t, o, res) = atom_step::<S>(p, s, out, AtomKind::Mdat, raw);
            &&& q.moof is None
            &&& q.moov == p.moov
            &&& (t, o, res) == feed_all::<S>(
                s,
                out,
                moov_at(p.moov->Some_0)->Ok_0,
                moof,
                moof_at(moof)->Ok_0,
                start as u64,
                raw.skip(start as int),
                0,
            )
        }),
{
    let start = head(raw)->Some_0.1;
    assert(raw.subrange(start as int, raw.len() as int) =~= raw.skip(start as int));
}

} // verus!
