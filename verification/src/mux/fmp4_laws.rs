//! What holds of every fMP4 import.

use crate::mux::fmp4::{numbered, place_of, Fmp4Track, Fmp4View, ListedView, Times};
use crate::mux::fragment::{FragmentView, SampleInfo};
use crate::mux::outbox::{ActionView, OutboxView};
use vstd::prelude::*;

verus! {

/// Whether each identifier belongs to one track.
pub open spec fn unique(tracks: Seq<Fmp4Track>) -> bool {
    forall|i: int, j: int|
        0 <= i < j < tracks.len() ==> (#[trigger] tracks[i]).id != (#[trigger] tracks[j]).id
}

proof fn lemma_place_of(tracks: Seq<Fmp4Track>, id: u32, i: nat)
    ensures
        place_of(tracks, id, i) matches Some(k) ==> i <= k < tracks.len() && tracks[k as int].id
            == id,
        place_of(tracks, id, i) is None ==> forall|j: int|
            i <= j < tracks.len() ==> (#[trigger] tracks[j]).id != id,
    decreases tracks.len() - i,
{
    if i < tracks.len() && tracks[i as int].id != id {
        lemma_place_of(tracks, id, i + 1);
    }
}

/// A track that is announced again takes the place of the one before it: no identifier ever has
/// two tracks.
pub proof fn law_ids_stay_unique(v: Fmp4View, t: Fmp4Track)
    requires
        unique(v.tracks),
    ensures
        unique(v.with_track(t).tracks),
        place_of(v.with_track(t).tracks, t.id, 0) is Some,
{
    lemma_place_of(v.tracks, t.id, 0);
    let after = v.with_track(t).tracks;
    lemma_place_of(after, t.id, 0);
    match place_of(v.tracks, t.id, 0) {
        Some(k) => {
            assert(after[k as int].id == t.id);
        },
        None => {
            assert(after[v.tracks.len() as int].id == t.id);
        },
    }
}

/// Once a group was started, every track has it: the tracks that come after `i` are open, and each
/// was asked to create a group with that sequence number.
pub proof fn law_start_opens_all(v: Fmp4View, out: OutboxView, sequence: u64, i: nat)
    requires
        i <= v.tracks.len(),
    ensures
        ({
            let (w, o, res) = v.start_groups(out, sequence, i);
            &&& w.tracks.len() == v.tracks.len()
            &&& o.sent.len() >= out.sent.len()
            &&& o.sent.take(out.sent.len() as int) == out.sent
            &&& res is Ok ==> forall|j: int|
                i <= j < v.tracks.len() ==> (#[trigger] w.tracks[j]).open && w.tracks[j].track
                    == v.tracks[j].track && o.sent.contains(
                    ActionView::CreateGroup { track: v.tracks[j].track, sequence },
                )
            &&& forall|j: int| 0 <= j < i ==> #[trigger] w.tracks[j] == v.tracks[j]
        }),
    decreases v.tracks.len() - i,
{
    let (w, o, res) = v.start_groups(out, sequence, i);
    assert(out.sent.take(out.sent.len() as int) =~= out.sent);
    if i < v.tracks.len() {
        let t = v.tracks[i as int];
        let closed = Fmp4View {
            tracks: v.tracks.update(i as int, Fmp4Track { open: false, ..t }),
            ..v
        };
        let opened = Fmp4View {
            tracks: v.tracks.update(i as int, Fmp4Track { open: true, ..t }),
            ..v
        };
        let o1 = if t.open {
            out.with(ActionView::FinishGroup { track: t.track })
        } else {
            out
        };
        let create = ActionView::CreateGroup { track: t.track, sequence };
        let o2 = o1.with(create);
        assert(o1.sent.take(out.sent.len() as int) =~= out.sent);
        assert(o2.sent.take(out.sent.len() as int) =~= out.sent);
        if (t.open && out.refuses()) || o1.refuses() {
        } else {
            law_start_opens_all(opened, o2, sequence, i + 1);
            assert(o.sent.take(out.sent.len() as int) =~= o.sent.take(
                o2.sent.len() as int,
            ).take(out.sent.len() as int));
            assert(o2.sent.last() == create);
            assert(o.sent[o2.sent.len() - 1] == o.sent.take(o2.sent.len() as int)[o2.sent.len()
                - 1]);
            assert(o.sent.contains(create));
            assert(w.tracks[i as int] == opened.tracks[i as int]);
            assert forall|j: int| 0 <= j < i implies #[trigger] w.tracks[j] == v.tracks[j] by {
                assert(w.tracks[j] == opened.tracks[j]);
            }
            if res is Ok {
                assert forall|j: int| i <= j < v.tracks.len() implies (#[trigger] w.tracks[j]).open
                    && w.tracks[j].track == v.tracks[j].track && o.sent.contains(
                    ActionView::CreateGroup { track: v.tracks[j].track, sequence },
                ) by {
                    if j > i {
                        assert(opened.tracks[j] == v.tracks[j]);
                    }
                }
            }
        }
    }
}

/// Where the caller assigns the groups, a fragment lands in the one that was started, whether or
/// not it holds a keyframe: the frame is all that is asked for.
pub proof fn law_fragment_lands_in_group(
    v: Fmp4View,
    out: OutboxView,
    f: FragmentView,
    place: nat,
)
    requires
        v.explicit_groups,
        place_of(v.tracks, f.track_id, 0) == Some(place),
        v.tracks[place as int].open,
        (Times { track: v.tracks[place as int], min: None, max: None }).see_all(f.samples, 0).1,
    ensures
        v.fragment(out, f).1 == out.with(
            ActionView::WriteFrame { track: v.tracks[place as int].track, data: f.data },
        ),
{
    let start = Times { track: v.tracks[place as int], min: None, max: None };
    lemma_seen_track(start, f.samples, 0);
}

/// Seeing samples changes nothing of a track but its times.
proof fn lemma_seen_track(times: Times, samples: Seq<SampleInfo>, i: nat)
    ensures
        ({
            let t = times.see_all(samples, i).0.track;
            t == (Fmp4Track {
                last_timestamp: t.last_timestamp,
                min_duration: t.min_duration,
                ..times.track
            })
        }),
    decreases samples.len() - i,
{
    if i < samples.len() {
        match crate::mux::fmp4::from_scale(samples[i as int].pts, samples[i as int].timescale) {
            None => {},
            Some(t) => lemma_seen_track(times.see(t), samples, i + 1),
        }
    }
}

/// The jitter of a track never rises, and once it is known it stays known.
pub proof fn law_jitter_does_not_rise(v: Fmp4View, out: OutboxView, f: FragmentView, j: int)
    requires
        0 <= j < v.tracks.len(),
    ensures
        ({
            let w = v.fragment(out, f).0;
            &&& w.tracks.len() == v.tracks.len()
            &&& v.tracks[j].jitter matches Some(before) ==> w.tracks[j].jitter matches Some(after)
                && after <= before
        }),
{
    lemma_place_of(v.tracks, f.track_id, 0);
    match place_of(v.tracks, f.track_id, 0) {
        None => {},
        Some(p) => {
            lemma_seen_track(
                Times { track: v.tracks[p as int], min: None, max: None },
                f.samples,
                0,
            );
        },
    }
}

/// Once all tracks are finished, no group is open.
pub proof fn law_finish_closes_all(v: Fmp4View, out: OutboxView, i: nat)
    requires
        i <= v.tracks.len(),
    ensures
        ({
            let (w, o, res) = v.finish(out, i);
            &&& w.tracks.len() == v.tracks.len()
            &&& forall|j: int| 0 <= j < i ==> #[trigger] w.tracks[j] == v.tracks[j]
            &&& res is Ok ==> forall|j: int| i <= j < v.tracks.len() ==> !(#[trigger] w.tracks[j]).open
        }),
    decreases v.tracks.len() - i,
{
    if i < v.tracks.len() {
        let t = v.tracks[i as int];
        let closed = Fmp4View {
            tracks: v.tracks.update(i as int, Fmp4Track { open: false, ..t }),
            ..v
        };
        let o1 = if t.open {
            out.with(ActionView::FinishGroup { track: t.track })
        } else {
            out
        };
        let o2 = o1.with(ActionView::FinishTrack { track: t.track });
        law_finish_closes_all(closed, o2, i + 1);
        let (w, o, res) = v.finish(out, i);
        if !((t.open && out.refuses()) || o1.refuses()) {
            assert(w.tracks[i as int] == closed.tracks[i as int]);
            assert forall|j: int| 0 <= j < i implies #[trigger] w.tracks[j] == v.tracks[j] by {
                assert(w.tracks[j] == closed.tracks[j]);
            }
        }
    }
}

/// When the importer goes, the catalog holds none of its tracks, and all that others listed.
pub proof fn law_unlist_takes_its_own(v: Fmp4View, l: ListedView)
    ensures
        v.unlist().catalog.contains(l) <==> v.catalog.contains(l) && !numbered(v.tracks, l.track),
{
    let keep = |l: ListedView| !numbered(v.tracks, l.track);
    if v.catalog.filter(keep).contains(l) {
        v.catalog.lemma_filter_contains_rev(keep, l);
        let i = choose|i: int| 0 <= i < v.catalog.filter(keep).len() && v.catalog.filter(keep)[i] == l;
        v.catalog.lemma_filter_pred(keep, i);
    }
    if v.catalog.contains(l) && keep(l) {
        let i = choose|i: int| 0 <= i < v.catalog.len() && v.catalog[i] == l;
        v.catalog.lemma_filter_contains(keep, i);
    }
}

} // verus!
