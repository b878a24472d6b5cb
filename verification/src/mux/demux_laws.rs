//! What holds of every CMSF broadcast that is read.

use crate::error::Error;
use crate::mux::base64::base64_bytes;
use crate::mux::broadcast::{msf_track, TrackView};
use crate::mux::broadcast_demux::{
    add_track, add_tracks, kept, listed, BroadcastDemuxView, CatalogFrame, EntryView,
};
use crate::mux::catalog::{MsfCatalogView, MsfTrack};
use crate::mux::cmsf::{metadata, timescale_of, CmsfErrorView};
use crate::mux::consumer::{GroupView, Polled, TrackConsumerView};
use crate::mux::demux::{init_of_track, DemuxView, EndReason, MALFORMED_LIMIT};
use crate::mux::outbox::OutboxView;
use crate::mux::types::CmsfTrackConfig;
use vstd::prelude::*;

verus! {

/// Whether a frame is there and cannot be read.
pub open spec fn malformed(frame: Result<Option<Vec<u8>>, Error>) -> bool {
    frame matches Ok(Some(data)) && metadata(data@) is Err
}

/// Malformed frames are skipped as long as they are fewer in a row than the limit: the next frame
/// that can be read is the next segment, and starts the count anew.
pub proof fn law_malformed_are_skipped(d: DemuxView, g: GroupView<Vec<u8>>, k: nat, data: Vec<u8>)
    requires
        d.current_group == Some(g),
        k < g.frames.len(),
        forall|i: int| 0 <= i < k ==> malformed(#[trigger] g.frames[i]),
        d.malformed_count + k < MALFORMED_LIMIT,
        g.frames[k as int] == Ok::<Option<Vec<u8>>, Error>(Some(data)),
        metadata(data@) is Ok,
    ensures
        ({
            let (e, res) = d.poll();
            &&& res == Polled::Ready(
                Ok::<_, CmsfErrorView>(
                    Some(d.segment(g.sequence, data@, metadata(data@)->Ok_0)),
                ),
            )
            &&& e.malformed_count == 0
            &&& e.current_group == Some(GroupView { frames: g.frames.skip(k as int + 1), ..g })
            &&& e.track == d.track
        }),
    decreases k,
{
    let rest = GroupView { frames: g.frames.drop_first(), ..g };
    if k == 0 {
        assert(g.frames.skip(1) =~= g.frames.drop_first());
    } else {
        assert(malformed(g.frames[0]));
        let next = DemuxView {
            current_group: Some(rest),
            malformed_count: (d.malformed_count + 1) as u32,
            ..d
        };
        assert(rest.frames[k - 1] == g.frames[k as int]);
        assert forall|i: int| 0 <= i < k - 1 implies malformed(#[trigger] rest.frames[i]) by {
            assert(rest.frames[i] == g.frames[i + 1]);
        }
        law_malformed_are_skipped(next, rest, (k - 1) as nat, data);
        assert(rest.frames.skip(k as int) =~= g.frames.skip(k as int + 1));
        assert(d.poll() == next.poll());
    }
}

/// As many malformed frames in a row as the limit end the track.
pub proof fn law_malformed_end_the_track(d: DemuxView, g: GroupView<Vec<u8>>, k: nat)
    requires
        d.current_group == Some(g),
        0 < k <= g.frames.len(),
        forall|i: int| 0 <= i < k ==> malformed(#[trigger] g.frames[i]),
        d.malformed_count + k == MALFORMED_LIMIT,
    ensures
        d.poll().1 matches Polled::Ready(Ok(None)),
        d.poll().0.end_reason == Some(EndReason::TrackFinished),
        d.poll().0.malformed_count == MALFORMED_LIMIT,
    decreases k,
{
    assert(malformed(g.frames[0]));
    if k > 1 {
        let rest = GroupView { frames: g.frames.drop_first(), ..g };
        let next = DemuxView {
            current_group: Some(rest),
            malformed_count: (d.malformed_count + 1) as u32,
            ..d
        };
        assert forall|i: int| 0 <= i < k - 1 implies malformed(#[trigger] rest.frames[i]) by {
            assert(rest.frames[i] == g.frames[i + 1]);
        }
        law_malformed_end_the_track(next, rest, (k - 1) as nat);
        assert(d.poll() == next.poll());
    }
}

/// A poll of a track does not fail: what goes wrong ends the track, or is skipped.
pub proof fn law_poll_does_not_fail(d: DemuxView)
    ensures
        !(d.poll().1 matches Polled::Ready(Err(_))),
        d.poll().0.init_data == d.init_data,
        d.poll().0.timescale == d.timescale,
        d.poll().0.track.name == d.track.name,
    decreases
        d.track.groups.len(),
        match d.current_group {
            Some(g) => 1 + g.frames.len(),
            None => 0,
        },
{
    match d.current_group {
        Some(g) => if g.frames.len() > 0 {
            let rest = DemuxView {
                current_group: Some(GroupView { frames: g.frames.drop_first(), ..g }),
                ..d
            };
            law_poll_does_not_fail(
                DemuxView {
                    malformed_count: crate::mux::demux::counted(d.malformed_count),
                    ..rest
                },
            );
            law_poll_does_not_fail(DemuxView { current_group: None, ..d });
        },
        None => if d.track.groups.len() > 0 {
            let rest = DemuxView {
                track: TrackConsumerView { groups: d.track.groups.drop_first(), ..d.track },
                ..d
            };
            if let Ok(Some(g)) = d.track.groups[0] {
                law_poll_does_not_fail(DemuxView { current_group: Some(g), ..rest });
            }
        },
    }
}

/// That a track ended, or failed, is told again whenever it is polled.
pub proof fn law_end_is_told_again(d: DemuxView)
    requires
        d.current_group is None,
        d.track.groups.len() > 0,
        !(d.track.groups[0] matches Ok(Some(_))),
    ensures
        d.poll().1 matches Polled::Ready(Ok(None)),
        d.poll().0.end_reason is Some,
        d.poll().0.poll() == d.poll(),
{
}

/// The end of the catalog is not lost where it comes together with a last catalog: once that was
/// read, or could not be, the next poll finds the end, and the catalog is closed.
pub proof fn law_catalog_end_is_found(s: BroadcastDemuxView, out: OutboxView)
    requires
        s.catalog_track.groups.len() > 0,
        s.catalog_track.groups.last() == Ok::<Option<GroupView<CatalogFrame>>, Error>(None),
        forall|i: int|
            0 <= i < s.catalog_track.groups.len() - 1 ==> (#[trigger] s.catalog_track.groups[i])
                matches Ok(Some(_)),
        s.poll_catalog().0.catalog_group is None,
    ensures
        s.poll_catalog().0.poll_catalog() == (
            s.poll_catalog().0,
            Polled::Ready(Ok::<Option<MsfCatalogView>, CmsfErrorView>(None)),
        ),
        !s.catalog_closed ==> s.poll_catalog().0.refresh(out).0.catalog_closed,
{
    lemma_newest_keeps_end(s);
}

proof fn lemma_newest_keeps_end(s: BroadcastDemuxView)
    requires
        s.catalog_track.groups.len() > 0,
        s.catalog_track.groups.last() == Ok::<Option<GroupView<CatalogFrame>>, Error>(None),
        forall|i: int|
            0 <= i < s.catalog_track.groups.len() - 1 ==> (#[trigger] s.catalog_track.groups[i])
                matches Ok(Some(_)),
    ensures
        s.newest().0.catalog_track.groups.len() == 1,
        s.newest().0.catalog_track.groups[0] == Ok::<Option<GroupView<CatalogFrame>>, Error>(None),
        s.newest().0.catalog_closed == s.catalog_closed,
    decreases s.catalog_track.groups.len(),
{
    let groups = s.catalog_track.groups;
    if groups.len() > 1 {
        assert(groups[0] matches Ok(Some(_)));
        let g: GroupView<CatalogFrame> = groups[0]->Ok_0->Some_0;
        let rest = BroadcastDemuxView {
            catalog_track: TrackConsumerView { groups: groups.drop_first(), ..s.catalog_track },
            catalog_group: Some(g),
            ..s
        };
        assert(s.newest() == rest.newest());
        assert forall|i: int| 0 <= i < rest.catalog_track.groups.len() - 1 implies (
            #[trigger] rest.catalog_track.groups[i]) matches Ok(Some(_)) by {
            assert(rest.catalog_track.groups[i] == groups[i + 1]);
        }
        assert(groups.drop_first().last() == groups.last());
        lemma_newest_keeps_end(rest);
    }
}

/// Where several catalogs have come, the latest is read, and those before it are not.
pub proof fn law_latest_catalog_wins(s: BroadcastDemuxView)
    requires
        s.catalog_track.groups.len() > 0,
        forall|i: int|
            0 <= i < s.catalog_track.groups.len() ==> (#[trigger] s.catalog_track.groups[i])
                matches Ok(Some(_)),
    ensures
        s.newest().1 is None,
        s.newest().0.catalog_group == (s.catalog_track.groups.last()->Ok_0),
    decreases s.catalog_track.groups.len(),
{
    let groups = s.catalog_track.groups;
    assert(groups[0] matches Ok(Some(_)));
    let g: GroupView<CatalogFrame> = groups[0]->Ok_0->Some_0;
    let rest = BroadcastDemuxView {
        catalog_track: TrackConsumerView { groups: groups.drop_first(), ..s.catalog_track },
        catalog_group: Some(g),
        ..s
    };
    assert(s.newest() == rest.newest());
    if groups.len() > 1 {
        assert forall|i: int| 0 <= i < rest.catalog_track.groups.len() implies (
            #[trigger] rest.catalog_track.groups[i]) matches Ok(Some(_)) by {
            assert(rest.catalog_track.groups[i] == groups[i + 1]);
        }
        law_latest_catalog_wins(rest);
        assert(groups.drop_first().last() == groups.last());
    } else {
        assert(rest.catalog_track.groups.len() == 0);
    }
}

/// Whether each name belongs to one track.
pub open spec fn unique_names(tracks: Seq<EntryView>) -> bool {
    forall|i: int, j: int|
        0 <= i < j < tracks.len() ==> (#[trigger] tracks[i]).demuxer.track.name != (
        #[trigger] tracks[j]).demuxer.track.name
}

/// Whether every track is active and listed by a catalog.
pub open spec fn all_listed(tracks: Seq<EntryView>, catalog: Seq<MsfTrack<Seq<char>>>) -> bool {
    forall|i: int|
        0 <= i < tracks.len() ==> (#[trigger] tracks[i]).active && listed(
            catalog,
            tracks[i].demuxer.track.name,
        )
}

/// Whether a track has read nothing yet.
pub open spec fn is_fresh(t: EntryView) -> bool {
    &&& t.active
    &&& t.demuxer.track.groups.len() == 0
    &&& t.demuxer.current_group is None
    &&& t.demuxer.end_reason is None
    &&& t.demuxer.malformed_count == 0
}

proof fn lemma_add_tracks(
    tracks: Seq<EntryView>,
    out: OutboxView,
    catalog: Seq<MsfTrack<Seq<char>>>,
    i: nat,
)
    requires
        i <= catalog.len(),
        all_listed(tracks, catalog),
        unique_names(tracks),
    ensures
        ({
            let after = add_tracks(tracks, out, catalog, i).0;
            &&& all_listed(after, catalog)
            &&& unique_names(after)
            &&& after.len() >= tracks.len()
            &&& forall|j: int| 0 <= j < tracks.len() ==> #[trigger] after[j] == tracks[j]
            &&& forall|j: int| tracks.len() <= j < after.len() ==> is_fresh(#[trigger] after[j])
        }),
    decreases catalog.len() - i,
{
    if i < catalog.len() {
        let t = catalog[i as int];
        let (next, o) = add_track(tracks, out, t);
        assert(listed(catalog, t.name));
        assert(unique_names(next)) by {
            assert forall|a: int, b: int| 0 <= a < b < next.len() implies (
            #[trigger] next[a]).demuxer.track.name != (#[trigger] next[b]).demuxer.track.name by {
                if b == tracks.len() {
                    assert(tracks[a].active);
                }
            }
        }
        lemma_add_tracks(next, o, catalog, i + 1);
        let after = add_tracks(tracks, out, catalog, i).0;
        assert forall|j: int| 0 <= j < tracks.len() implies #[trigger] after[j] == tracks[j] by {
            assert(after[j] == next[j]);
        }
        assert forall|j: int| tracks.len() <= j < after.len() implies is_fresh(
            #[trigger] after[j],
        ) by {
            if j < next.len() {
                assert(after[j] == next[j]);
            }
        }
    }
}

proof fn lemma_kept(tracks: Seq<EntryView>, catalog: Seq<MsfTrack<Seq<char>>>)
    ensures
        all_listed(kept(tracks, catalog), catalog),
        forall|t: EntryView| #[trigger]
            kept(tracks, catalog).contains(t) <==> tracks.contains(t) && t.active && listed(
                catalog,
                t.demuxer.track.name,
            ),
        unique_names(tracks) ==> unique_names(kept(tracks, catalog)),
    decreases tracks.len(),
{
    let keep = |t: EntryView| t.active && listed(catalog, t.demuxer.track.name);
    let k = kept(tracks, catalog);
    assert forall|i: int| 0 <= i < k.len() implies (#[trigger] k[i]).active && listed(
        catalog,
        k[i].demuxer.track.name,
    ) by {
        tracks.lemma_filter_pred(keep, i);
    }
    assert forall|t: EntryView| #[trigger] k.contains(t) <==> tracks.contains(t) && t.active
        && listed(catalog, t.demuxer.track.name) by {
        if k.contains(t) {
            tracks.lemma_filter_contains_rev(keep, t);
            let i = choose|i: int| 0 <= i < k.len() && k[i] == t;
            tracks.lemma_filter_pred(keep, i);
        }
        if tracks.contains(t) && keep(t) {
            let i = choose|i: int| 0 <= i < tracks.len() && tracks[i] == t;
            tracks.lemma_filter_contains(keep, i);
        }
    }
    if unique_names(tracks) && tracks.len() > 0 {
        reveal(Seq::filter);
        let front = tracks.drop_last();
        assert(unique_names(front)) by {
            assert forall|a: int, b: int| 0 <= a < b < front.len() implies (
            #[trigger] front[a]).demuxer.track.name != (#[trigger] front[b]).demuxer.track.name by {
                assert(front[a] == tracks[a] && front[b] == tracks[b]);
            }
        }
        lemma_kept(front, catalog);
        let f = kept(front, catalog);
        if keep(tracks.last()) {
            assert(k == f.push(tracks.last()));
            assert forall|a: int, b: int| 0 <= a < b < k.len() implies (
            #[trigger] k[a]).demuxer.track.name != (#[trigger] k[b]).demuxer.track.name by {
                if b == f.len() {
                    assert(f.contains(f[a]));
                    assert(front.contains(f[a]));
                    let i = choose|i: int| 0 <= i < front.len() && front[i] == f[a];
                    assert(tracks[i] == f[a]);
                    assert(tracks[tracks.len() - 1] == k[b]);
                }
            }
        } else {
            assert(k == f);
        }
    } else if tracks.len() == 0 {
        reveal(Seq::filter);
    }
}

/// Once a catalog has taken effect, the tracks that are read are among those that it lists, each
/// name once. Those that were read and that it lists go on as they were; all others start afresh.
pub proof fn law_catalog_is_authoritative(
    s: BroadcastDemuxView,
    out: OutboxView,
    catalog: MsfCatalogView,
)
    requires
        unique_names(s.tracks),
    ensures
        ({
            let after = s.apply(out, catalog).0.tracks;
            &&& unique_names(after)
            &&& all_listed(after, catalog.tracks)
            &&& forall|t: EntryView| #[trigger]
                s.tracks.contains(t) && t.active && listed(catalog.tracks, t.demuxer.track.name)
                    ==> after.contains(t)
            &&& forall|t: EntryView| #[trigger]
                after.contains(t) ==> s.tracks.contains(t) || is_fresh(t)
        }),
{
    let k = kept(s.tracks, catalog.tracks);
    lemma_kept(s.tracks, catalog.tracks);
    lemma_add_tracks(k, out, catalog.tracks, 0);
    let after = s.apply(out, catalog).0.tracks;
    assert forall|t: EntryView| #[trigger]
        s.tracks.contains(t) && t.active && listed(
            catalog.tracks,
            t.demuxer.track.name,
        ) implies after.contains(t) by {
        assert(k.contains(t));
        let i = choose|i: int| 0 <= i < k.len() && k[i] == t;
        assert(after[i] == t);
    }
    assert forall|t: EntryView| #[trigger] after.contains(t) implies s.tracks.contains(t)
        || is_fresh(t) by {
        let i = choose|i: int| 0 <= i < after.len() && after[i] == t;
        if i < k.len() {
            assert(k.contains(after[i]));
        }
    }
}

/// The text of the init segment of a track that is published.
pub open spec fn init_text(t: TrackView) -> Seq<char> {
    match t.config {
        CmsfTrackConfig::Video { init_data, .. } => init_data,
        CmsfTrackConfig::Audio { init_data, .. } => init_data,
    }
}

/// A subscriber reads the init segment that was published, and its timescale, from what the
/// catalog says of the track.
pub proof fn law_published_init_is_read(t: TrackView, init: Seq<u8>)
    requires
        base64_bytes(init_text(t)) == Ok::<_, Seq<char>>(init),
    ensures
        init_of_track(msf_track(t).init_data) == match timescale_of(init) {
            Ok(timescale) => Ok((init, timescale)),
            Err(e) => Err(e),
        },
{
}

} // verus!
