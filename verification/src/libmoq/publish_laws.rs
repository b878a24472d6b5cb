//! What holds of everything that is published.

use crate::libmoq::publish::{
    belongs, conflicts, start_groups, without_broadcast, without_groups_of, GroupMode,
    PublishErrorView, PublishView, SlimGroup, SlimTrack,
};
use crate::libmoq::slab::{at, is_vacant, put, Id};
use crate::mux::catalog::HangCatalogView;
use crate::mux::outbox::{ActionView, OutboxView};
use vstd::prelude::*;

verus! {

/// Whether a group belongs to a track whose groups are opened one by one.
pub open spec fn group_ok(v: PublishView, id: Id) -> bool {
    at(v.groups, id) matches Some(g) ==> at(v.tracks, g.track_id) matches Some(t) && t.mode == Some(
        GroupMode::PerTrack,
    )
}

/// Whether a track belongs to a broadcast, and has a group open that all tracks started only if it
/// has committed to such groups.
pub open spec fn track_ok(v: PublishView, id: Id) -> bool {
    at(v.tracks, id) matches Some(t) ==> at(v.broadcasts, t.broadcast_id) is Some && (t.open
        ==> t.mode == Some(GroupMode::Broadcast))
}

/// Whether every group and every track is in order.
pub open spec fn consistent(v: PublishView) -> bool {
    &&& forall|id: Id| #[trigger] group_ok(v, id)
    &&& forall|id: Id| #[trigger] track_ok(v, id)
}

/// Nothing is consistent.
pub proof fn law_empty_is_consistent()
    ensures
        consistent(PublishView::empty()),
{
}

/// Creating a broadcast keeps what is published consistent.
pub proof fn law_create_keeps(v: PublishView, id: Id, catalog: HangCatalogView)
    requires
        consistent(v),
        is_vacant(v.broadcasts, id),
    ensures
        consistent(PublishView { broadcasts: put(v.broadcasts, id, catalog), ..v }),
{
    let w = PublishView { broadcasts: put(v.broadcasts, id, catalog), ..v };
    assert forall|t: Id| #[trigger] track_ok(w, t) by {
        assert(track_ok(v, t));
        if at(w.tracks, t) is Some {
            assert(at(v.broadcasts, at(v.tracks, t)->Some_0.broadcast_id) is Some);
        }
    }
    assert forall|g: Id| #[trigger] group_ok(w, g) by {
        assert(group_ok(v, g));
    }
}

/// Creating a track on a broadcast that is there keeps what is published consistent.
pub proof fn law_track_create_keeps(v: PublishView, id: Id, broadcast_id: Id, track: usize)
    requires
        consistent(v),
        is_vacant(v.tracks, id),
        at(v.broadcasts, broadcast_id) is Some,
    ensures
        consistent(
            PublishView {
                tracks: put(
                    v.tracks,
                    id,
                    SlimTrack { broadcast_id, track, open: false, mode: None },
                ),
                ..v
            },
        ),
{
    let t = SlimTrack { broadcast_id, track, open: false, mode: None };
    let w = PublishView { tracks: put(v.tracks, id, t), ..v };
    assert forall|x: Id| #[trigger] track_ok(w, x) by {
        assert(track_ok(v, x));
        if at(w.tracks, x) is Some {
            if x != id {
                assert(at(w.tracks, x) == at(v.tracks, x));
            }
        }
    }
    assert forall|g: Id| #[trigger] group_ok(w, g) by {
        assert(group_ok(v, g));
        if at(w.groups, g) is Some {
            let x = at(v.groups, g)->Some_0;
            assert(at(v.tracks, x.track_id) is Some);
            assert(at(w.tracks, x.track_id) == at(v.tracks, x.track_id));
        }
    }
}

/// Opening a group on a track that has not committed to groups of its whole broadcast keeps what
/// is published consistent.
pub proof fn law_group_open_keeps(v: PublishView, track_id: Id, id: Id, group: usize)
    requires
        consistent(v),
        is_vacant(v.groups, id),
        at(v.tracks, track_id) matches Some(t) && t.mode != Some(GroupMode::Broadcast),
    ensures
        consistent(
            PublishView {
                tracks: put(
                    v.tracks,
                    track_id,
                    SlimTrack {
                        mode: Some(GroupMode::PerTrack),
                        ..at(v.tracks, track_id)->Some_0
                    },
                ),
                groups: put(v.groups, id, SlimGroup { group, track_id }),
                ..v
            },
        ),
{
    let old_track = at(v.tracks, track_id)->Some_0;
    let t = SlimTrack { mode: Some(GroupMode::PerTrack), ..old_track };
    let w = PublishView {
        tracks: put(v.tracks, track_id, t),
        groups: put(v.groups, id, SlimGroup { group, track_id }),
        ..v
    };
    assert(at(w.tracks, track_id) == Some(t));
    assert forall|x: Id| #[trigger] track_ok(w, x) by {
        assert(track_ok(v, x));
        if at(w.tracks, x) is Some {
            if x != track_id {
                assert(at(w.tracks, x) == at(v.tracks, x));
            }
        }
    }
    assert forall|g: Id| #[trigger] group_ok(w, g) by {
        assert(group_ok(v, g));
        if at(w.groups, g) is Some {
            if g != id {
                assert(at(w.groups, g) == at(v.groups, g));
                let x = at(v.groups, g)->Some_0;
                assert(at(v.tracks, x.track_id) is Some);
                if x.track_id != track_id {
                    assert(at(w.tracks, x.track_id) == at(v.tracks, x.track_id));
                }
            }
        }
    }
}

/// Starting a group on all tracks of a broadcast changes of a track at most whether a group is
/// open, and commits it to such groups if it was not; tracks of other broadcasts stay as they are.
proof fn lemma_start_groups(
    tracks: Seq<Option<SlimTrack>>,
    out: OutboxView,
    broadcast: Id,
    sequence: u64,
    i: nat,
)
    requires
        i <= tracks.len(),
    ensures
        ({
            let after = start_groups(tracks, out, broadcast, sequence, i).0;
            &&& after.len() == tracks.len()
            &&& forall|j: int| 0 <= j < i ==> #[trigger] after[j] == tracks[j]
            &&& forall|j: int|
                i <= j < tracks.len() ==> match tracks[j] {
                    None => (#[trigger] after[j]) is None,
                    Some(t) => {
                        &&& after[j] is Some
                        &&& after[j]->Some_0.broadcast_id == t.broadcast_id
                        &&& after[j]->Some_0.track == t.track
                        &&& t.broadcast_id != broadcast ==> after[j] == Some(t)
                        &&& after[j]->Some_0.mode == t.mode || after[j]->Some_0.mode == Some(
                            GroupMode::Broadcast,
                        )
                        &&& after[j]->Some_0.open ==> after[j]->Some_0.mode == Some(
                            GroupMode::Broadcast,
                        ) || (t.open && after[j]->Some_0.mode == t.mode)
                    },
                }
        }),
    decreases tracks.len() - i,
{
    if i < tracks.len() {
        match tracks[i as int] {
            None => lemma_start_groups(tracks, out, broadcast, sequence, i + 1),
            Some(t) => if t.broadcast_id != broadcast {
                lemma_start_groups(tracks, out, broadcast, sequence, i + 1);
            } else {
                let o1 = if t.open {
                    out.with(ActionView::FinishGroup { track: t.track })
                } else {
                    out
                };
                let o2 = o1.with(ActionView::CreateGroup { track: t.track, sequence });
                let next = tracks.update(
                    i as int,
                    Some(SlimTrack { open: true, mode: Some(GroupMode::Broadcast), ..t }),
                );
                if !((t.open && out.refuses()) || o1.refuses()) {
                    lemma_start_groups(next, o2, broadcast, sequence, i + 1);
                    let after = start_groups(tracks, out, broadcast, sequence, i).0;
                    assert(after == start_groups(next, o2, broadcast, sequence, i + 1).0);
                    assert(after[i as int] == next[i as int]);
                    assert forall|j: int| 0 <= j < i implies #[trigger] after[j] == tracks[j] by {
                        assert(after[j] == next[j]);
                    }
                    assert forall|j: int| i < j < tracks.len() implies next[j] == #[trigger] tracks[j] by {}
                }
            },
        }
    }
}

/// A track commits to one way of assigning groups for its lifetime: starting a group on all tracks
/// of a broadcast changes the mode of no track that has one.
pub proof fn law_start_group_keeps_mode(
    v: PublishView,
    out: OutboxView,
    broadcast: Id,
    sequence: u64,
    id: Id,
)
    requires
        at(v.tracks, id) matches Some(t) && t.mode is Some,
    ensures
        at(v.start_group(out, broadcast, sequence).0.tracks, id) matches Some(t) && t.mode == at(
            v.tracks,
            id,
        )->Some_0.mode,
{
    lemma_start_groups(v.tracks, out, broadcast, sequence, 0);
    let t = at(v.tracks, id)->Some_0;
    assert(v.tracks[id.0 - 1] == Some(t));
    if at(v.broadcasts, broadcast) is Some && !conflicts(v.tracks, broadcast) {
        let after = start_groups(v.tracks, out, broadcast, sequence, 0).0;
        assert(after[id.0 - 1] is Some);
        if t.broadcast_id == broadcast {
            assert(t.mode != Some(GroupMode::PerTrack));
        }
    }
}

/// Where a track of the broadcast has groups of its own, starting a group on all tracks is refused
/// before anything is changed or asked for.
pub proof fn law_conflict_changes_nothing(
    v: PublishView,
    out: OutboxView,
    broadcast: Id,
    sequence: u64,
    id: Id,
)
    requires
        at(v.broadcasts, broadcast) is Some,
        belongs(v.tracks, id, broadcast),
        at(v.tracks, id)->Some_0.mode == Some(GroupMode::PerTrack),
    ensures
        v.start_group(out, broadcast, sequence) == (v, out, Err::<(), _>(
            PublishErrorView::ModeConflict,
        )),
{
    assert(v.tracks[id.0 - 1] is Some);
    assert(conflicts(v.tracks, broadcast));
}

/// Starting a group on all tracks of a broadcast keeps what is published consistent, even where it
/// is refused halfway.
pub proof fn law_start_group_keeps(v: PublishView, out: OutboxView, broadcast: Id, sequence: u64)
    requires
        consistent(v),
    ensures
        consistent(v.start_group(out, broadcast, sequence).0),
{
    let w = v.start_group(out, broadcast, sequence).0;
    lemma_start_groups(v.tracks, out, broadcast, sequence, 0);
    if at(v.broadcasts, broadcast) is Some && !conflicts(v.tracks, broadcast) {
        assert forall|id: Id| #[trigger] track_ok(w, id) by {
            assert(track_ok(v, id));
        }
        assert forall|id: Id| #[trigger] group_ok(w, id) by {
            assert(group_ok(v, id));
            if at(w.groups, id) is Some {
                let g = at(v.groups, id)->Some_0;
                let t = at(v.tracks, g.track_id)->Some_0;
                assert(v.tracks[g.track_id.0 - 1] == Some(t));
                assert(w.tracks[g.track_id.0 - 1] is Some);
                law_start_group_keeps_mode(v, out, broadcast, sequence, g.track_id);
            }
        }
    }
}

/// Closing a track keeps what is published consistent: none of its groups is left.
pub proof fn law_track_close_keeps(v: PublishView, out: OutboxView, broadcast: Id, id: Id)
    requires
        consistent(v),
    ensures
        consistent(v.track_close(out, broadcast, id).0),
{
    let w = v.track_close(out, broadcast, id).0;
    if belongs(v.tracks, id, broadcast) {
        assert forall|x: Id| #[trigger] track_ok(w, x) by {
            assert(track_ok(v, x));
            if at(w.tracks, x) is Some {
                assert(at(w.tracks, x) == at(v.tracks, x));
            }
        }
        assert forall|x: Id| #[trigger] group_ok(w, x) by {
            assert(group_ok(v, x));
            if at(w.groups, x) is Some {
                assert(at(w.groups, x) == at(v.groups, x));
                let g = at(v.groups, x)->Some_0;
                assert(at(v.tracks, g.track_id) is Some);
                assert(at(v.tracks, id) is Some);
                assert(g.track_id != id) by {
                    assert(track_ok(v, id));
                }
                assert(at(w.tracks, g.track_id) == at(v.tracks, g.track_id));
            }
        }
    }
}

/// Closing a group keeps what is published consistent.
pub proof fn law_group_close_keeps(v: PublishView, out: OutboxView, id: Id)
    requires
        consistent(v),
    ensures
        consistent(v.group_close(out, id).0),
{
    let w = v.group_close(out, id).0;
    if at(v.groups, id) is Some {
        assert forall|x: Id| #[trigger] group_ok(w, x) by {
            assert(group_ok(v, x));
            if at(w.groups, x) is Some {
                assert(at(w.groups, x) == at(v.groups, x));
            }
        }
        assert forall|x: Id| #[trigger] track_ok(w, x) by {
            assert(track_ok(v, x));
        }
    }
}

/// Closing a broadcast keeps what is published consistent, leaves none of its tracks and none of
/// their groups, and touches nothing of other broadcasts.
pub proof fn law_close_takes_its_own(v: PublishView, broadcast: Id, id: Id)
    requires
        consistent(v),
        at(v.broadcasts, broadcast) is Some,
    ensures
        ({
            let w = v.close(broadcast).0;
            &&& consistent(w)
            &&& !belongs(w.tracks, id, broadcast)
            &&& at(v.tracks, id) is Some && !belongs(v.tracks, id, broadcast) ==> at(w.tracks, id)
                == at(v.tracks, id)
            &&& at(v.groups, id) matches Some(g) ==> at(w.groups, id) == if belongs(
                v.tracks,
                g.track_id,
                broadcast,
            ) {
                None
            } else {
                Some(g)
            }
        }),
{
    let w = v.close(broadcast).0;
    assert(w.tracks == without_broadcast(v.tracks, broadcast));
    assert(w.groups == without_groups_of(v.groups, v.tracks, broadcast));
    assert forall|x: Id| #[trigger] track_ok(w, x) by {
        assert(track_ok(v, x));
        if at(w.tracks, x) is Some {
            assert(w.tracks[x.0 - 1] == v.tracks[x.0 - 1]);
            let t = at(v.tracks, x)->Some_0;
            assert(at(w.broadcasts, t.broadcast_id) == at(v.broadcasts, t.broadcast_id));
        }
    }
    assert forall|x: Id| #[trigger] group_ok(w, x) by {
        assert(group_ok(v, x));
        if at(w.groups, x) is Some {
            assert(w.groups[x.0 - 1] == v.groups[x.0 - 1]);
            let g = at(v.groups, x)->Some_0;
            assert(at(v.tracks, g.track_id) is Some);
            assert(w.tracks[g.track_id.0 - 1] == v.tracks[g.track_id.0 - 1]);
        }
    }
}

} // verus!
