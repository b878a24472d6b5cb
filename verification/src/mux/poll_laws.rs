//! What the polls of a CMSF track give, taken together.

use crate::mux::cmsf::{metadata, CmsfErrorView};
use crate::mux::consumer::{GroupView, Polled, TrackConsumerView};
use crate::mux::demux::{DemuxView, EndReason, SegmentView, MALFORMED_LIMIT};
use vstd::prelude::*;

verus! {

/// A frame, and the number of the group that it came in.
pub type Delivered = (u64, Seq<u8>);

/// What follows the last frame that has come.
pub enum Tail {
    /// Nothing yet.
    Waiting,
    /// The track ended.
    Ended(EndReason),
}

/// The frames that have come for a demuxer and that it has not read, in the order of their
/// delivery: those of the group that it reads, as far as it goes, and then those of the groups
/// that follow. And what comes after them.
pub open spec fn unread(d: DemuxView) -> (Seq<Delivered>, Tail)
    decreases
        d.track.groups.len(),
        match d.current_group {
            Some(g) => 1 + g.frames.len(),
            None => 0,
        },
{
    match d.current_group {
        Some(g) => if g.frames.len() == 0 {
            (Seq::empty(), Tail::Waiting)
        } else {
            match g.frames[0] {
                Ok(Some(data)) => {
                    let (frames, tail) = unread(
                        DemuxView {
                            current_group: Some(
                                GroupView { frames: g.frames.drop_first(), ..g },
                            ),
                            ..d
                        },
                    );
                    (seq![(g.sequence, data@)] + frames, tail)
                },
                _ => unread(DemuxView { current_group: None, ..d }),
            }
        },
        None => if d.track.groups.len() == 0 {
            (Seq::empty(), Tail::Waiting)
        } else {
            match d.track.groups[0] {
                Ok(Some(g)) => unread(
                    DemuxView {
                        track: TrackConsumerView { groups: d.track.groups.drop_first(), ..d.track },
                        current_group: Some(g),
                        ..d
                    },
                ),
                Ok(None) => (Seq::empty(), Tail::Ended(EndReason::TrackFinished)),
                Err(e) => (Seq::empty(), Tail::Ended(EndReason::TrackError(e))),
            }
        },
    }
}

/// Whether a frame can be read.
pub open spec fn readable(frame: Delivered) -> bool {
    metadata(frame.1) is Ok
}

/// How many of the frames are looked at before the track is given up, when `count` malformed ones
/// came just before them: all, unless there are too many malformed ones in a row.
pub open spec fn looked_at(frames: Seq<Delivered>, count: nat) -> nat
    decreases frames.len(),
{
    if frames.len() == 0 {
        0
    } else if readable(frames[0]) {
        1 + looked_at(frames.drop_first(), 0)
    } else if count + 1 >= MALFORMED_LIMIT {
        1
    } else {
        1 + looked_at(frames.drop_first(), count + 1)
    }
}

/// Whether the track is given up among these frames: the last of so many malformed ones in a row
/// is there.
pub open spec fn given_up(frames: Seq<Delivered>, count: nat) -> bool
    decreases frames.len(),
{
    if frames.len() == 0 {
        false
    } else if readable(frames[0]) {
        given_up(frames.drop_first(), 0)
    } else if count + 1 >= MALFORMED_LIMIT {
        true
    } else {
        given_up(frames.drop_first(), count + 1)
    }
}

/// The segment of a frame that can be read.
pub open spec fn segment_of(d: DemuxView, frame: Delivered) -> SegmentView {
    d.segment(frame.0, frame.1, metadata(frame.1)->Ok_0)
}

/// The segments that a demuxer gives: one for each frame that can be read, in the order of their
/// delivery, until the track is given up.
pub open spec fn segments(d: DemuxView) -> Seq<SegmentView> {
    let frames = unread(d).0;
    frames.take(looked_at(frames, d.malformed_count as nat) as int).filter(
        |f: Delivered| readable(f),
    ).map_values(|f: Delivered| segment_of(d, f))
}

/// What follows the last segment that a demuxer gives.
pub open spec fn ending(d: DemuxView) -> Tail {
    let (frames, tail) = unread(d);
    if given_up(frames, d.malformed_count as nat) {
        Tail::Ended(EndReason::TrackFinished)
    } else {
        tail
    }
}

/// A demuxer after so many polls.
pub open spec fn after_polls(d: DemuxView, n: nat) -> DemuxView
    decreases n,
{
    if n == 0 {
        d
    } else {
        after_polls(d.poll().0, (n - 1) as nat)
    }
}

proof fn lemma_looked_at(frames: Seq<Delivered>, count: nat)
    ensures
        looked_at(frames, count) <= frames.len(),
        !given_up(frames, count) ==> looked_at(frames, count) == frames.len(),
    decreases frames.len(),
{
    if frames.len() > 0 {
        lemma_looked_at(frames.drop_first(), 0);
        lemma_looked_at(frames.drop_first(), count + 1);
    }
}

/// The first of some frames is or is not among those that a filter keeps.
proof fn lemma_filter_first(frames: Seq<Delivered>)
    requires
        frames.len() > 0,
    ensures
        frames.filter(|f: Delivered| readable(f)) == if readable(frames[0]) {
            seq![frames[0]] + frames.drop_first().filter(|f: Delivered| readable(f))
        } else {
            frames.drop_first().filter(|f: Delivered| readable(f))
        },
{
    let keep = |f: Delivered| readable(f);
    let one = seq![frames[0]];
    assert(one + frames.drop_first() =~= frames);
    Seq::filter_distributes_over_add(one, frames.drop_first(), keep);
    reveal_with_fuel(Seq::filter, 2);
    assert(one.drop_last() =~= Seq::empty());
    assert(one.filter(keep) =~= if readable(frames[0]) {
        one
    } else {
        Seq::empty()
    });
    assert(Seq::<Delivered>::empty() + frames.drop_first().filter(keep)
        =~= frames.drop_first().filter(keep));
}

/// What one frame adds to the segments.
proof fn lemma_segments_first(d: DemuxView, rest: DemuxView, frame: Delivered)
    requires
        unread(d).0 == seq![frame] + unread(rest).0,
        rest.track.name == d.track.name,
        rest.timescale == d.timescale,
    ensures
        readable(frame) && rest.malformed_count == 0 ==> segments(d) == seq![segment_of(d, frame)]
            + segments(rest),
        !readable(frame) && d.malformed_count + 1 < MALFORMED_LIMIT && rest.malformed_count
            == d.malformed_count + 1 ==> segments(d) == segments(rest),
        !readable(frame) && d.malformed_count + 1 >= MALFORMED_LIMIT ==> segments(d).len() == 0,
{
    let frames = unread(d).0;
    let count = d.malformed_count as nat;
    let taken = frames.take(looked_at(frames, count) as int);
    lemma_looked_at(frames, count);
    lemma_looked_at(unread(rest).0, rest.malformed_count as nat);
    assert(frames.drop_first() =~= unread(rest).0);
    lemma_filter_first(taken);
    let keep = |f: Delivered| readable(f);
    let later = unread(rest).0.take(
        looked_at(unread(rest).0, rest.malformed_count as nat) as int,
    );
    if readable(frame) && rest.malformed_count == 0 {
        assert(taken.drop_first() =~= later);
        assert(segments(d) =~= seq![segment_of(d, frame)] + segments(rest));
    }
    if !readable(frame) && d.malformed_count + 1 < MALFORMED_LIMIT && rest.malformed_count
        == d.malformed_count + 1 {
        assert(taken.drop_first() =~= later);
        assert(segments(d) =~= segments(rest));
    }
    if !readable(frame) && d.malformed_count + 1 >= MALFORMED_LIMIT {
        assert(taken.drop_first() =~= Seq::empty());
        reveal(Seq::filter);
        assert(taken.drop_first().filter(keep) =~= Seq::empty());
    }
}

/// What one poll gives: the first of the segments, and afterwards the others are left; or, where
/// there are none, what follows them.
proof fn lemma_one_poll(d: DemuxView)
    requires
        d.malformed_count < MALFORMED_LIMIT,
    ensures
        ({
            let (after, res) = d.poll();
            if segments(d).len() > 0 {
                &&& res == Polled::Ready(Ok::<_, CmsfErrorView>(Some(segments(d)[0])))
                &&& segments(after) == segments(d).drop_first()
                &&& ending(after) == ending(d)
                &&& after.malformed_count == 0
            } else {
                match ending(d) {
                    Tail::Waiting => res == Polled::<Result<Option<SegmentView>, CmsfErrorView>>::Pending,
                    Tail::Ended(reason) => {
                        &&& res == Polled::Ready(Ok::<Option<SegmentView>, CmsfErrorView>(None))
                        &&& after.end_reason == Some(reason)
                    },
                }
            }
        }),
    decreases
        d.track.groups.len(),
        match d.current_group {
            Some(g) => 1 + g.frames.len(),
            None => 0,
        },
{
    reveal(Seq::filter);
    match d.current_group {
        Some(g) => if g.frames.len() > 0 {
            let rest = DemuxView {
                current_group: Some(GroupView { frames: g.frames.drop_first(), ..g }),
                ..d
            };
            match g.frames[0] {
                Ok(Some(data)) => {
                    let frame: Delivered = (g.sequence, data@);
                    let counted = DemuxView {
                        malformed_count: if readable(frame) {
                            0
                        } else {
                            (d.malformed_count + 1) as u32
                        },
                        ..rest
                    };
                    lemma_same_unread(rest, counted);
                    let frames = unread(d).0;
                    assert(frames.drop_first() =~= unread(counted).0);
                    lemma_segments_first(d, counted, frame);
                    if readable(frame) {
                        assert(segments(d).drop_first() =~= segments(counted));
                    } else if d.malformed_count + 1 < MALFORMED_LIMIT {
                        lemma_one_poll(counted);
                    }
                },
                _ => {
                    let left = DemuxView { current_group: None, ..d };
                    lemma_one_poll(left);
                    assert(segments(d) =~= segments(left));
                },
            }
        } else {
            assert(segments(d) =~= Seq::empty());
        },
        None => if d.track.groups.len() > 0 {
            match d.track.groups[0] {
                Ok(Some(g)) => {
                    let next = DemuxView {
                        track: TrackConsumerView { groups: d.track.groups.drop_first(), ..d.track },
                        current_group: Some(g),
                        ..d
                    };
                    lemma_one_poll(next);
                    assert(segments(d) =~= segments(next));
                },
                _ => {
                    assert(segments(d) =~= Seq::empty());
                },
            }
        } else {
            assert(segments(d) =~= Seq::empty());
        },
    }
}

/// What has come does not depend on how many malformed frames were counted.
proof fn lemma_same_unread(a: DemuxView, b: DemuxView)
    requires
        a.track == b.track,
        a.current_group == b.current_group,
    ensures
        unread(a) == unread(b),
    decreases
        a.track.groups.len(),
        match a.current_group {
            Some(g) => 1 + g.frames.len(),
            None => 0,
        },
{
    match a.current_group {
        Some(g) => if g.frames.len() > 0 {
            let rest = Some(GroupView { frames: g.frames.drop_first(), ..g });
            lemma_same_unread(
                DemuxView { current_group: rest, ..a },
                DemuxView { current_group: rest, ..b },
            );
            lemma_same_unread(
                DemuxView { current_group: None, ..a },
                DemuxView { current_group: None, ..b },
            );
        },
        None => if a.track.groups.len() > 0 {
            let track = TrackConsumerView { groups: a.track.groups.drop_first(), ..a.track };
            if let Ok(Some(g)) = a.track.groups[0] {
                lemma_same_unread(
                    DemuxView { track, current_group: Some(g), ..a },
                    DemuxView { track, current_group: Some(g), ..b },
                );
            }
        },
    }
}

/// The polls of a demuxer that has read nothing give one segment for each frame of the track that
/// can be read, unchanged and in the order of delivery, until the track is given up; each has the
/// number of its group, and the times of its frame. The poll after the last of them gives no
/// segment, and then the reason is known why the track ended; or nothing has come yet. None fails.
pub proof fn law_polls_give_the_frames(
    track: TrackConsumerView<Vec<u8>>,
    init_data: Seq<u8>,
    timescale: u64,
    n: nat,
)
    requires
        n <= segments(DemuxView::fresh(track, init_data, timescale)).len(),
    ensures
        ({
            let d = DemuxView::fresh(track, init_data, timescale);
            let (after, res) = after_polls(d, n).poll();
            if n < segments(d).len() {
                res == Polled::Ready(Ok::<_, CmsfErrorView>(Some(segments(d)[n as int])))
            } else {
                match ending(d) {
                    Tail::Waiting => res == Polled::<Result<Option<SegmentView>, CmsfErrorView>>::Pending,
                    Tail::Ended(reason) => {
                        &&& res == Polled::Ready(Ok::<Option<SegmentView>, CmsfErrorView>(None))
                        &&& after.end_reason == Some(reason)
                    },
                }
            }
        }),
{
    law_polls_go_on(DemuxView::fresh(track, init_data, timescale), n);
}

/// Of whatever state a demuxer is in, as long as it has not given the track up, the polls that
/// follow give the segments of what has come by then, one after another, and what follows them.
pub proof fn law_polls_go_on(d: DemuxView, n: nat)
    requires
        d.malformed_count < MALFORMED_LIMIT,
        n <= segments(d).len(),
    ensures
        ({
            let e = after_polls(d, n);
            &&& e.malformed_count < MALFORMED_LIMIT
            &&& segments(e) == segments(d).skip(n as int)
            &&& ending(e) == ending(d)
            &&& n < segments(d).len() ==> e.poll().1 == Polled::Ready(
                Ok::<_, CmsfErrorView>(Some(segments(d)[n as int])),
            )
            &&& n == segments(d).len() ==> match ending(d) {
                Tail::Waiting => e.poll().1 == Polled::<
                    Result<Option<SegmentView>, CmsfErrorView>,
                >::Pending,
                Tail::Ended(reason) => {
                    &&& e.poll().1 == Polled::Ready(Ok::<Option<SegmentView>, CmsfErrorView>(None))
                    &&& e.poll().0.end_reason == Some(reason)
                },
            }
        }),
    decreases n,
{
    lemma_one_poll(d);
    if n == 0 {
        assert(segments(d).skip(0) =~= segments(d));
    } else {
        let next = d.poll().0;
        law_polls_go_on(next, (n - 1) as nat);
        assert(segments(d).drop_first().skip(n - 1) =~= segments(d).skip(n as int));
    }
}

/// Where fewer than the limit of malformed frames come in a row, a segment is given for every
/// frame that can be read.
pub proof fn law_few_malformed_lose_nothing(d: DemuxView)
    requires
        !given_up(unread(d).0, d.malformed_count as nat),
    ensures
        segments(d) == unread(d).0.filter(|f: Delivered| readable(f)).map_values(
            |f: Delivered| segment_of(d, f),
        ),
        ending(d) == unread(d).1,
{
    let frames = unread(d).0;
    lemma_looked_at(frames, d.malformed_count as nat);
    assert(frames.take(frames.len() as int) =~= frames);
}

/// The track is given up exactly where the limit of malformed frames comes in a row.
pub proof fn law_given_up_at_the_limit(frames: Seq<Delivered>)
    ensures
        given_up(frames, 0) <==> exists|i: int| #[trigger] malformed_run(frames, i),
{
    lemma_given_up(frames, 0);
    assert forall|i: int| #[trigger] malformed_run(frames, i) implies run_of(
        frames,
        i,
        MALFORMED_LIMIT as nat,
    ) by {}
    if given_up(frames, 0) {
        let i = choose|i: int| run_of(frames, i, MALFORMED_LIMIT as nat);
        if run_of(frames, i, MALFORMED_LIMIT as nat) {
            assert(malformed_run(frames, i));
        } else {
            assert(run_of(frames, 0, MALFORMED_LIMIT as nat));
            assert(malformed_run(frames, 0));
        }
    }
}

/// Whether from frame `i` on there are `k` malformed frames.
pub open spec fn run_of(frames: Seq<Delivered>, i: int, k: nat) -> bool {
    &&& 0 <= i
    &&& i + k <= frames.len()
    &&& forall|j: int| i <= j < i + k ==> !readable(#[trigger] frames[j])
}

/// Whether from frame `i` on there are as many malformed frames as the limit.
pub open spec fn malformed_run(frames: Seq<Delivered>, i: int) -> bool {
    run_of(frames, i, MALFORMED_LIMIT as nat)
}

proof fn lemma_given_up(frames: Seq<Delivered>, count: nat)
    requires
        count < MALFORMED_LIMIT,
    ensures
        given_up(frames, count) <==> run_of(frames, 0, (MALFORMED_LIMIT - count) as nat) || exists|
            i: int,
        | #[trigger]
            run_of(frames, i, MALFORMED_LIMIT as nat),
    decreases frames.len(),
{
    let limit = MALFORMED_LIMIT as nat;
    let left = (limit - count) as nat;
    let rest = frames.drop_first();
    if frames.len() == 0 {
    } else if readable(frames[0]) {
        lemma_given_up(rest, 0);
        assert(!run_of(frames, 0, left));
        assert forall|i: int| #[trigger] run_of(frames, i, limit) implies run_of(
            rest,
            i - 1,
            limit,
        ) by {
            assert(i > 0);
            assert forall|j: int| i - 1 <= j < i - 1 + limit implies !readable(
                #[trigger] rest[j],
            ) by {
                assert(rest[j] == frames[j + 1]);
            }
        }
        assert forall|i: int| #[trigger] run_of(rest, i, limit) implies run_of(
            frames,
            i + 1,
            limit,
        ) by {
            assert forall|j: int| i + 1 <= j < i + 1 + limit implies !readable(
                #[trigger] frames[j],
            ) by {
                assert(rest[j - 1] == frames[j]);
            }
        }
    } else if count + 1 >= limit {
        assert(run_of(frames, 0, left));
    } else {
        lemma_given_up(rest, count + 1);
        let fewer = (limit - (count + 1)) as nat;
        assert(run_of(rest, 0, fewer) <==> run_of(frames, 0, left)) by {
            if run_of(rest, 0, fewer) {
                assert forall|j: int| 0 <= j < left implies !readable(#[trigger] frames[j]) by {
                    if j > 0 {
                        assert(rest[j - 1] == frames[j]);
                    }
                }
            }
            if run_of(frames, 0, left) {
                assert forall|j: int| 0 <= j < fewer implies !readable(#[trigger] rest[j]) by {
                    assert(rest[j] == frames[j + 1]);
                }
            }
        }
        assert forall|i: int| #[trigger] run_of(frames, i, limit) implies run_of(frames, 0, left)
            || run_of(rest, i - 1, limit) by {
            if i > 0 {
                assert forall|j: int| i - 1 <= j < i - 1 + limit implies !readable(
                    #[trigger] rest[j],
                ) by {
                    assert(rest[j] == frames[j + 1]);
                }
            }
        }
        assert forall|i: int| #[trigger] run_of(rest, i, limit) implies run_of(
            frames,
            i + 1,
            limit,
        ) by {
            assert forall|j: int| i + 1 <= j < i + 1 + limit implies !readable(
                #[trigger] frames[j],
            ) by {
                assert(rest[j - 1] == frames[j]);
            }
        }
    }
}

} // verus!
