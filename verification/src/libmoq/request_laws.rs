//! What is listed and asked for on behalf of a caller.

use crate::libmoq::publish::{
    belongs, broadcast_created, classified, container_of, group_opened, listed, media_registered,
    rendition_of, same_entry, start_groups,
    starts, track_created, video_by, GroupMode, ParsedCodec, PublishErrorView, PublishView, SlimTrack,
    TrackConfig,
};
use crate::libmoq::slab::{at, has_vacancy, law_put_then_at, law_take_then_at, put, Id};
use crate::mux::catalog::{Container, HangCatalogView, Rendition};
use crate::mux::outbox::{ActionView, OutboxView};
use vstd::prelude::*;

verus! {

/// A track is listed as it was configured: under its name, with its codec and its bitrate, its
/// sample rate and channels if it is audio, its size and frame rate if it is video, and with its
/// init segment, if that is not empty.
pub proof fn law_entry_is_as_configured(config: TrackConfig, parsed: ParsedCodec)
    ensures
        rendition_of(config, parsed) matches Ok(entry) ==> {
            let cmaf = config.init_data is Some && config.init_data->Some_0@.len() > 0;
            match entry {
                Rendition::Audio(name, c) => {
                    &&& name == config.name@
                    &&& config.sample_rate == Some(c.sample_rate)
                    &&& config.channel_count == Some(c.channel_count)
                    &&& c.sample_rate > 0
                    &&& c.channel_count > 0
                    &&& c.bitrate == config.bitrate
                    &&& parsed.audio matches Ok(codec) && c.codec == codec@
                    &&& c.description is None
                    &&& c.jitter is None
                    &&& if cmaf {
                        c.container == (Container::Cmaf { init: config.init_data->Some_0@ })
                    } else {
                        c.container == Container::<Seq<u8>>::Legacy
                    }
                },
                Rendition::Video(name, c) => {
                    &&& name == config.name@
                    &&& c.coded_width == config.width
                    &&& c.coded_height == config.height
                    &&& c.framerate == config.framerate
                    &&& c.bitrate == config.bitrate
                    &&& parsed.video matches Ok(codec) && c.codec == codec@
                    &&& c.description is None
                    &&& c.jitter is None
                    &&& if cmaf {
                        c.container == (Container::Cmaf { init: config.init_data->Some_0@ })
                    } else {
                        c.container == Container::<Seq<u8>>::Legacy
                    }
                },
            }
        },
{
}

/// Whether a codec string is that of H.264, H.265, VP8, VP9 or AV1.
pub open spec fn names_video(codec: Seq<char>) -> bool {
    starts(codec, "avc1."@) || starts(codec, "avc3."@) || starts(codec, "hvc1."@) || starts(
        codec,
        "hev1."@,
    ) || codec == "vp8"@ || starts(codec, "vp09."@) || starts(codec, "av01."@)
}

/// Whether a codec string is that of AAC or Opus.
pub open spec fn names_audio(codec: Seq<char>) -> bool {
    starts(codec, "mp4a.40."@) || codec == "opus"@
}

/// A track whose codec is known is of the kind of its codec, whatever fields are given. Of another
/// one the fields decide: it is video with a width or a height, audio with a sample rate or a
/// channel count, and is refused with both or none of these. Video needs nothing else, and audio a
/// sample rate and channels that are not zero.
pub proof fn law_kind_of_track(config: TrackConfig, parsed: ParsedCodec)
    ensures
        ({
            let entry = rendition_of(config, parsed);
            let sized = config.width is Some || config.height is Some;
            let sampled = config.sample_rate is Some || config.channel_count is Some;
            let known = names_video(config.codec@) || names_audio(config.codec@);
            let shaped = config.sample_rate is Some && config.sample_rate->Some_0 > 0
                && config.channel_count is Some && config.channel_count->Some_0 > 0;
            &&& names_video(config.codec@) && parsed.video is Ok ==> entry is Ok && entry->Ok_0 is Video
            &&& names_audio(config.codec@) && !names_video(config.codec@) && parsed.audio is Ok
                && shaped ==> entry is Ok && entry->Ok_0 is Audio
            &&& names_audio(config.codec@) && !names_video(config.codec@) && !shaped
                ==> entry is Err && entry->Err_0 is InitFailed
            &&& !known && sized && !sampled && parsed.video is Ok ==> entry is Ok && entry->Ok_0 is Video
            &&& !known && sampled && !sized && parsed.audio is Ok && shaped ==> entry is Ok && entry->Ok_0 is Audio
            &&& !known && sized == sampled ==> entry == Err::<Rendition<Seq<char>, Seq<u8>>, _>(
                PublishErrorView::UnknownFormat(config.codec@),
            )
        }),
{
}

/// Entries of different kinds never give way to one another, and entries of the same kind do
/// exactly if their names are the same.
pub proof fn law_entries_are_told_apart(
    a: Rendition<Seq<char>, Seq<u8>>,
    b: Rendition<Seq<char>, Seq<u8>>,
)
    ensures
        same_entry(a, b) ==> (a is Video <==> b is Video),
        a is Video && b is Video ==> (same_entry(a, b) <==> a->Video_0 == b->Video_0),
        a is Audio && b is Audio ==> (same_entry(a, b) <==> a->Audio_0 == b->Audio_0),
{
}

/// An entry that is put into a catalog is found there, in the place of the first one of its kind
/// and name, or at the end; all others stay where they were.
pub proof fn law_entry_is_listed(
    entries: Seq<Rendition<Seq<char>, Seq<u8>>>,
    entry: Rendition<Seq<char>, Seq<u8>>,
    i: nat,
)
    requires
        i <= entries.len(),
        forall|j: int| 0 <= j < i ==> !same_entry(#[trigger] entries[j], entry),
    ensures
        ({
            let after = listed(entries, entry, i);
            exists|k: int|
                {
                    &&& 0 <= k < after.len()
                    &&& #[trigger] after[k] == entry
                    &&& k < entries.len() ==> same_entry(entries[k], entry) && after.len()
                        == entries.len()
                    &&& k >= entries.len() ==> k == entries.len() && after.len() == k + 1
                    &&& forall|j: int|
                        0 <= j < entries.len() && j != k ==> #[trigger] after[j] == entries[j]
                    &&& forall|j: int| 0 <= j < k ==> !same_entry(#[trigger] entries[j], entry)
                }
        }),
    decreases entries.len() - i,
{
    let after = listed(entries, entry, i);
    if i >= entries.len() {
        assert(after[entries.len() as int] == entry);
    } else if same_entry(entries[i as int], entry) {
        assert(after[i as int] == entry);
    } else {
        law_entry_is_listed(entries, entry, i + 1);
    }
}

/// A track that was created is one of its broadcast, with no group open and committed to nothing;
/// the transport was asked for it under its name and by its number, and for nothing else. Its
/// entry is in the catalog of that broadcast. Nothing else is changed.
pub proof fn law_track_is_created(
    before: PublishView,
    out: OutboxView,
    broadcast: Id,
    config: TrackConfig,
    parsed: ParsedCodec,
    after: PublishView,
    o: OutboxView,
    id: Id,
    other: Id,
)
    requires
        track_created(before, out, broadcast, config, parsed, after, o, Ok(id)),
    ensures
        ({
            &&& at(after.tracks, id) matches Some(t)
            &&& t.broadcast_id == broadcast
            &&& !t.open
            &&& t.mode is None
            &&& o.sent == out.sent.push(
                ActionView::CreateTrackOn {
                    broadcast: broadcast.0,
                    track: t.track,
                    name: config.name@,
                },
            )
            &&& after.next_track > t.track
            &&& t.track == before.next_track
        }),
        at(before.tracks, id) is None,
        !out.refuses(),
        other != id ==> at(after.tracks, other) == at(before.tracks, other),
        other != broadcast ==> at(after.broadcasts, other) == at(before.broadcasts, other),
        after.groups == before.groups,
        rendition_of(config, parsed) matches Ok(entry) && at(after.broadcasts, broadcast) matches Some(
            c,
        ) && c.renditions.contains(entry),
{
    let entry = rendition_of(config, parsed)->Ok_0;
    let had = at(before.broadcasts, broadcast)->Some_0;
    law_entry_is_listed(had.renditions, entry, 0);
    let now = listed(had.renditions, entry, 0);
    assert(at(after.broadcasts, broadcast)->Some_0.renditions == now);
    let k = choose|k: int| 0 <= k < now.len() && #[trigger] now[k] == entry;
    assert(now[k] == entry);
}

/// A track is created wherever it can be described, its broadcast is there, the transport takes
/// it and a handle is left; else nothing of the caller's is changed but the catalog, and that only
/// where no handle is left.
pub proof fn law_track_creation_is_owed(
    before: PublishView,
    out: OutboxView,
    broadcast: Id,
    config: TrackConfig,
    parsed: ParsedCodec,
    after: PublishView,
    o: OutboxView,
    res: Result<Id, PublishErrorView>,
)
    requires
        track_created(before, out, broadcast, config, parsed, after, o, res),
        before.next_track < usize::MAX,
        before.tracks.len() < u32::MAX,
    ensures
        res is Ok <==> rendition_of(config, parsed) is Ok && at(before.broadcasts, broadcast)
            is Some && !out.refuses(),
        res is Err ==> after == before,
        res matches Err(e) ==> rendition_of(config, parsed) matches Err(f) ==> e == f,
        rendition_of(config, parsed) is Err || at(before.broadcasts, broadcast) is None ==> o
            == out,
{
}

/// A group that was opened belongs to its track, which is then committed to such groups; the
/// transport was asked for it on that track, with the sequence number, and for nothing else. What
/// is then written to its handle goes to that group.
pub proof fn law_group_is_opened(
    before: PublishView,
    out: OutboxView,
    track: Id,
    sequence: u64,
    after: PublishView,
    o: OutboxView,
    id: Id,
    other: Id,
    data: Seq<u8>,
)
    requires
        group_opened(before, out, track, sequence, after, o, Ok(id)),
    ensures
        ({
            &&& at(before.tracks, track) matches Some(t)
            &&& t.mode != Some(GroupMode::Broadcast)
            &&& at(after.tracks, track) matches Some(u)
            &&& u.mode == Some(GroupMode::PerTrack)
            &&& u.track == t.track
            &&& u.broadcast_id == t.broadcast_id
            &&& u.open == t.open
            &&& at(after.groups, id) matches Some(g)
            &&& g.track_id == track
            &&& g.group == before.next_group
            &&& after.next_group > g.group
            &&& o.sent == out.sent.push(
                ActionView::OpenGroup { track: t.track, group: g.group, sequence },
            )
            &&& after.group_write(o, id, data).0.sent == o.sent.push(
                ActionView::WriteGroup { group: g.group, data },
            )
            &&& after.group_close(o, id).1.sent == o.sent.push(
                ActionView::CloseGroup { group: g.group },
            )
        }),
        at(before.groups, id) is None,
        !out.refuses(),
        other != id ==> at(after.groups, other) == at(before.groups, other),
        other != track ==> at(after.tracks, other) == at(before.tracks, other),
        after.broadcasts == before.broadcasts,
{
}

/// A group is opened wherever its track is there and has not committed to groups of its whole
/// broadcast, the transport takes it and a handle is left; else nothing is changed.
pub proof fn law_opening_is_owed(
    before: PublishView,
    out: OutboxView,
    track: Id,
    sequence: u64,
    after: PublishView,
    o: OutboxView,
    res: Result<Id, PublishErrorView>,
)
    requires
        group_opened(before, out, track, sequence, after, o, res),
        before.next_group < usize::MAX,
        before.groups.len() < u32::MAX,
    ensures
        res is Ok <==> at(before.tracks, track) is Some && at(before.tracks, track)->Some_0.mode
            != Some(GroupMode::Broadcast) && !out.refuses(),
        res is Err ==> after == before,
        at(before.tracks, track) is None ==> res == Err::<Id, _>(PublishErrorView::TrackNotFound),
        at(before.tracks, track) is Some && at(before.tracks, track)->Some_0.mode == Some(
            GroupMode::Broadcast,
        ) ==> res == Err::<Id, _>(PublishErrorView::ModeConflict) && o == out,
{
}

/// A frame that is written to a handle is written unchanged, to what the handle stands for, and to
/// nothing else; it is refused where nothing stands behind the handle, or where no group is open.
pub proof fn law_frames_go_where_told(
    v: PublishView,
    out: OutboxView,
    broadcast: Id,
    track: Id,
    group: Id,
    data: Seq<u8>,
)
    ensures
        at(v.groups, group) matches Some(g) ==> v.group_write(out, group, data).0.sent
            == out.sent.push(ActionView::WriteGroup { group: g.group, data }),
        at(v.groups, group) is None ==> v.group_write(out, group, data) == (out, Err::<(), _>(
            PublishErrorView::GroupNotFound,
        )),
        v.group_write(out, group, data).1 is Ok <==> at(v.groups, group) is Some
            && !out.refuses(),
        ({
            let t = at(v.tracks, track)->Some_0;
            let there = at(v.tracks, track) is Some && t.broadcast_id == broadcast;
            let (o, res) = v.write(out, broadcast, track, data);
            &&& there && t.open ==> o.sent == out.sent.push(
                ActionView::WriteFrame { track: t.track, data },
            )
            &&& there && !t.open ==> o == out && res == Err::<(), _>(
                PublishErrorView::NoActiveGroup,
            )
            &&& !there ==> o == out && res == Err::<(), _>(PublishErrorView::TrackNotFound)
            &&& res is Ok <==> there && t.open && !out.refuses()
        }),
{
}

/// A group that is closed is finished with the transport, and its handle is free; a track that is
/// closed has its open group finished first, and then itself, and its handle is free.
pub proof fn law_closing_finishes(
    v: PublishView,
    out: OutboxView,
    broadcast: Id,
    track: Id,
    group: Id,
)
    ensures
        at(v.groups, group) matches Some(g) ==> {
            let (w, o, res) = v.group_close(out, group);
            &&& at(w.groups, group) is None
            &&& o.sent == out.sent.push(ActionView::CloseGroup { group: g.group })
            &&& res is Ok <==> !out.refuses()
        },
        at(v.groups, group) is None ==> v.group_close(out, group) == (v, out, Err::<(), _>(
            PublishErrorView::GroupNotFound,
        )),
        ({
            let t = at(v.tracks, track)->Some_0;
            let there = at(v.tracks, track) is Some && t.broadcast_id == broadcast;
            let (w, o, res) = v.track_close(out, broadcast, track);
            &&& !there ==> w == v && o == out && res == Err::<(), _>(
                PublishErrorView::TrackNotFound,
            )
            &&& there ==> at(w.tracks, track) is None && w.broadcasts == v.broadcasts
            &&& there && res is Ok && t.open ==> o.sent == out.sent.push(
                ActionView::FinishGroup { track: t.track },
            ).push(ActionView::FinishTrack { track: t.track })
            &&& there && !t.open ==> o.sent == out.sent.push(
                ActionView::FinishTrack { track: t.track },
            )
            &&& there && !t.open ==> (res is Ok <==> !out.refuses())
        }),
{
}

/// Whether a request is the start of a group with a sequence number on a track.
pub open spec fn starts_on(a: ActionView, track: usize, sequence: u64) -> bool {
    a == (ActionView::CreateGroup { track, sequence })
}

/// What is asked for from a place on, of the tracks of a broadcast.
proof fn lemma_all_are_started(
    tracks: Seq<Option<SlimTrack>>,
    out: OutboxView,
    broadcast: Id,
    sequence: u64,
    i: nat,
)
    requires
        i <= tracks.len(),
    ensures
        ({
            let (after, o, res) = start_groups(tracks, out, broadcast, sequence, i);
            &&& after.len() == tracks.len()
            &&& forall|j: int| 0 <= j < i ==> #[trigger] after[j] == tracks[j]
            &&& out.sent.len() <= o.sent.len()
            &&& forall|n: int| 0 <= n < out.sent.len() ==> #[trigger] o.sent[n] == out.sent[n]
            &&& res is Ok ==> forall|j: int|
                i <= j < tracks.len() && (#[trigger] tracks[j]) is Some
                    && tracks[j]->Some_0.broadcast_id == broadcast ==> {
                    &&& after[j] matches Some(u)
                    &&& u.open
                    &&& u.mode == Some(GroupMode::Broadcast)
                    &&& exists|n: int|
                        {
                            &&& out.sent.len() <= n < o.sent.len()
                            &&& #[trigger] starts_on(
                                o.sent[n],
                                tracks[j]->Some_0.track,
                                sequence,
                            )
                            &&& tracks[j]->Some_0.open ==> n > out.sent.len() && o.sent[n - 1] == (
                            ActionView::FinishGroup { track: tracks[j]->Some_0.track })
                        }
                }
        }),
    decreases tracks.len() - i,
{
    if i < tracks.len() {
        match tracks[i as int] {
            None => lemma_all_are_started(tracks, out, broadcast, sequence, i + 1),
            Some(t) => if t.broadcast_id != broadcast {
                lemma_all_are_started(tracks, out, broadcast, sequence, i + 1);
            } else {
                let o1 = if t.open {
                    out.with(ActionView::FinishGroup { track: t.track })
                } else {
                    out
                };
                let o2 = o1.with(ActionView::CreateGroup { track: t.track, sequence });
                let next = tracks.update(
                    i as int,
                    Some(SlimTrack { open: true, mode: Some(GroupMode::Broadcast), ..t }),
                );
                if !((t.open && out.refuses()) || o1.refuses()) {
                    lemma_all_are_started(next, o2, broadcast, sequence, i + 1);
                    let (after, o, res) = start_groups(tracks, out, broadcast, sequence, i);
                    assert((after, o, res) == start_groups(next, o2, broadcast, sequence, i + 1));
                    assert(after[i as int] == next[i as int]);
                    assert forall|n: int| 0 <= n < out.sent.len() implies #[trigger] o.sent[n]
                        == out.sent[n] by {
                        assert(o.sent[n] == o2.sent[n]);
                    }
                    assert forall|j: int| 0 <= j < i implies #[trigger] after[j] == tracks[j] by {
                        assert(after[j] == next[j]);
                    }
                    let at = o1.sent.len() as int;
                    assert(o.sent[at] == o2.sent[at]);
                    assert(starts_on(o.sent[at], t.track, sequence));
                    if t.open {
                        assert(o.sent[at - 1] == o2.sent[at - 1]);
                    }
                    if res is Ok {
                        assert forall|j: int|
                            i < j < tracks.len() && (#[trigger] tracks[j]) is Some
                                && tracks[j]->Some_0.broadcast_id == broadcast implies {
                            &&& after[j] matches Some(u)
                            &&& u.open
                            &&& u.mode == Some(GroupMode::Broadcast)
                            &&& exists|n: int|
                                {
                                    &&& out.sent.len() <= n < o.sent.len()
                                    &&& #[trigger] starts_on(
                                        o.sent[n],
                                        tracks[j]->Some_0.track,
                                        sequence,
                                    )
                                    &&& tracks[j]->Some_0.open ==> n > out.sent.len() && o.sent[n
                                        - 1] == (ActionView::FinishGroup {
                                        track: tracks[j]->Some_0.track,
                                    })
                                }
                        } by {
                            assert(next[j] == tracks[j]);
                            let n = choose|n: int|
                                {
                                    &&& o2.sent.len() <= n < o.sent.len()
                                    &&& #[trigger] starts_on(
                                        o.sent[n],
                                        next[j]->Some_0.track,
                                        sequence,
                                    )
                                    &&& next[j]->Some_0.open ==> n > o2.sent.len() && o.sent[n - 1]
                                        == (ActionView::FinishGroup {
                                        track: next[j]->Some_0.track,
                                    })
                                };
                            assert(starts_on(o.sent[n], tracks[j]->Some_0.track, sequence));
                        }
                    }
                }
            },
        }
    }
}

/// Where a group is started on all tracks of a broadcast, every one of them has it: the transport
/// was asked for a group with that sequence number on its track, behind the end of the group that
/// was open, if one was; and it is committed to such groups.
pub proof fn law_all_tracks_start_together(
    v: PublishView,
    out: OutboxView,
    broadcast: Id,
    sequence: u64,
    track: Id,
)
    requires
        v.start_group(out, broadcast, sequence).2 is Ok,
        at(v.tracks, track) matches Some(t) && t.broadcast_id == broadcast,
    ensures
        ({
            let (w, o, _) = v.start_group(out, broadcast, sequence);
            let t = at(v.tracks, track)->Some_0;
            &&& at(w.tracks, track) matches Some(u) && u.open && u.mode == Some(
                GroupMode::Broadcast,
            )
            &&& exists|n: int|
                {
                    &&& out.sent.len() <= n < o.sent.len()
                    &&& #[trigger] starts_on(o.sent[n], t.track, sequence)
                    &&& t.open ==> n > out.sent.len() && o.sent[n - 1] == (
                    ActionView::FinishGroup { track: t.track })
                }
        }),
{
    lemma_all_are_started(v.tracks, out, broadcast, sequence, 0);
    assert(v.tracks[track.0 - 1] is Some);
}

/// A text starts with another exactly if it is the other and something behind it.
pub proof fn law_prefix(s: Seq<char>, prefix: Seq<char>, rest: Seq<char>)
    ensures
        starts(prefix + rest, prefix),
        starts(s, prefix) ==> s == prefix + s.skip(prefix.len() as int),
        starts(s, s),
{
    assert((prefix + rest).take(prefix.len() as int) =~= prefix);
    assert(s.take(s.len() as int) =~= s);
    if starts(s, prefix) {
        assert(s =~= prefix + s.skip(prefix.len() as int));
    }
}

/// A codec string is taken for video exactly if it names video, and for audio exactly if it names
/// audio; the fields of a track decide only where it names neither.
pub proof fn law_codec_decides(config: TrackConfig)
    ensures
        classified(config.codec@) == Some(true) <==> names_video(config.codec@),
        classified(config.codec@) == Some(false) <==> names_audio(config.codec@)
            && !names_video(config.codec@),
        classified(config.codec@) is Some ==> video_by(config) == classified(config.codec@),
{
}

/// A track with an init segment that is not empty is CMAF, and any other is not.
pub proof fn law_container_of_track(init_data: Option<Seq<u8>>)
    ensures
        container_of(init_data) is Cmaf <==> init_data is Some && init_data->Some_0.len() > 0,
        container_of(init_data) is Legacy <==> init_data is None || init_data->Some_0.len() == 0,
        container_of(init_data) is Cmaf ==> container_of(init_data)->init == init_data->Some_0,
{
}

/// A handle leads to what was put there, and nowhere before anything was.
pub proof fn law_nothing_is_published_at_first(id: Id)
    ensures
        at(PublishView::empty().broadcasts, id) is None,
        at(PublishView::empty().tracks, id) is None,
        at(PublishView::empty().groups, id) is None,
        PublishView::empty().next_track == 0,
        PublishView::empty().next_group == 0,
{
}

/// A broadcast that is closed is gone, with every track that belongs to it and every group of
/// those; all others stay. One that is not there is not found.
pub proof fn law_closing_a_broadcast(v: PublishView, id: Id, other: Id)
    ensures
        ({
            let (w, res) = v.close(id);
            &&& res is Ok <==> at(v.broadcasts, id) is Some
            &&& res is Err ==> w == v && res->Err_0 == PublishErrorView::BroadcastNotFound
            &&& res is Ok ==> {
                &&& w.media == v.media
                &&& w.next_track == v.next_track
                &&& w.next_group == v.next_group
                &&& at(v.tracks, other) is None ==> at(w.tracks, other) is None
                &&& at(v.tracks, other) is Some ==> (at(w.tracks, other) is None <==> at(
                    v.tracks,
                    other,
                )->Some_0.broadcast_id == id)
                &&& at(w.tracks, other) is Some ==> at(w.tracks, other) == at(v.tracks, other)
                &&& at(w.groups, other) is Some ==> at(w.groups, other) == at(v.groups, other)
                &&& at(v.groups, other) is Some ==> (at(w.groups, other) is None <==> {
                    let t = at(v.tracks, at(v.groups, other)->Some_0.track_id);
                    t is Some && t->Some_0.broadcast_id == id
                })
            }
        }),
{
}

/// A track is closed by whom it belongs to: it is gone, its open group is finished before it, and
/// so are its groups; another broadcast does not find it.
pub proof fn law_closing_a_track(v: PublishView, out: OutboxView, broadcast: Id, id: Id, other: Id)
    ensures
        ({
            let t = at(v.tracks, id);
            let mine = t is Some && t->Some_0.broadcast_id == broadcast;
            let (w, o, res) = v.track_close(out, broadcast, id);
            &&& !mine ==> w == v && o == out && res == Err::<(), _>(
                PublishErrorView::TrackNotFound,
            )
            &&& mine ==> at(w.tracks, id) is None
            &&& mine && other != id ==> at(w.tracks, other) == at(v.tracks, other)
            &&& mine && res is Ok && t->Some_0.open ==> o.sent == out.sent.push(
                ActionView::FinishGroup { track: t->Some_0.track },
            ).push(ActionView::FinishTrack { track: t->Some_0.track })
            &&& mine && res is Ok && !t->Some_0.open ==> o.sent == out.sent.push(
                ActionView::FinishTrack { track: t->Some_0.track },
            )
            &&& mine && res is Ok && at(v.groups, other) is Some ==> (at(w.groups, other) is None
                <==> at(v.groups, other)->Some_0.track_id == id)
        }),
{
    if at(v.tracks, id) is Some {
        law_take_then_at(v.tracks, id, other);
    }
}

/// A broadcast is created with an empty catalog under a handle that was free, and nothing else
/// changes; it is owed wherever the transport has its catalog tracks and a handle is free.
pub proof fn law_broadcast_is_created(
    v: PublishView,
    catalog: Result<(), Seq<char>>,
    w: PublishView,
    res: Result<Id, PublishErrorView>,
    other: Id,
)
    requires
        broadcast_created(v, catalog, w, res),
    ensures
        catalog is Ok && has_vacancy(v.broadcasts) ==> res is Ok,
        res is Ok ==> {
            &&& catalog is Ok
            &&& at(v.broadcasts, res->Ok_0) is None
            &&& at(w.broadcasts, res->Ok_0) is Some
            &&& at(w.broadcasts, res->Ok_0)->Some_0.renditions.len() == 0
            &&& other != res->Ok_0 && other.0 > 0 ==> at(w.broadcasts, other) == at(
                v.broadcasts,
                other,
            )
            &&& w.tracks == v.tracks && w.groups == v.groups && w.media == v.media
        },
        res is Err ==> w == v,
        catalog is Err ==> res is Err && res->Err_0 == PublishErrorView::Moq(catalog->Err_0),
{
    if res is Ok {
        law_put_then_at(
            v.broadcasts,
            res->Ok_0,
            HangCatalogView { renditions: Seq::empty() },
            other,
        );
    }
}

/// A decoder is registered exactly for a broadcast that is there, for a format that is known, and
/// once it could be made; each reason why it is not is told, in this order.
pub proof fn law_media_is_registered(
    v: PublishView,
    broadcast: Id,
    format: Seq<char>,
    known: bool,
    decoder: Result<(), Seq<char>>,
    w: PublishView,
    res: Result<Id, PublishErrorView>,
)
    requires
        media_registered(v, broadcast, format, known, decoder, w, res),
    ensures
        res is Ok ==> at(v.broadcasts, broadcast) is Some && known && decoder is Ok,
        at(v.broadcasts, broadcast) is Some && known && decoder is Ok && has_vacancy(v.media)
            ==> res is Ok,
        res is Ok ==> at(v.media, res->Ok_0) is None && at(w.media, res->Ok_0) is Some,
        w.broadcasts == v.broadcasts && w.tracks == v.tracks && w.groups == v.groups,
        at(v.broadcasts, broadcast) is None ==> res is Err && res->Err_0
            == PublishErrorView::BroadcastNotFound,
        at(v.broadcasts, broadcast) is Some && !known ==> res is Err && res->Err_0
            == PublishErrorView::UnknownFormat(format),
        at(v.broadcasts, broadcast) is Some && known && decoder is Err ==> res is Err && res->Err_0
            == PublishErrorView::InitFailed(decoder->Err_0),
{
    if res is Ok {
        law_put_then_at(v.media, res->Ok_0, (), res->Ok_0);
    }
}

/// A frame is taken exactly if its decoder is there, did not fail, and used all of it.
pub proof fn law_frame_is_judged(v: PublishView, media: Id, decoded: Result<usize, Seq<char>>)
    ensures
        v.media_frame(media, decoded) is Ok <==> at(v.media, media) is Some && decoded == Ok::<
            usize,
            Seq<char>,
        >(0usize),
        at(v.media, media) is None ==> v.media_frame(media, decoded)->Err_0
            == PublishErrorView::MediaNotFound,
        at(v.media, media) is Some && decoded is Err ==> v.media_frame(media, decoded)->Err_0
            == PublishErrorView::DecodeFailed(decoded->Err_0),
{
}

/// A decoder that is closed is gone, however it finished; one that is not there is not found.
pub proof fn law_media_is_closed(v: PublishView, media: Id, finished: Result<(), Seq<char>>)
    ensures
        ({
            let (w, res) = v.media_close(media, finished);
            &&& at(w.media, media) is None
            &&& res is Ok <==> at(v.media, media) is Some && finished is Ok
            &&& at(v.media, media) is None ==> w == v && res->Err_0
                == PublishErrorView::MediaNotFound
            &&& at(v.media, media) is Some && finished is Err ==> res->Err_0
                == PublishErrorView::DecodeFailed(finished->Err_0)
            &&& w.broadcasts == v.broadcasts && w.tracks == v.tracks && w.groups == v.groups
        }),
{
    if at(v.media, media) is Some {
        law_take_then_at(v.media, media, media);
    }
}

/// Whether nothing is refused any more.
pub open spec fn refuses_nothing(out: OutboxView) -> bool {
    forall|n: int| out.sent.len() <= n < out.refused.len() ==> !(#[trigger] out.refused[n])
}

proof fn lemma_start_spares_others(
    tracks: Seq<Option<SlimTrack>>,
    out: OutboxView,
    broadcast: Id,
    sequence: u64,
    i: nat,
)
    requires
        i <= tracks.len(),
    ensures
        ({
            let (after, o, res) = start_groups(tracks, out, broadcast, sequence, i);
            &&& after.len() == tracks.len()
            &&& refuses_nothing(out) ==> res is Ok
            &&& res is Err ==> res->Err_0 == PublishErrorView::Refused
            &&& forall|j: int|
                0 <= j < tracks.len() && (tracks[j] is None || tracks[j]->Some_0.broadcast_id
                    != broadcast) ==> #[trigger] after[j] == tracks[j]
        }),
    decreases tracks.len() - i,
{
    if i < tracks.len() {
        match tracks[i as int] {
            None => lemma_start_spares_others(tracks, out, broadcast, sequence, i + 1),
            Some(t) => if t.broadcast_id != broadcast {
                lemma_start_spares_others(tracks, out, broadcast, sequence, i + 1);
            } else {
                let o1 = if t.open {
                    out.with(ActionView::FinishGroup { track: t.track })
                } else {
                    out
                };
                let o2 = o1.with(ActionView::CreateGroup { track: t.track, sequence });
                let next = tracks.update(
                    i as int,
                    Some(SlimTrack { open: true, mode: Some(GroupMode::Broadcast), ..t }),
                );
                lemma_start_spares_others(next, o2, broadcast, sequence, i + 1);
                let (after, o, res) = start_groups(tracks, out, broadcast, sequence, i);
                if !((t.open && out.refuses()) || o1.refuses()) {
                    assert forall|j: int|
                        0 <= j < tracks.len() && (tracks[j] is None
                            || tracks[j]->Some_0.broadcast_id != broadcast) implies #[trigger] after[j]
                        == tracks[j] by {
                        assert(next[j] == tracks[j]);
                    }
                }
                if refuses_nothing(out) {
                    assert(refuses_nothing(o2));
                    assert(!out.refuses() && !o1.refuses());
                }
            },
        }
    }
}

/// The tracks of a broadcast that is there start a group together, unless one of them has groups
/// of its own or the transport refuses; those of other broadcasts are left alone.
pub proof fn law_start_is_owed(
    v: PublishView,
    out: OutboxView,
    broadcast: Id,
    sequence: u64,
    other: Id,
)
    ensures
        ({
            let (w, o, res) = v.start_group(out, broadcast, sequence);
            let own = exists|i: int|
                0 <= i < v.tracks.len() && (#[trigger] v.tracks[i]) is Some
                    && v.tracks[i]->Some_0.broadcast_id == broadcast && v.tracks[i]->Some_0.mode
                    == Some(GroupMode::PerTrack);
            &&& at(v.broadcasts, broadcast) is None ==> res is Err && res->Err_0
                == PublishErrorView::BroadcastNotFound && w == v && o == out
            &&& at(v.broadcasts, broadcast) is Some && own ==> res is Err && res->Err_0
                == PublishErrorView::ModeConflict && w == v && o == out
            &&& at(v.broadcasts, broadcast) is Some && !own && refuses_nothing(out) ==> res is Ok
            &&& at(v.tracks, other) is Some && at(v.tracks, other)->Some_0.broadcast_id
                != broadcast ==> at(w.tracks, other) == at(v.tracks, other)
            &&& w.groups == v.groups && w.broadcasts == v.broadcasts && w.media == v.media
        }),
{
    lemma_start_spares_others(v.tracks, out, broadcast, sequence, 0);
}

} // verus!
