//! Reading a CMSF broadcast: its catalog, and the tracks that it lists.

use crate::error::Error;
use crate::mux::catalog::{MsfCatalog, MsfCatalogView, MsfTrack, Packaging};
use crate::mux::cmsf::{CmsfError, CmsfErrorView};
use crate::mux::consumer::{
    GroupConsumer, GroupView, Polled, TrackConsumer, TrackConsumerView,
};
use crate::mux::demux::{
    init_of_track, polled, read_init, CmsfSegment, CmsfTrackDemuxer, DemuxView, SegmentView,
};
use crate::mux::outbox::{Action, ActionView, Outbox, OutboxView};
use vstd::prelude::*;
use vstd::slice::slice_to_vec;

verus! {

/// A frame of the catalog track: a catalog, or why it is none.
pub type CatalogFrame = Result<MsfCatalog, String>;

/// A track that is read.
#[derive(Debug, Clone)]
pub struct BroadcastTrackState {
    pub demuxer: CmsfTrackDemuxer,
    pub active: bool,
}

/// What such a track is.
pub struct EntryView {
    pub demuxer: DemuxView,
    pub active: bool,
}

impl View for BroadcastTrackState {
    type V = EntryView;

    open spec fn view(&self) -> EntryView {
        EntryView { demuxer: self.demuxer@, active: self.active }
    }
}

/// Broadcast-level CMSF demuxer. Subscribes to the MSF catalog, manages track demuxers.
#[derive(Debug, Clone)]
pub struct CmsfBroadcastDemuxer {
    pub catalog_track: TrackConsumer<CatalogFrame>,
    pub catalog_group: Option<GroupConsumer<CatalogFrame>>,
    /// The tracks, each name once.
    pub tracks: Vec<BroadcastTrackState>,
    pub catalog_closed: bool,
}

/// What the demuxer is.
pub struct BroadcastDemuxView {
    pub catalog_track: TrackConsumerView<CatalogFrame>,
    pub catalog_group: Option<GroupView<CatalogFrame>>,
    pub tracks: Seq<EntryView>,
    pub catalog_closed: bool,
}

impl View for CmsfBroadcastDemuxer {
    type V = BroadcastDemuxView;

    open spec fn view(&self) -> BroadcastDemuxView {
        BroadcastDemuxView {
            catalog_track: self.catalog_track@,
            catalog_group: match self.catalog_group {
                Some(g) => Some(g@),
                None => None,
            },
            tracks: entries(self.tracks@),
            catalog_closed: self.catalog_closed,
        }
    }
}

/// What each of the tracks is.
pub open spec fn entries(tracks: Seq<BroadcastTrackState>) -> Seq<EntryView> {
    tracks.map_values(|t: BroadcastTrackState| t@)
}

/// What an answer on the catalog is.
pub open spec fn catalog_answer(res: Polled<Result<Option<MsfCatalog>, CmsfError>>) -> Polled<
    Result<Option<MsfCatalogView>, CmsfErrorView>,
> {
    match res {
        Polled::Pending => Polled::Pending,
        Polled::Ready(Ok(Some(c))) => Polled::Ready(Ok(Some(c@))),
        Polled::Ready(Ok(None)) => Polled::Ready(Ok(None)),
        Polled::Ready(Err(e)) => Polled::Ready(Err(e@)),
    }
}

/// What an answer on readiness is.
pub open spec fn ready_answer(res: Polled<Result<(), CmsfError>>) -> Polled<
    Result<(), CmsfErrorView>,
> {
    match res {
        Polled::Pending => Polled::Pending,
        Polled::Ready(Ok(())) => Polled::Ready(Ok(())),
        Polled::Ready(Err(e)) => Polled::Ready(Err(e@)),
    }
}

/// Whether a catalog lists a name.
pub open spec fn listed(tracks: Seq<MsfTrack<Seq<char>>>, name: Seq<char>) -> bool {
    exists|i: int| 0 <= i < tracks.len() && (#[trigger] tracks[i]).name == name
}

/// Whether an active track has a name.
pub open spec fn is_read(tracks: Seq<EntryView>, name: Seq<char>) -> bool {
    exists|i: int|
        0 <= i < tracks.len() && (#[trigger] tracks[i]).active && tracks[i].demuxer.track.name
            == name
}

/// Whether every track has ended.
pub open spec fn all_ended(tracks: Seq<EntryView>) -> bool {
    forall|i: int| 0 <= i < tracks.len() ==> !(#[trigger] tracks[i]).active
}

/// A track of the catalog is subscribed to, unless it is read already, is no CMAF, has no init
/// segment that can be read, or is refused.
pub open spec fn add_track(
    tracks: Seq<EntryView>,
    out: OutboxView,
    t: MsfTrack<Seq<char>>,
) -> (Seq<EntryView>, OutboxView) {
    if t.packaging != Packaging::Cmaf || is_read(tracks, t.name) {
        (tracks, out)
    } else {
        match init_of_track(t.init_data) {
            Err(_) => (tracks, out),
            Ok((init, timescale)) => {
                let asked = out.with(ActionView::Subscribe { name: t.name });
                if out.refuses() {
                    (tracks, asked)
                } else {
                    (
                        tracks.push(
                            EntryView {
                                demuxer: DemuxView::fresh(
                                    TrackConsumerView { name: t.name, groups: Seq::empty() },
                                    init,
                                    timescale,
                                ),
                                active: true,
                            },
                        ),
                        asked,
                    )
                }
            },
        }
    }
}

/// From number `i` on, the tracks of the catalog are subscribed to.
pub open spec fn add_tracks(
    tracks: Seq<EntryView>,
    out: OutboxView,
    catalog: Seq<MsfTrack<Seq<char>>>,
    i: nat,
) -> (Seq<EntryView>, OutboxView)
    decreases catalog.len() - i,
{
    if i >= catalog.len() {
        (tracks, out)
    } else {
        let (tracks, out) = add_track(tracks, out, catalog[i as int]);
        add_tracks(tracks, out, catalog, i + 1)
    }
}

/// The tracks that go on under a catalog: those that are active and that it lists.
pub open spec fn kept(tracks: Seq<EntryView>, catalog: Seq<MsfTrack<Seq<char>>>) -> Seq<EntryView> {
    tracks.filter(|t: EntryView| t.active && listed(catalog, t.demuxer.track.name))
}

/// From number `i` on, the active tracks are asked for a segment, until one has it. Those that end
/// become inactive.
pub open spec fn poll_tracks(tracks: Seq<EntryView>, i: nat) -> (
    Seq<EntryView>,
    Option<Result<Option<SegmentView>, CmsfErrorView>>,
)
    decreases tracks.len() - i,
{
    if i >= tracks.len() {
        (tracks, None)
    } else if !tracks[i as int].active {
        poll_tracks(tracks, i + 1)
    } else {
        let (demuxer, res) = tracks[i as int].demuxer.poll();
        let polled = tracks.update(i as int, EntryView { demuxer, active: true });
        match res {
            Polled::Ready(Ok(Some(seg))) => (polled, Some(Ok(Some(seg)))),
            Polled::Ready(_) => poll_tracks(
                tracks.update(i as int, EntryView { demuxer, active: false }),
                i + 1,
            ),
            Polled::Pending => poll_tracks(polled, i + 1),
        }
    }
}

impl BroadcastDemuxView {
    /// The newest group of the catalog that is there; or an end to the search.
    pub open spec fn newest(self) -> (
        BroadcastDemuxView,
        Option<Result<Option<MsfCatalogView>, CmsfErrorView>>,
    )
        decreases self.catalog_track.groups.len(),
    {
        let groups = self.catalog_track.groups;
        if groups.len() == 0 {
            (self, None)
        } else {
            let rest = BroadcastDemuxView {
                catalog_track: TrackConsumerView {
                    groups: groups.drop_first(),
                    ..self.catalog_track
                },
                ..self
            };
            match groups[0] {
                Ok(Some(g)) => BroadcastDemuxView { catalog_group: Some(g), ..rest }.newest(),
                Ok(None) => (
                    self,
                    if self.catalog_group is None {
                        Some(Ok(None))
                    } else {
                        None
                    },
                ),
                Err(e) => (self, Some(Err(CmsfErrorView::Moq(e)))),
            }
        }
    }

    /// The catalog in the newest group, once its frame is there.
    pub open spec fn poll_catalog(self) -> (
        BroadcastDemuxView,
        Polled<Result<Option<MsfCatalogView>, CmsfErrorView>>,
    ) {
        let (s, ended) = self.newest();
        match ended {
            Some(res) => (s, Polled::Ready(res)),
            None => match s.catalog_group {
                None => (s, Polled::Pending),
                Some(g) => if g.frames.len() == 0 {
                    (s, Polled::Pending)
                } else {
                    let read = BroadcastDemuxView { catalog_group: None, ..s };
                    match g.frames[0] {
                        Ok(Some(Ok(catalog))) => (read, Polled::Ready(Ok(Some(catalog@)))),
                        Ok(Some(Err(e))) => (
                            read,
                            Polled::Ready(Err(CmsfErrorView::CatalogParse(e@))),
                        ),
                        Ok(None) => (read, Polled::Pending),
                        Err(e) => (read, Polled::Ready(Err(CmsfErrorView::Moq(e)))),
                    }
                },
            },
        }
    }

    /// A catalog takes effect: tracks that it does not list are left, and those that it lists and
    /// that are not read yet are subscribed to.
    pub open spec fn apply(self, out: OutboxView, catalog: MsfCatalogView) -> (
        BroadcastDemuxView,
        OutboxView,
    ) {
        let (tracks, out) = add_tracks(kept(self.tracks, catalog.tracks), out, catalog.tracks, 0);
        (BroadcastDemuxView { tracks, ..self }, out)
    }

    /// Whether the first catalog has come.
    pub open spec fn poll_ready(self, out: OutboxView) -> (
        BroadcastDemuxView,
        OutboxView,
        Polled<Result<(), CmsfErrorView>>,
    ) {
        if self.tracks.len() != 0 {
            (self, out, Polled::Ready(Ok(())))
        } else {
            let (s, res) = self.poll_catalog();
            match res {
                Polled::Pending => (s, out, Polled::Pending),
                Polled::Ready(Err(e)) => (s, out, Polled::Ready(Err(e))),
                Polled::Ready(Ok(None)) => (
                    BroadcastDemuxView { catalog_closed: true, ..s },
                    out,
                    Polled::Ready(Err(CmsfErrorView::NoTracks)),
                ),
                Polled::Ready(Ok(Some(catalog))) => {
                    let (s, out) = s.apply(out, catalog);
                    (
                        s,
                        out,
                        Polled::Ready(
                            if s.tracks.len() == 0 {
                                Err(CmsfErrorView::NoTracks)
                            } else {
                                Ok(())
                            },
                        ),
                    )
                },
            }
        }
    }

    /// The catalog is asked for, unless it is closed, and takes effect; one that ends or fails is
    /// closed.
    pub open spec fn refresh(self, out: OutboxView) -> (BroadcastDemuxView, OutboxView) {
        if self.catalog_closed {
            (self, out)
        } else {
            let (s, res) = self.poll_catalog();
            match res {
                Polled::Pending => (s, out),
                Polled::Ready(Ok(Some(catalog))) => s.apply(out, catalog),
                Polled::Ready(_) => (BroadcastDemuxView { catalog_closed: true, ..s }, out),
            }
        }
    }

    /// The next segment of any track; none once the catalog is closed and all tracks have ended.
    pub open spec fn poll(self, out: OutboxView) -> (
        BroadcastDemuxView,
        OutboxView,
        Polled<Result<Option<SegmentView>, CmsfErrorView>>,
    ) {
        let (s, out) = self.refresh(out);
        let (tracks, found) = poll_tracks(s.tracks, 0);
        let s = BroadcastDemuxView { tracks, ..s };
        match found {
            Some(res) => (s, out, Polled::Ready(res)),
            None => if all_ended(tracks) && s.catalog_closed {
                (s, out, Polled::Ready(Ok(None)))
            } else {
                (s, out, Polled::Pending)
            },
        }
    }
}

impl CmsfBroadcastDemuxer {
    /// A demuxer of a broadcast, once its catalog is subscribed to.
    pub fn new(subscribed: Result<(), Error>) -> (res: Result<Self, CmsfError>)
        ensures
            match subscribed {
                Ok(()) => res matches Ok(d) && d@ == (BroadcastDemuxView {
                    catalog_track: TrackConsumerView { name: "catalog"@, groups: Seq::empty() },
                    catalog_group: None,
                    tracks: Seq::empty(),
                    catalog_closed: false,
                }),
                Err(e) => res matches Err(f) && f@ == CmsfErrorView::Moq(e),
            },
    {
        match subscribed {
            Ok(()) => {
                let d = CmsfBroadcastDemuxer {
                    catalog_track: TrackConsumer::new("catalog".to_owned()),
                    catalog_group: None,
                    tracks: Vec::new(),
                    catalog_closed: false,
                };
                assert(d@.tracks =~= Seq::empty());
                Ok(d)
            },
            Err(e) => Err(CmsfError::Moq(e)),
        }
    }

    /// Takes the newest group of the catalog that is there.
    fn recv_newest(&mut self) -> (res: Option<Result<Option<MsfCatalog>, CmsfError>>)
        ensures
            ({
                let (s, ended) = old(self)@.newest();
                &&& final(self)@ == s
                &&& match res {
                    None => ended is None,
                    Some(r) => ended is Some && catalog_answer(Polled::Ready(r)) == Polled::Ready(
                        ended->Some_0,
                    ),
                }
            }),
    {
        loop
            invariant
                old(self)@.newest() == self@.newest(),
            decreases self@.catalog_track.groups.len(),
        {
            match self.catalog_track.poll_recv_group() {
                Polled::Pending => {
                    return None;
                },
                Polled::Ready(Ok(Some(group))) => {
                    self.catalog_group = Some(group);
                },
                Polled::Ready(Ok(None)) => {
                    if self.catalog_group.is_none() {
                        return Some(Ok(None));
                    }
                    return None;
                },
                Polled::Ready(Err(e)) => {
                    return Some(Err(CmsfError::Moq(e)));
                },
            }
        }
    }

    /// Polls for a new catalog. Assumes each catalog group contains exactly one frame.
    ///
    /// If multiple catalog groups arrive between polls, only the latest is read
    /// (intermediate versions are skipped). This is intentional: the latest catalog
    /// is always authoritative and supersedes prior versions.
    pub fn poll_catalog(&mut self) -> (res: Polled<Result<Option<MsfCatalog>, CmsfError>>)
        ensures
            (final(self)@, catalog_answer(res)) == old(self)@.poll_catalog(),
    {
        if let Some(res) = self.recv_newest() {
            return Polled::Ready(res);
        }
        let mut group = match self.catalog_group.take() {
            Some(group) => group,
            None => {
                return Polled::Pending;
            },
        };
        match group.poll_read_frame() {
            Polled::Ready(Ok(Some(Ok(catalog)))) => Polled::Ready(Ok(Some(catalog))),
            Polled::Ready(Ok(Some(Err(e)))) => Polled::Ready(Err(CmsfError::CatalogParse(e))),
            Polled::Ready(Ok(None)) => Polled::Pending,
            Polled::Ready(Err(e)) => Polled::Ready(Err(CmsfError::Moq(e))),
            Polled::Pending => {
                self.catalog_group = Some(group);
                Polled::Pending
            },
        }
    }
}

/// Whether a catalog lists a name.
fn lists(tracks: &Vec<MsfTrack>, name: &String) -> (b: bool)
    ensures
        b == listed(tracks@.map_values(|t: MsfTrack| t@), name@),
{
    let ghost views = tracks@.map_values(|t: MsfTrack| t@);
    let mut i: usize = 0;
    while i < tracks.len()
        invariant
            i <= tracks@.len(),
            views == tracks@.map_values(|t: MsfTrack| t@),
            forall|j: int| 0 <= j < i ==> (#[trigger] views[j]).name != name@,
        decreases tracks@.len() - i,
    {
        if tracks[i].name == *name {
            assert(views[i as int].name == name@);
            return true;
        }
        i = i + 1;
    }
    false
}

impl CmsfBroadcastDemuxer {
    /// Whether an active track has a name.
    fn reads(&self, name: &String) -> (b: bool)
        ensures
            b == is_read(self@.tracks, name@),
    {
        let mut i: usize = 0;
        while i < self.tracks.len()
            invariant
                i <= self.tracks@.len(),
                forall|j: int|
                    0 <= j < i ==> !((#[trigger] self@.tracks[j]).active
                        && self@.tracks[j].demuxer.track.name == name@),
            decreases self.tracks@.len() - i,
        {
            if self.tracks[i].active && self.tracks[i].demuxer.track.name == *name {
                assert(self@.tracks[i as int].active);
                return true;
            }
            i = i + 1;
        }
        false
    }

    /// Leaves the tracks that ended or that a catalog does not list.
    fn retain(&mut self, catalog: &MsfCatalog)
        ensures
            final(self)@ == (BroadcastDemuxView {
                tracks: kept(old(self)@.tracks, catalog@.tracks),
                ..old(self)@
            }),
    {
        let ghost all = self@.tracks;
        let ghost keep = |t: EntryView| t.active && listed(catalog@.tracks, t.demuxer.track.name);
        let mut retained: Vec<BroadcastTrackState> = Vec::new();
        let ghost mut seen: int = 0;
        assert(entries(retained@) =~= all.take(0).filter(keep)) by {
            reveal(Seq::filter);
        }
        assert(self@.tracks =~= all.skip(0));
        while self.tracks.len() > 0
            invariant
                0 <= seen <= all.len(),
                self@ == (BroadcastDemuxView { tracks: all.skip(seen), ..old(self)@ }),
                keep == (|t: EntryView|
                    t.active && listed(catalog@.tracks, t.demuxer.track.name)),
                entries(retained@) == all.take(seen).filter(keep),
            decreases self.tracks@.len(),
        {
            let ghost had = self.tracks@;
            assert(self@.tracks == all.skip(seen));
            assert(had.len() == self@.tracks.len());
            let ghost retained_before = retained@;
            let track = self.tracks.remove(0);
            proof {
                let before = entries(had);
                assert forall|j: int| 0 <= j < self.tracks@.len() implies #[trigger] self@.tracks[j]
                    == all.skip(seen + 1)[j] by {
                    assert(before[j + 1] == all.skip(seen)[j + 1]);
                }
                assert(self@.tracks =~= all.skip(seen + 1));
                assert(had[0]@ == all.skip(seen)[0]);
                assert(all.take(seen + 1).drop_last() =~= all.take(seen));
                assert(all.take(seen + 1).last() == track@);
                reveal(Seq::filter);
                seen = seen + 1;
            }
            if track.active && lists(&catalog.tracks, &track.demuxer.track.name) {
                retained.push(track);
                assert(entries(retained@) =~= entries(retained_before).push(track@));
            }
        }
        assert(self@.tracks == all.skip(seen));
        assert(self.tracks@.len() == self@.tracks.len());
        assert(all.take(seen) =~= all);
        self.tracks = retained;
    }

    /// Subscribes to a track of a catalog, where that is due.
    fn add(&mut self, t: &MsfTrack, out: &mut Outbox)
        ensures
            ({
                let (tracks, o) = add_track(old(self)@.tracks, old(out)@, t@);
                &&& final(self)@ == (BroadcastDemuxView { tracks, ..old(self)@ })
                &&& final(out)@ == o
            }),
    {
        if t.packaging != Packaging::Cmaf || self.reads(&t.name) {
            return;
        }
        let (init_data, timescale) = match read_init(&t.init_data) {
            Ok(init) => init,
            Err(_) => {
                return;
            },
        };
        if !out.request(Action::Subscribe { name: t.name.clone() }) {
            return;
        }
        let demuxer = CmsfTrackDemuxer::new(
            TrackConsumer::new(t.name.clone()),
            init_data,
            timescale,
        );
        let state = BroadcastTrackState { demuxer, active: true };
        self.tracks.push(state);
        assert(self@.tracks =~= old(self)@.tracks.push(state@));
    }

    /// Lets a catalog take effect.
    pub fn apply_catalog(&mut self, catalog: &MsfCatalog, out: &mut Outbox)
        ensures
            (final(self)@, final(out)@) == old(self)@.apply(old(out)@, catalog@),
    {
        self.retain(catalog);
        let ghost start = self@;
        let mut i: usize = 0;
        while i < catalog.tracks.len()
            invariant
                i <= catalog.tracks@.len(),
                self@ == (BroadcastDemuxView { tracks: self@.tracks, ..start }),
                add_tracks(start.tracks, old(out)@, catalog@.tracks, 0) == add_tracks(
                    self@.tracks,
                    out@,
                    catalog@.tracks,
                    i as nat,
                ),
            decreases catalog.tracks@.len() - i,
        {
            self.add(&catalog.tracks[i], out);
            i = i + 1;
        }
    }

    /// Waits until the first catalog is received and tracks are subscribed.
    pub fn poll_ready(&mut self, out: &mut Outbox) -> (res: Polled<Result<(), CmsfError>>)
        ensures
            (final(self)@, final(out)@, ready_answer(res)) == old(self)@.poll_ready(old(out)@),
    {
        if self.tracks.len() != 0 {
            return Polled::Ready(Ok(()));
        }
        match self.poll_catalog() {
            Polled::Ready(Ok(Some(catalog))) => {
                self.apply_catalog(&catalog, out);
                if self.tracks.len() == 0 {
                    Polled::Ready(Err(CmsfError::NoTracks))
                } else {
                    Polled::Ready(Ok(()))
                }
            },
            Polled::Ready(Ok(None)) => {
                self.catalog_closed = true;
                Polled::Ready(Err(CmsfError::NoTracks))
            },
            Polled::Ready(Err(e)) => Polled::Ready(Err(e)),
            Polled::Pending => Polled::Pending,
        }
    }

    /// Polls the catalog for updates.
    fn refresh(&mut self, out: &mut Outbox)
        ensures
            (final(self)@, final(out)@) == old(self)@.refresh(old(out)@),
    {
        if !self.catalog_closed {
            match self.poll_catalog() {
                Polled::Ready(Ok(Some(catalog))) => self.apply_catalog(&catalog, out),
                Polled::Ready(Ok(None)) => {
                    self.catalog_closed = true;
                },
                Polled::Ready(Err(_)) => {
                    self.catalog_closed = true;
                },
                Polled::Pending => {},
            }
        }
    }

    /// Polls all active track demuxers.
    fn poll_all(&mut self) -> (res: Option<CmsfSegment>)
        ensures
            ({
                let (tracks, found) = poll_tracks(old(self)@.tracks, 0);
                &&& final(self)@ == (BroadcastDemuxView { tracks, ..old(self)@ })
                &&& match res {
                    Some(seg) => found == Some(Ok::<_, CmsfErrorView>(Some(seg@))),
                    None => found is None,
                }
            }),
    {
        let mut i: usize = 0;
        while i < self.tracks.len()
            invariant
                i <= self.tracks@.len(),
                self@ == (BroadcastDemuxView { tracks: self@.tracks, ..old(self)@ }),
                poll_tracks(old(self)@.tracks, 0) == poll_tracks(self@.tracks, i as nat),
            decreases self.tracks@.len() - i,
        {
            if self.tracks[i].active {
                let ghost before = self.tracks@;
                let res = self.tracks[i].demuxer.poll_next();
                proof {
                    lemma_updated(before, self.tracks@, i as int);
                }
                match res {
                    Polled::Ready(Ok(Some(seg))) => {
                        return Some(seg);
                    },
                    Polled::Ready(_) => {
                        let ghost polled = self.tracks@;
                        self.tracks[i].active = false;
                        proof {
                            lemma_updated(polled, self.tracks@, i as int);
                            assert(self@.tracks =~= entries(before).update(
                                i as int,
                                EntryView { demuxer: polled[i as int]@.demuxer, active: false },
                            ));
                        }
                    },
                    Polled::Pending => {},
                }
            }
            i = i + 1;
        }
        None
    }

    /// Whether every track has ended.
    fn all_ended(&self) -> (b: bool)
        ensures
            b == all_ended(self@.tracks),
    {
        let mut i: usize = 0;
        while i < self.tracks.len()
            invariant
                i <= self.tracks@.len(),
                forall|j: int| 0 <= j < i ==> !(#[trigger] self@.tracks[j]).active,
            decreases self.tracks@.len() - i,
        {
            if self.tracks[i].active {
                assert(self@.tracks[i as int].active);
                return false;
            }
            i = i + 1;
        }
        true
    }

    /// Reads the next segment from any track.
    pub fn poll_next(&mut self, out: &mut Outbox) -> (res: Polled<
        Result<Option<CmsfSegment>, CmsfError>,
    >)
        ensures
            (final(self)@, final(out)@, polled(res)) == old(self)@.poll(old(out)@),
    {
        self.refresh(out);
        if let Some(seg) = self.poll_all() {
            return Polled::Ready(Ok(Some(seg)));
        }
        if self.all_ended() && self.catalog_closed {
            return Polled::Ready(Ok(None));
        }
        Polled::Pending
    }

    /// Names of currently active tracks.
    pub fn active_tracks(&self) -> (names: Vec<&str>)
        ensures
            names@.map_values(|n: &str| n@) == active(self@.tracks).map_values(
                |t: EntryView| t.demuxer.track.name,
            ),
    {
        let ghost all = self@.tracks;
        let mut names: Vec<&str> = Vec::new();
        let mut i: usize = 0;
        assert(names@.map_values(|n: &str| n@) =~= active(all.take(0)).map_values(
            |t: EntryView| t.demuxer.track.name,
        )) by {
            reveal(Seq::filter);
        }
        while i < self.tracks.len()
            invariant
                i <= self.tracks@.len(),
                all == self@.tracks,
                names@.map_values(|n: &str| n@) == active(all.take(i as int)).map_values(
                    |t: EntryView| t.demuxer.track.name,
                ),
            decreases self.tracks@.len() - i,
        {
            proof {
                lemma_active(all, i as int);
            }
            if self.tracks[i].active {
                let ghost before = names@;
                names.push(self.tracks[i].demuxer.track.name.as_str());
                assert(names@.map_values(|n: &str| n@) =~= before.map_values(
                    |n: &str| n@,
                ).push(all[i as int].demuxer.track.name));
                assert(active(all.take(i + 1)).map_values(|t: EntryView| t.demuxer.track.name)
                    =~= active(all.take(i as int)).map_values(
                    |t: EntryView| t.demuxer.track.name,
                ).push(all[i as int].demuxer.track.name));
            }
            i = i + 1;
        }
        assert(all.take(i as int) =~= all);
        names
    }

    /// Init segments for all active tracks, suitable for building a merged fMP4 init.
    pub fn init_segments(&self) -> (inits: Vec<Vec<u8>>)
        ensures
            inits@.map_values(|b: Vec<u8>| b@) == active(self@.tracks).map_values(
                |t: EntryView| t.demuxer.init_data,
            ),
    {
        let ghost all = self@.tracks;
        let mut inits: Vec<Vec<u8>> = Vec::new();
        let mut i: usize = 0;
        assert(inits@.map_values(|b: Vec<u8>| b@) =~= active(all.take(0)).map_values(
            |t: EntryView| t.demuxer.init_data,
        )) by {
            reveal(Seq::filter);
        }
        while i < self.tracks.len()
            invariant
                i <= self.tracks@.len(),
                all == self@.tracks,
                inits@.map_values(|b: Vec<u8>| b@) == active(all.take(i as int)).map_values(
                    |t: EntryView| t.demuxer.init_data,
                ),
            decreases self.tracks@.len() - i,
        {
            proof {
                lemma_active(all, i as int);
            }
            if self.tracks[i].active {
                let ghost before = inits@;
                let init = slice_to_vec(self.tracks[i].demuxer.init_data.as_slice());
                inits.push(init);
                assert(inits@.map_values(|b: Vec<u8>| b@) =~= before.map_values(
                    |b: Vec<u8>| b@,
                ).push(all[i as int].demuxer.init_data));
                assert(active(all.take(i + 1)).map_values(|t: EntryView| t.demuxer.init_data)
                    =~= active(all.take(i as int)).map_values(
                    |t: EntryView| t.demuxer.init_data,
                ).push(all[i as int].demuxer.init_data));
            }
            i = i + 1;
        }
        assert(all.take(i as int) =~= all);
        inits
    }
}

/// The tracks that are active.
pub open spec fn active(tracks: Seq<EntryView>) -> Seq<EntryView> {
    tracks.filter(|t: EntryView| t.active)
}

proof fn lemma_active(tracks: Seq<EntryView>, i: int)
    requires
        0 <= i < tracks.len(),
    ensures
        active(tracks.take(i + 1)) == if tracks[i].active {
            active(tracks.take(i)).push(tracks[i])
        } else {
            active(tracks.take(i))
        },
{
    reveal(Seq::filter);
    assert(tracks.take(i + 1).drop_last() =~= tracks.take(i));
}

/// Where one track is another, so is what it is.
proof fn lemma_updated(
    before: Seq<BroadcastTrackState>,
    after: Seq<BroadcastTrackState>,
    i: int,
)
    requires
        0 <= i < before.len(),
        after == before.update(i, after[i]),
    ensures
        entries(after) == entries(before).update(i, after[i]@),
{
    assert(entries(after) =~= entries(before).update(i, after[i]@));
}

} // verus!
