//! What is asked of the transport.
//!
//! The rules of this crate decide what is sent, the transport sends it, and may refuse any single
//! request. A call notes its requests in order, and is told in advance which of them are refused:
//! so it is decided for every outcome. Whoever drives the transport notes first, performs, and on
//! a refusal notes once more, from the same state, with that request refused.

use crate::mux::catalog::{HangCatalog, HangCatalogView, MsfCatalog, MsfCatalogView};
use vstd::prelude::*;

verus! {

/// A request. Tracks are numbered in the order in which they are created; at most one group of a
/// track is open at a time, but for groups that have a number of their own.
#[derive(Debug)]
pub enum Action {
    /// Create a track under a name.
    CreateTrack { track: usize, name: String },
    /// Create a track under a name of its own that ends in a suffix.
    UniqueTrack { track: usize, suffix: String },
    /// Create a track with a name on one of several broadcasts.
    CreateTrackOn { broadcast: u32, track: usize, name: String },
    /// Open one of several groups of a track, with a sequence number.
    OpenGroup { track: usize, group: usize, sequence: u64 },
    /// Write a frame to one of several groups.
    WriteGroup { group: usize, data: Vec<u8> },
    /// Finish one of several groups.
    CloseGroup { group: usize },
    /// Subscribe to a track.
    Subscribe { name: String },
    /// Open a group with a sequence number.
    CreateGroup { track: usize, sequence: u64 },
    /// Open a group with the next sequence number.
    AppendGroup { track: usize },
    /// Write a frame to the open group.
    WriteFrame { track: usize, data: Vec<u8> },
    /// Finish the group that is or was open.
    FinishGroup { track: usize },
    /// Finish the track.
    FinishTrack { track: usize },
    /// Turn an MSF catalog into text.
    EncodeMsf { catalog: MsfCatalog },
    /// Turn a hang catalog into text.
    EncodeHang { catalog: HangCatalog },
    /// Write the text to the open group.
    WriteCatalog { track: usize },
}

/// What a request asks for.
pub enum ActionView {
    CreateTrack { track: usize, name: Seq<char> },
    UniqueTrack { track: usize, suffix: Seq<char> },
    CreateTrackOn { broadcast: u32, track: usize, name: Seq<char> },
    OpenGroup { track: usize, group: usize, sequence: u64 },
    WriteGroup { group: usize, data: Seq<u8> },
    CloseGroup { group: usize },
    Subscribe { name: Seq<char> },
    CreateGroup { track: usize, sequence: u64 },
    AppendGroup { track: usize },
    WriteFrame { track: usize, data: Seq<u8> },
    FinishGroup { track: usize },
    FinishTrack { track: usize },
    EncodeMsf { catalog: MsfCatalogView },
    EncodeHang { catalog: HangCatalogView },
    WriteCatalog { track: usize },
}

impl View for Action {
    type V = ActionView;

    open spec fn view(&self) -> ActionView {
        match self {
            Action::CreateTrack { track, name } => ActionView::CreateTrack {
                track: *track,
                name: name@,
            },
            Action::UniqueTrack { track, suffix } => ActionView::UniqueTrack {
                track: *track,
                suffix: suffix@,
            },
            Action::CreateTrackOn { broadcast, track, name } => ActionView::CreateTrackOn {
                broadcast: *broadcast,
                track: *track,
                name: name@,
            },
            Action::OpenGroup { track, group, sequence } => ActionView::OpenGroup {
                track: *track,
                group: *group,
                sequence: *sequence,
            },
            Action::WriteGroup { group, data } => ActionView::WriteGroup {
                group: *group,
                data: data@,
            },
            Action::CloseGroup { group } => ActionView::CloseGroup { group: *group },
            Action::Subscribe { name } => ActionView::Subscribe { name: name@ },
            Action::CreateGroup { track, sequence } => ActionView::CreateGroup {
                track: *track,
                sequence: *sequence,
            },
            Action::AppendGroup { track } => ActionView::AppendGroup { track: *track },
            Action::WriteFrame { track, data } => ActionView::WriteFrame {
                track: *track,
                data: data@,
            },
            Action::FinishGroup { track } => ActionView::FinishGroup { track: *track },
            Action::FinishTrack { track } => ActionView::FinishTrack { track: *track },
            Action::EncodeMsf { catalog } => ActionView::EncodeMsf { catalog: catalog@ },
            Action::EncodeHang { catalog } => ActionView::EncodeHang { catalog: catalog@ },
            Action::WriteCatalog { track } => ActionView::WriteCatalog { track: *track },
        }
    }
}

/// What was asked for, and what is refused.
#[derive(Debug)]
pub struct Outbox {
    /// The requests, in order.
    pub sent: Vec<Action>,
    /// Of each request, by its place, whether it is refused. Those that lie beyond are not.
    pub refused: Vec<bool>,
    /// The wall clock, in milliseconds, if it is known.
    pub now: Option<u64>,
}

/// What was asked for, and what is refused.
pub struct OutboxView {
    pub sent: Seq<ActionView>,
    pub refused: Seq<bool>,
    pub now: Option<u64>,
}

impl View for Outbox {
    type V = OutboxView;

    open spec fn view(&self) -> OutboxView {
        OutboxView {
            sent: self.sent@.map_values(|a: Action| a@),
            refused: self.refused@,
            now: self.now,
        }
    }
}

impl OutboxView {
    /// Whether the next request is refused.
    pub open spec fn refuses(self) -> bool {
        self.sent.len() < self.refused.len() && self.refused[self.sent.len() as int]
    }

    /// The outbox with one request more.
    pub open spec fn with(self, action: ActionView) -> OutboxView {
        OutboxView { sent: self.sent.push(action), ..self }
    }
}

impl Outbox {
    /// An outbox that refuses some requests.
    pub fn new(refused: Vec<bool>, now: Option<u64>) -> (out: Self)
        ensures
            out@ == (OutboxView { sent: Seq::empty(), refused: refused@, now }),
    {
        let out = Outbox { sent: Vec::new(), refused, now };
        assert(out@.sent =~= Seq::empty());
        out
    }

    /// Asks for something: whether it was not refused.
    pub fn request(&mut self, action: Action) -> (ok: bool)
        ensures
            ok == !old(self)@.refuses(),
            final(self)@ == old(self)@.with(action@),
    {
        let i: usize = self.sent.len();
        let ok = !(i < self.refused.len() && self.refused[i]);
        self.sent.push(action);
        assert(self@.sent =~= old(self)@.sent.push(action@));
        ok
    }
}

} // verus!
