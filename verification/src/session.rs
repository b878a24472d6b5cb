//! The state of a session: draining it, and being told to go.

use crate::error::{code_of, message_of, Error};
use crate::path::{clone_paths, views, Path};
use crate::time::Duration;
use vstd::prelude::*;

verus! {

/// What a drain tells the peer.
#[derive(Debug)]
pub struct GoawayPayload {
    /// Redirect URI (empty = reconnect to same endpoint).
    pub uri: String,
    /// Timeout before force-close. None means no deadline.
    pub timeout: Option<Duration>,
}

/// Information from a received GOAWAY message.
///
/// The peer is telling us to reconnect to a new session at the provided URI
/// (or reconnect to the same endpoint if the URI is empty).
#[derive(Debug)]
#[non_exhaustive]
pub struct GoawayReceived {
    /// The URI to reconnect to. Empty means reconnect to the same endpoint.
    pub uri: String,
    /// How long before the sender force-closes the session. None if not provided
    /// (moq-lite has no timeout on the wire; IETF drafts 14 to 16 have none either).
    pub timeout: Option<Duration>,
}

/// A flag that is set when GOAWAY is received from the peer, and never reset. It belongs to one
/// session; whoever else needs it asks that session.
#[derive(Debug)]
pub struct GoingAwayFlag {
    set: bool,
}

impl View for GoingAwayFlag {
    type V = bool;

    closed spec fn view(&self) -> bool {
        self.set
    }
}

impl GoingAwayFlag {
    /// Create a new flag, initially `false`.
    pub fn new() -> (flag: Self)
        ensures
            !flag@,
    {
        GoingAwayFlag { set: false }
    }

    /// Mark the session as going away.
    pub fn set(&mut self)
        ensures
            final(self)@,
    {
        self.set = true;
    }

    /// Check whether GOAWAY has been received.
    pub fn is_set(&self) -> (b: bool)
        ensures
            b == self@,
    {
        self.set
    }
}

impl View for GoawayPayload {
    type V = (Seq<char>, Option<Duration>);

    open spec fn view(&self) -> (Seq<char>, Option<Duration>) {
        (self.uri@, self.timeout)
    }
}

impl Clone for GoawayPayload {
    fn clone(&self) -> (copy: Self)
        ensures
            copy@ == self@,
    {
        GoawayPayload { uri: self.uri.clone(), timeout: self.timeout }
    }
}

impl View for GoawayReceived {
    type V = (Seq<char>, Option<Duration>);

    open spec fn view(&self) -> (Seq<char>, Option<Duration>) {
        (self.uri@, self.timeout)
    }
}

impl Clone for GoawayReceived {
    fn clone(&self) -> (copy: Self)
        ensures
            copy@ == self@,
    {
        GoawayReceived { uri: self.uri.clone(), timeout: self.timeout }
    }
}

impl GoawayReceived {
    /// A redirect to a URI, with the time that is left.
    pub fn new(uri: String, timeout: Option<Duration>) -> (g: Self)
        ensures
            g@ == (uri@, timeout),
    {
        GoawayReceived { uri, timeout }
    }
}

/// What a wait for a value finds.
#[derive(Debug)]
pub enum Signal<T> {
    /// No value yet.
    Waiting,
    /// The value.
    Fired(T),
    /// No value will come: the other half is gone.
    Gone,
}

/// What the peer is told by a session that is closing already: nowhere to go, and no deadline.
pub open spec fn farewell() -> (Seq<char>, Option<Duration>) {
    (""@, None)
}

/// What a drain tells the peer, once it is known; nothing, without a deadline, if the session is
/// already closing.
pub fn await_goaway(signal: Signal<GoawayPayload>) -> (payload: Option<GoawayPayload>)
    ensures
        match signal {
            Signal::Waiting => payload is None,
            Signal::Fired(p) => payload == Some(p),
            Signal::Gone => payload matches Some(p) && p@ == farewell(),
        },
{
    match signal {
        Signal::Waiting => None,
        Signal::Fired(payload) => Some(payload),
        Signal::Gone => Some(GoawayPayload { uri: "".to_owned(), timeout: None }),
    }
}

/// How the transport is closed.
#[derive(Debug)]
pub struct Close {
    pub code: u32,
    pub reason: String,
}

impl View for Close {
    type V = (u32, Seq<char>);

    open spec fn view(&self) -> (u32, Seq<char>) {
        (self.code, self.reason@)
    }
}

/// How the transport is closed, if it is.
pub open spec fn close_view(close: Option<Close>) -> Option<(u32, Seq<char>)> {
    match close {
        Some(c) => Some(c@),
        None => None,
    }
}

/// How the transport is closed with an error: with its code, and with what it says.
pub open spec fn close_with(err: Error) -> (u32, Seq<char>) {
    (code_of(err), message_of(err))
}

/// The paths of the broadcasts that a session's subscriber brings into the origin: each once, in
/// the order in which they came.
#[derive(Debug)]
pub struct SourcedPaths {
    paths: Vec<Path>,
}

impl View for SourcedPaths {
    type V = Seq<Seq<Seq<char>>>;

    closed spec fn view(&self) -> Seq<Seq<Seq<char>>> {
        views(self.paths@)
    }
}

impl SourcedPaths {
    #[verifier::type_invariant]
    spec fn inv(self) -> bool {
        views(self.paths@).no_duplicates()
    }

    /// Whether a path is among them.
    pub fn contains(&self, path: &Path) -> (b: bool)
        ensures
            b == self@.contains(path@),
    {
        let mut i: usize = 0;
        while i < self.paths.len()
            invariant
                i <= self.paths@.len(),
                forall|j: int| 0 <= j < i ==> (#[trigger] self@[j]) != path@,
            decreases self.paths@.len() - i,
        {
            if self.paths[i].same(path) {
                assert(self@[i as int] == path@);
                return true;
            }
            assert(self@[i as int] != path@);
            i = i + 1;
        }
        false
    }

    /// Adds a path, unless it is there; whether it was added.
    pub fn insert(&mut self, path: Path) -> (added: bool)
        ensures
            added == !old(self)@.contains(path@),
            final(self)@ == if added {
                old(self)@.push(path@)
            } else {
                old(self)@
            },
            final(self)@.no_duplicates(),
    {
        proof {
            use_type_invariant(&*self);
        }
        if self.contains(&path) {
            return false;
        }
        let ghost had = self@;
        let mut paths: Vec<Path> = Vec::new();
        assert(views(paths@) =~= Seq::<Seq<Seq<char>>>::empty());
        std::mem::swap(&mut paths, &mut self.paths);
        paths.push(path);
        assert(views(paths@) =~= had.push(path@));
        assert(views(paths@).no_duplicates());
        self.paths = paths;
        true
    }

    /// The number of paths.
    pub fn len(&self) -> (n: usize)
        ensures
            n == self@.len(),
    {
        self.paths.len()
    }

    /// All of them.
    pub fn to_vec(&self) -> (paths: Vec<Path>)
        ensures
            views(paths@) == self@,
            self@.no_duplicates(),
    {
        proof {
            use_type_invariant(self);
        }
        clone_paths(&self.paths)
    }
}

/// Create a new empty sourced-paths set.
pub fn sourced_paths_new() -> (paths: SourcedPaths)
    ensures
        paths@ == Seq::<Seq<Seq<char>>>::empty(),
{
    let paths: Vec<Path> = Vec::new();
    assert(views(paths@) =~= Seq::<Seq<Seq<char>>>::empty());
    SourcedPaths { paths }
}

/// The protocol that both sides speak.
#[derive(Debug, Clone, Copy, PartialEq, Eq, Structural)]
pub enum Version {
    Lite(crate::lite::Version),
    Ietf(crate::ietf::Version),
}

/// The state of a session. There is one of each; whoever shares it shares this.
#[derive(Debug)]
pub struct Session {
    /// What tells this session from every other.
    pub id: u64,
    /// The negotiated protocol version.
    pub version: Version,
    /// Whether the transport estimates how fast it can send.
    pub send_bandwidth: bool,
    /// Whether the protocol tells how fast it can receive.
    pub recv_bandwidth: bool,
    /// What the peer was told, once a drain has started.
    pub goaway: Option<GoawayPayload>,
    /// What the peer told us.
    pub goaway_received: Option<GoawayReceived>,
    /// Whether new requests are rejected.
    pub going_away: GoingAwayFlag,
    /// Whether a drain is claimed or under way.
    pub draining: bool,
    /// Whether this handle no longer closes the transport.
    pub closed: bool,
    /// The paths that this session brings into the origin.
    pub sourced_paths: SourcedPaths,
    /// The origin that this session publishes into, if it subscribes at all.
    pub origin: Option<u64>,
}

/// What the state of a session says.
pub struct SessionView {
    pub id: u64,
    pub version: Version,
    pub send_bandwidth: bool,
    pub recv_bandwidth: bool,
    pub goaway: Option<(Seq<char>, Option<Duration>)>,
    pub goaway_received: Option<(Seq<char>, Option<Duration>)>,
    pub going_away: bool,
    pub draining: bool,
    pub closed: bool,
    pub sourced_paths: Seq<Seq<Seq<char>>>,
    pub origin: Option<u64>,
}

impl View for Session {
    type V = SessionView;

    open spec fn view(&self) -> SessionView {
        SessionView {
            id: self.id,
            version: self.version,
            send_bandwidth: self.send_bandwidth,
            recv_bandwidth: self.recv_bandwidth,
            goaway: match self.goaway {
                Some(g) => Some(g@),
                None => None,
            },
            goaway_received: match self.goaway_received {
                Some(g) => Some(g@),
                None => None,
            },
            going_away: self.going_away@,
            draining: self.draining,
            closed: self.closed,
            sourced_paths: self.sourced_paths@,
            origin: self.origin,
        }
    }
}

/// What a session was like at some time: it can be read, and neither drained nor closed.
#[derive(Debug)]
pub struct Snapshot {
    /// The session that this was.
    pub id: u64,
    /// The negotiated protocol version.
    pub version: Version,
    /// Whether the transport estimates how fast it can send.
    pub send_bandwidth: bool,
    /// Whether the protocol tells how fast it can receive.
    pub recv_bandwidth: bool,
    /// What the peer told us.
    pub goaway_received: Option<GoawayReceived>,
    /// Whether new requests are rejected.
    pub going_away: bool,
    /// The paths that the session brings into the origin.
    pub sourced_paths: Vec<Path>,
    /// The origin that the session publishes into, if it subscribes at all.
    pub origin: Option<u64>,
}

impl Snapshot {
    /// Whether this is what a session is like.
    pub open spec fn shows(self, s: SessionView) -> bool {
        &&& self.id == s.id
        &&& self.version == s.version
        &&& self.send_bandwidth == s.send_bandwidth
        &&& self.recv_bandwidth == s.recv_bandwidth
        &&& match self.goaway_received {
            Some(g) => s.goaway_received == Some(g@),
            None => s.goaway_received is None,
        }
        &&& self.going_away == s.going_away
        &&& views(self.sourced_paths@) == s.sourced_paths
        &&& self.origin == s.origin
    }
}

impl SessionView {
    /// Whether a drain can be claimed.
    pub open spec fn grants_drain(self) -> bool {
        !self.draining
    }

    /// The session once a drain is claimed.
    pub open spec fn claimed(self) -> SessionView {
        SessionView { draining: true, ..self }
    }

    /// The session once a claim was given back.
    pub open spec fn released(self) -> SessionView {
        SessionView { draining: false, ..self }
    }

    /// The session once the peer was told to go.
    pub open spec fn told(self, uri: Seq<char>, timeout: Option<Duration>) -> SessionView {
        SessionView { goaway: Some((uri, timeout)), ..self }
    }

    /// How the transport is closed with an error, if it is: once.
    pub open spec fn close(self, err: Error) -> (SessionView, Option<(u32, Seq<char>)>) {
        (
            SessionView { closed: true, ..self },
            if self.closed {
                None
            } else {
                Some(close_with(err))
            },
        )
    }

    /// How the transport is closed when the session is dropped, if it is.
    pub open spec fn dropped(self) -> Option<(u32, Seq<char>)> {
        if self.closed {
            None
        } else {
            Some((code_of(Error::Cancel), "dropped"@))
        }
    }

    /// Whether the session has something that another session can take over: paths in an origin.
    pub open spec fn can_fail_over(self) -> bool {
        self.origin is Some && self.sourced_paths.len() > 0
    }
}

impl Session {
    /// A session that has just been established. Send bandwidth is version-agnostic: it depends
    /// on whether the transport has an estimate.
    ///
    /// No two sessions have the same `id`.
    pub fn new(
        id: u64,
        version: Version,
        estimated_send_rate: Option<u64>,
        recv_bandwidth: bool,
    ) -> (session: Self)
        ensures
            session@ == (SessionView {
                id,
                version,
                send_bandwidth: estimated_send_rate is Some,
                recv_bandwidth,
                goaway: None,
                goaway_received: None,
                going_away: false,
                draining: false,
                closed: false,
                sourced_paths: Seq::empty(),
                origin: None,
            }),
    {
        Session {
            id,
            version,
            send_bandwidth: estimated_send_rate.is_some(),
            recv_bandwidth,
            goaway: None,
            goaway_received: None,
            going_away: GoingAwayFlag::new(),
            draining: false,
            closed: false,
            sourced_paths: sourced_paths_new(),
            origin: None,
        }
    }

    /// What the session is like now.
    pub fn snapshot(&self) -> (snapshot: Snapshot)
        ensures
            snapshot.shows(self@),
    {
        Snapshot {
            id: self.id,
            version: self.version,
            send_bandwidth: self.send_bandwidth,
            recv_bandwidth: self.recv_bandwidth,
            goaway_received: self.goaway_received_snapshot(),
            going_away: self.going_away.is_set(),
            sourced_paths: self.sourced_paths.to_vec(),
            origin: self.origin,
        }
    }

    /// Returns the negotiated protocol version.
    pub fn version(&self) -> (version: Version)
        ensures
            version == self@.version,
    {
        self.version
    }

    /// Whether the send bitrate is estimated.
    pub fn send_bandwidth(&self) -> (b: bool)
        ensures
            b == self@.send_bandwidth,
    {
        self.send_bandwidth
    }

    /// Whether the receive bitrate is estimated.
    pub fn recv_bandwidth(&self) -> (b: bool)
        ensures
            b == self@.recv_bandwidth,
    {
        self.recv_bandwidth
    }

    /// Close the underlying transport session, once.
    pub fn close(&mut self, err: Error) -> (close: Option<Close>)
        ensures
            (final(self)@, close_view(close)) == old(self)@.close(err),
    {
        if self.closed {
            return None;
        }
        self.closed = true;
        Some(Close { code: err.to_code(), reason: err.message() })
    }

    /// How the transport is closed when the session is dropped: not at all if it was closed.
    pub fn dropped(&self) -> (close: Option<Close>)
        ensures
            close_view(close) == self@.dropped(),
    {
        if self.closed {
            None
        } else {
            Some(Close { code: Error::Cancel.to_code(), reason: "dropped".to_owned() })
        }
    }

    /// Initiate a graceful GOAWAY drain for this session.
    ///
    /// Returns `None` if a drain is already in progress (only one GOAWAY per
    /// session). The claim is given back by [`Drain::release`], so a caller that
    /// bails out before [`Drain::start`] can retry later.
    pub fn drain(&mut self) -> (drain: Option<Drain>)
        ensures
            match drain {
                Some(d) => old(self)@.grants_drain() && d@ == old(self)@.id,
                None => !old(self)@.grants_drain(),
            },
            final(self)@ == old(self)@.claimed(),
    {
        if self.draining {
            return None;
        }
        self.draining = true;
        Some(Drain { session: self.id })
    }

    /// What the peer told us: the redirect once it is there, and nothing if the session closes
    /// first.
    pub fn goaway(signal: Signal<GoawayReceived>) -> (ready: Option<Option<GoawayReceived>>)
        ensures
            match signal {
                Signal::Waiting => ready is None,
                Signal::Fired(g) => ready == Some(Some(g)),
                Signal::Gone => ready == Some(None::<GoawayReceived>),
            },
    {
        match signal {
            Signal::Waiting => None,
            Signal::Fired(g) => Some(Some(g)),
            Signal::Gone => Some(None),
        }
    }

    /// Returns whether a GOAWAY has been received from the peer.
    ///
    /// Once this returns `true`, new subscribe and subscribe-namespace requests
    /// initiated on this session are rejected with [`Error::GoingAway`].
    pub fn is_going_away(&self) -> (b: bool)
        ensures
            b == self@.going_away,
    {
        self.going_away.is_set()
    }

    /// Begin a seamless failover: the paths that are marked as failing over, all that this
    /// session brings into the origin. None if it has no origin or brings none.
    pub fn begin_failover(&self) -> (paths: Option<Vec<Path>>)
        ensures
            match paths {
                Some(p) => {
                    &&& self@.can_fail_over()
                    &&& views(p@) == self@.sourced_paths
                    &&& views(p@).no_duplicates()
                },
                None => !self@.can_fail_over(),
            },
    {
        if self.origin.is_none() || self.sourced_paths.len() == 0 {
            None
        } else {
            Some(self.sourced_paths.to_vec())
        }
    }

    /// Attach the subscriber's paths and origin to this session.
    pub fn attach_subscriber_state(&mut self, sourced_paths: SourcedPaths, origin: u64)
        ensures
            final(self)@ == (SessionView {
                sourced_paths: sourced_paths@,
                origin: Some(origin),
                ..old(self)@
            }),
    {
        self.sourced_paths = sourced_paths;
        self.origin = Some(origin);
    }

    /// The received GOAWAY, if any.
    pub fn goaway_received_snapshot(&self) -> (g: Option<GoawayReceived>)
        ensures
            match g {
                Some(g) => self@.goaway_received == Some(g@),
                None => self@.goaway_received is None,
            },
    {
        match &self.goaway_received {
            Some(g) => Some(g.clone()),
            None => None,
        }
    }
}

/// The claim to drain a session. There is one at a time, and it is good for that session alone.
#[derive(Debug)]
pub struct Drain {
    session: u64,
}

impl View for Drain {
    type V = u64;

    closed spec fn view(&self) -> u64 {
        self.session
    }
}

/// A drain that waits for the peer to disconnect.
#[derive(Debug, Clone, Copy, PartialEq, Eq, Structural)]
pub struct Draining {
    pub timeout: Option<Duration>,
}

impl Drain {
    /// The session that is claimed.
    pub fn session(&self) -> (id: u64)
        ensures
            id == self@,
    {
        self.session
    }

    /// Send the GOAWAY frame to the peer with no deadline.
    ///
    /// `uri` is the new session URI the peer should reconnect to. Pass an empty
    /// string to tell the peer to reconnect to the same endpoint.
    pub fn start(self, session: &mut Session, uri: String) -> (draining: Draining)
        requires
            self@ == old(session)@.id,
        ensures
            draining.timeout is None,
            final(session)@ == old(session)@.told(uri@, None),
    {
        self.start_inner(session, uri, None)
    }

    /// Send the GOAWAY frame with a deadline for the peer to disconnect.
    ///
    /// The timeout is also encoded on the wire (for IETF draft 17 and later), where zero means
    /// "no deadline".
    pub fn start_with_timeout(self, session: &mut Session, uri: String, timeout: Duration) -> (draining:
        Draining)
        requires
            self@ == old(session)@.id,
        ensures
            draining.timeout == Some(timeout),
            final(session)@ == old(session)@.told(uri@, Some(timeout)),
    {
        self.start_inner(session, uri, Some(timeout))
    }

    fn start_inner(self, session: &mut Session, uri: String, timeout: Option<Duration>) -> (draining:
        Draining)
        requires
            self@ == old(session)@.id,
        ensures
            draining.timeout == timeout,
            final(session)@ == old(session)@.told(uri@, timeout),
    {
        session.goaway = Some(GoawayPayload { uri, timeout });
        Draining { timeout }
    }

    /// Gives the claim back, so that a later drain can retry.
    pub fn release(self, session: &mut Session)
        requires
            self@ == old(session)@.id,
        ensures
            final(session)@ == old(session)@.released(),
    {
        session.draining = false;
    }
}

impl Draining {
    /// Whether the session is closed by force: at the deadline, if there is one.
    pub open spec fn is_over(self, elapsed: bool) -> bool {
        self.timeout is Some && elapsed
    }

    /// Wait for the peer to close the session after receiving the GOAWAY: how the session is
    /// force-closed if the deadline is reached first. Without a deadline it never is.
    pub fn complete(self, elapsed: bool) -> (close: Option<Close>)
        ensures
            match close {
                Some(c) => self.is_over(elapsed) && c@ == close_with(Error::GoawayTimeout),
                None => !self.is_over(elapsed),
            },
    {
        if self.timeout.is_some() && elapsed {
            Some(
                Close {
                    code: Error::GoawayTimeout.to_code(),
                    reason: "goaway timeout".to_owned(),
                },
            )
        } else {
            None
        }
    }
}

/// Whether the send rate is being polled.
#[derive(Debug, Clone, Copy, PartialEq, Eq, Structural)]
pub enum Bandwidth {
    /// Nobody asks for it.
    Idle,
    /// It is read at every tick.
    Polling,
    /// It will not be read again.
    Stopped,
}

/// What happens while the send rate is polled.
#[derive(Debug, Clone, Copy, PartialEq, Eq, Structural)]
pub enum BandwidthEvent {
    /// The session or the channel closed.
    Closed,
    /// Somebody asks for the rate, unless the channel failed.
    Used(bool),
    /// Nobody asks for it any more, unless the channel failed.
    Unused(bool),
    /// Time to read the rate and set it, which worked unless the channel failed.
    Tick(bool),
}

/// The next state of the polling. It pauses while nobody asks for the rate, and stops as soon as
/// the channel fails or the session closes.
pub open spec fn next_bandwidth(state: Bandwidth, event: BandwidthEvent) -> Bandwidth {
    if state == Bandwidth::Stopped {
        Bandwidth::Stopped
    } else {
        match event {
            BandwidthEvent::Closed => Bandwidth::Stopped,
            BandwidthEvent::Used(ok) => if !ok {
                Bandwidth::Stopped
            } else {
                Bandwidth::Polling
            },
            BandwidthEvent::Unused(ok) => if !ok {
                Bandwidth::Stopped
            } else {
                Bandwidth::Idle
            },
            BandwidthEvent::Tick(ok) => if !ok {
                Bandwidth::Stopped
            } else {
                state
            },
        }
    }
}

/// The next state of the polling.
pub fn run_send_bandwidth(state: Bandwidth, event: BandwidthEvent) -> (next: Bandwidth)
    ensures
        next == next_bandwidth(state, event),
{
    match (state, event) {
        (Bandwidth::Stopped, _) => Bandwidth::Stopped,
        (_, BandwidthEvent::Closed) => Bandwidth::Stopped,
        (_, BandwidthEvent::Used(true)) => Bandwidth::Polling,
        (_, BandwidthEvent::Unused(true)) => Bandwidth::Idle,
        (state, BandwidthEvent::Tick(true)) => state,
        _ => Bandwidth::Stopped,
    }
}

/// What is done about the drain of one session, through whichever handle.
pub enum DrainStep {
    /// [`Session::drain`] is called.
    Claim,
    /// The claim is started, if there is one.
    Start { uri: Seq<char>, timeout: Option<Duration> },
    /// The claim is given back, if there is one.
    Release,
}

/// A session and whether a claim to drain it is held unstarted, after one more step. A claim is
/// used up by what is done with it.
pub open spec fn drain_step(s: SessionView, held: bool, step: DrainStep) -> (SessionView, bool) {
    match step {
        DrainStep::Claim => (s.claimed(), held || s.grants_drain()),
        DrainStep::Start { uri, timeout } => if held {
            (s.told(uri, timeout), false)
        } else {
            (s, false)
        },
        DrainStep::Release => if held {
            (s.released(), false)
        } else {
            (s, false)
        },
    }
}

/// A session that was just established, after any number of steps; and whether a claim is held.
pub open spec fn drain_run(s: SessionView, steps: Seq<DrainStep>) -> (SessionView, bool)
    decreases steps.len(),
{
    if steps.len() == 0 {
        (s, false)
    } else {
        let (before, held) = drain_run(s, steps.drop_last());
        drain_step(before, held, steps.last())
    }
}

/// Only one drain is granted: over all that is done about it, a drain is granted exactly while no
/// claim is held unstarted and the peer was never told to go. Nothing else of the session changes.
pub proof fn law_drain_once(s: SessionView, steps: Seq<DrainStep>)
    requires
        !s.draining,
        s.goaway is None,
    ensures
        ({
            let (now, held) = drain_run(s, steps);
            &&& now.grants_drain() <==> !held && now.goaway is None
            &&& held ==> now.goaway is None
            &&& now == (SessionView { draining: now.draining, goaway: now.goaway, ..s })
        }),
    decreases steps.len(),
{
    if steps.len() > 0 {
        law_drain_once(s, steps.drop_last());
    }
}

/// A claim that is given back leaves the session as it was.
pub proof fn law_release_undoes_claim(s: SessionView)
    requires
        s.grants_drain(),
    ensures
        !s.claimed().grants_drain(),
        s.claimed().released() == s,
{
}

/// A force-close at the deadline is recognised by the peer: the code of the close is read as the
/// error that it was made with.
pub proof fn law_goaway_timeout_is_recognised(err: Error)
    requires
        crate::error::error_of(close_with(Error::GoawayTimeout).0, err),
    ensures
        err == Error::GoawayTimeout,
{
}

/// The transport is closed once: the first close has the code and the words of its error, and
/// neither a second one nor the drop of the session has any effect.
pub proof fn law_closed_once(s: SessionView, first: Error, second: Error)
    requires
        !s.closed,
    ensures
        ({
            let (t, close) = s.close(first);
            &&& close == Some((code_of(first), message_of(first)))
            &&& t.closed
            &&& t.close(second).1 is None
            &&& t.dropped() is None
            &&& t == (SessionView { closed: true, ..s })
        }),
        s.dropped() is Some,
        s.dropped()->Some_0.0 == code_of(Error::Cancel),
{
}

/// A session that drains is closed by force exactly when it has a deadline that is reached.
pub proof fn law_deadline_closes(d: Draining)
    ensures
        !d.is_over(false),
        d.timeout is None ==> !d.is_over(true),
        d.timeout is Some ==> d.is_over(true),
{
}

/// The rate is polled exactly while somebody asks for it: from being asked for until nobody does.
/// Once the channel failed or the session closed it is never polled again.
pub proof fn law_rate_is_polled_while_used(state: Bandwidth, event: BandwidthEvent)
    ensures
        next_bandwidth(Bandwidth::Stopped, event) == Bandwidth::Stopped,
        next_bandwidth(state, BandwidthEvent::Closed) == Bandwidth::Stopped,
        next_bandwidth(state, BandwidthEvent::Used(false)) == Bandwidth::Stopped,
        next_bandwidth(state, BandwidthEvent::Unused(false)) == Bandwidth::Stopped,
        next_bandwidth(state, BandwidthEvent::Tick(false)) == Bandwidth::Stopped,
        next_bandwidth(state, BandwidthEvent::Tick(true)) == state,
        state != Bandwidth::Stopped ==> next_bandwidth(state, BandwidthEvent::Used(true))
            == Bandwidth::Polling && next_bandwidth(state, BandwidthEvent::Unused(true))
            == Bandwidth::Idle,
{
}

/// A session can fail over exactly if it has an origin and brings a path into it; what it told the
/// peer, and what it was told, does not matter.
pub proof fn law_what_can_fail_over(s: SessionView)
    ensures
        s.can_fail_over() <==> s.origin is Some && s.sourced_paths.len() > 0,
        s.claimed().can_fail_over() == s.can_fail_over(),
{
}

/// What the peer is told is where to go and until when, and nothing else of the session changes.
pub proof fn law_peer_is_told(s: SessionView, uri: Seq<char>, timeout: Option<Duration>)
    ensures
        s.told(uri, timeout).goaway is Some,
        s.told(uri, timeout).goaway->Some_0.0 == uri,
        s.told(uri, timeout).goaway->Some_0.1 == timeout,
        s.told(uri, timeout) == (SessionView { goaway: s.told(uri, timeout).goaway, ..s }),
        s.claimed() == (SessionView { draining: true, ..s }),
        s.grants_drain() <==> !s.draining,
{
}

/// A session that is closing already sends its peer nowhere, and leaves it as long as it likes.
pub proof fn law_farewell_is_empty()
    ensures
        farewell().0.len() == 0,
        farewell().1 is None,
{
    reveal_strlit("");
}

} // verus!
