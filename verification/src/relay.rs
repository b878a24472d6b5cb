//! How a relay serves its connections.

use crate::error::Error;
use crate::time::Duration;
use vstd::prelude::*;

verus! {

/// The relay needs higher stream limits than the library default
/// to handle many concurrent subscriptions across connections.
pub const DEFAULT_MAX_STREAMS: u64 = 10_000;

/// Default GOAWAY drain timeout in seconds. After sending GOAWAY the relay
/// waits this long for the peer to close before force-closing with
/// GOAWAY_TIMEOUT (moq-transport draft-19, section 3.6).
pub const DEFAULT_DRAIN_TIMEOUT_SECS: u64 = 10;

/// The status of a request that may do nothing.
pub const FORBIDDEN: u16 = 403;

/// What a relay is configured with where that is not said.
#[derive(Debug, Clone, Copy, PartialEq, Eq, Structural)]
pub struct Limits {
    pub client_max_streams: u64,
    pub server_max_streams: u64,
    pub drain_timeout: Duration,
}

/// A value, or what stands for it.
pub open spec fn or_default(value: Option<u64>, default: u64) -> u64 {
    match value {
        Some(v) => v,
        None => default,
    }
}

/// A limit that is given is used, whatever the default; ten thousand streams and ten seconds are
/// used where none is.
pub proof fn law_given_limit_wins(value: u64, default: u64)
    ensures
        or_default(Some(value), default) == value,
        or_default(None, DEFAULT_MAX_STREAMS) == 10_000,
        or_default(None, DEFAULT_DRAIN_TIMEOUT_SECS) == 10,
{
}

/// The limits of a relay, where some are given.
pub fn limits(client: Option<u64>, server: Option<u64>, drain_timeout: Option<u64>) -> (l: Limits)
    ensures
        l.client_max_streams == or_default(client, DEFAULT_MAX_STREAMS),
        l.server_max_streams == or_default(server, DEFAULT_MAX_STREAMS),
        l.drain_timeout.secs == or_default(drain_timeout, DEFAULT_DRAIN_TIMEOUT_SECS),
        l.drain_timeout.nanos == 0,
{
    Limits {
        client_max_streams: client.unwrap_or(DEFAULT_MAX_STREAMS),
        server_max_streams: server.unwrap_or(DEFAULT_MAX_STREAMS),
        drain_timeout: Duration {
            secs: drain_timeout.unwrap_or(DEFAULT_DRAIN_TIMEOUT_SECS),
            nanos: 0,
        },
    }
}

/// Who can authenticate.
#[derive(Debug, Clone, Copy, PartialEq, Eq, Structural)]
pub enum Admission {
    /// Whoever has a token, or is public.
    Tokens,
    /// Only peers with a client certificate.
    OnlyMtls,
    /// Nobody: the configuration is rejected.
    Nobody,
}

/// Who can authenticate.
pub open spec fn admitted_by(auth_is_empty: bool, mtls_enabled: bool) -> Admission {
    if !auth_is_empty {
        Admission::Tokens
    } else if mtls_enabled {
        Admission::OnlyMtls
    } else {
        Admission::Nobody
    }
}

/// A configuration is rejected exactly if there is no way to authenticate, and whoever has a token
/// can whenever tokens are configured.
pub proof fn law_somebody_can_authenticate(auth_is_empty: bool, mtls_enabled: bool)
    ensures
        admitted_by(auth_is_empty, mtls_enabled) == Admission::Nobody <==> auth_is_empty
            && !mtls_enabled,
        admitted_by(auth_is_empty, mtls_enabled) == Admission::Tokens <==> !auth_is_empty,
{
}

/// Who can authenticate: a configuration where neither a token nor a client certificate does is
/// rejected.
pub fn admission(auth_is_empty: bool, mtls_enabled: bool) -> (a: Admission)
    ensures
        a == admitted_by(auth_is_empty, mtls_enabled),
{
    if !auth_is_empty {
        Admission::Tokens
    } else if mtls_enabled {
        Admission::OnlyMtls
    } else {
        Admission::Nobody
    }
}

/// What a connection is authenticated by.
#[derive(Debug, Clone, Copy, PartialEq, Eq, Structural)]
pub enum AuthSource {
    /// The client certificate, for the path of the URL.
    Mtls,
    /// The path and the token of the URL.
    Url,
    /// The path and the token of the SETUP.
    Setup,
}

/// What a connection is authenticated by.
pub open spec fn authenticated_by(has_url: bool, has_identity: bool) -> AuthSource {
    if !has_url {
        AuthSource::Setup
    } else if has_identity {
        AuthSource::Mtls
    } else {
        AuthSource::Url
    }
}

/// A client certificate counts only where there is a URL, and is then preferred to the token of
/// the URL. The SETUP is read exactly where there is no URL.
pub proof fn law_certificate_needs_url(has_url: bool, has_identity: bool)
    ensures
        authenticated_by(has_url, has_identity) == AuthSource::Mtls <==> has_url && has_identity,
        authenticated_by(has_url, has_identity) == AuthSource::Setup <==> !has_url,
{
}

/// What a connection is authenticated by: URL-bearing transports take the path and the token from
/// the URL, and a client certificate stands in for a token; all others take them from the SETUP.
pub fn auth_source(has_url: bool, has_identity: bool) -> (source: AuthSource)
    ensures
        source == authenticated_by(has_url, has_identity),
{
    if !has_url {
        AuthSource::Setup
    } else if has_identity {
        AuthSource::Mtls
    } else {
        AuthSource::Url
    }
}

/// What a peer is allowed.
#[derive(Debug, Clone, Copy, PartialEq, Eq, Structural)]
pub struct Token {
    /// Whether the peer is trusted, as another node of the cluster is.
    pub internal: bool,
    /// When the credential expires, in milliseconds since the epoch.
    pub expires: Option<u64>,
    /// Whether the peer may publish anywhere.
    pub publish: bool,
    /// Whether the peer may subscribe anywhere.
    pub subscribe: bool,
}

impl Token {
    /// The token of a peer that was authenticated by its certificate expires with that.
    pub fn with_certificate(self, expiry: Option<u64>) -> (token: Token)
        ensures
            token == (Token { expires: expiry, ..self }),
    {
        let mut token = self;
        token.expires = expiry;
        token
    }
}

/// Which counters a connection is counted by.
#[derive(Debug, Clone, Copy, PartialEq, Eq, Structural)]
pub enum Tier {
    Internal,
    External,
}

/// How far a connection has come.
#[derive(Debug, Clone, Copy, PartialEq, Eq, Structural)]
pub enum Stage {
    Authenticating,
    /// The request is being accepted.
    Accepting(Token),
    /// The session is open.
    Serving,
    /// The session is told to go, and waits for the peer to close.
    Draining,
    Finished,
}

/// What happens to a connection.
#[derive(Debug)]
pub enum Event {
    /// The peer is authenticated.
    Admitted(Token),
    /// The peer is not authenticated: what the request is closed with.
    Rejected(u16),
    /// The request was accepted, at a time in milliseconds since the epoch, or could not be.
    Accepted(Result<u64, Error>),
    /// The session closed.
    Closed(Result<(), Error>),
    /// The time that the credential had left is over.
    Expired,
    /// The relay shuts down: whether this is the first to drain the session.
    Shutdown(bool),
    /// The peer closed, or was closed, after it was told to go.
    Drained,
}

/// What is done about it.
#[derive(Debug)]
pub enum Step {
    /// The request is closed with a status, and the connection fails.
    Reject(u16),
    /// The request is accepted. What the peer may subscribe to is published to it, and what it may
    /// publish is consumed.
    Accept { publish: bool, consume: bool, tier: Tier },
    /// The session is served until it closes, for at most so many milliseconds.
    Serve { at_most: Option<u64> },
    /// The session is closed with an error, and the connection is over.
    CloseSession(Error),
    /// The peer is told to go, without a place to go to, and has so long to close.
    Drain { timeout: Duration },
    /// The connection is over.
    Done(Result<(), Error>),
}

/// How long a credential is valid from a time on.
pub open spec fn remaining(expires: Option<u64>, now: u64) -> Option<u64> {
    match expires {
        Some(e) => Some(
            if e >= now {
                (e - now) as u64
            } else {
                0
            },
        ),
        None => None,
    }
}

/// Whether something can happen at a stage.
pub open spec fn can_happen(stage: Stage, event: Event) -> bool {
    match event {
        Event::Admitted(_) => stage is Authenticating,
        Event::Rejected(_) => stage is Authenticating,
        Event::Accepted(_) => stage is Accepting,
        Event::Closed(_) => stage is Serving,
        Event::Expired => stage is Serving,
        Event::Shutdown(_) => stage is Serving,
        Event::Drained => stage is Draining,
    }
}

/// Where an event leads, and what is done.
pub open spec fn serve(stage: Stage, drain_timeout: Duration, event: Event) -> (Stage, Step) {
    match event {
        Event::Rejected(status) => (Stage::Finished, Step::Reject(status)),
        Event::Admitted(token) => if !token.publish && !token.subscribe {
            (Stage::Finished, Step::Reject(FORBIDDEN))
        } else {
            (
                Stage::Accepting(token),
                Step::Accept {
                    publish: token.subscribe,
                    consume: token.publish,
                    tier: if token.internal {
                        Tier::Internal
                    } else {
                        Tier::External
                    },
                },
            )
        },
        Event::Accepted(Err(e)) => (Stage::Finished, Step::Done(Err(e))),
        Event::Accepted(Ok(now)) => (
            Stage::Serving,
            Step::Serve {
                at_most: match stage {
                    Stage::Accepting(token) => remaining(token.expires, now),
                    _ => None,
                },
            },
        ),
        Event::Closed(res) => (Stage::Finished, Step::Done(res)),
        Event::Expired => (Stage::Finished, Step::CloseSession(Error::Unauthorized)),
        Event::Shutdown(true) => (Stage::Draining, Step::Drain { timeout: drain_timeout }),
        Event::Shutdown(false) => (Stage::Finished, Step::Done(Ok(()))),
        Event::Drained => (Stage::Finished, Step::Done(Ok(()))),
    }
}

/// A connection that is served.
#[derive(Debug, Clone, Copy)]
pub struct Connection {
    /// A numeric identifier for logging.
    pub id: u64,
    /// How long to wait for the peer to close after GOAWAY before force-closing.
    pub drain_timeout: Duration,
    pub stage: Stage,
}

impl Connection {
    /// An incoming connection that has not yet been authenticated.
    pub fn new(id: u64, drain_timeout: Duration) -> (c: Self)
        ensures
            c == (Connection { id, drain_timeout, stage: Stage::Authenticating }),
    {
        Connection { id, drain_timeout, stage: Stage::Authenticating }
    }

    /// Something happens: what is to be done about it.
    pub fn on_event(&mut self, event: Event) -> (step: Step)
        requires
            can_happen(old(self).stage, event),
        ensures
            *final(self) == (Connection { stage: final(self).stage, ..*old(self) }),
            (final(self).stage, step) == serve(old(self).stage, old(self).drain_timeout, event),
    {
        match event {
            Event::Rejected(status) => {
                self.stage = Stage::Finished;
                Step::Reject(status)
            },
            Event::Admitted(token) => {
                if !token.publish && !token.subscribe {
                    self.stage = Stage::Finished;
                    return Step::Reject(FORBIDDEN);
                }
                self.stage = Stage::Accepting(token);
                let tier = if token.internal {
                    Tier::Internal
                } else {
                    Tier::External
                };
                Step::Accept { publish: token.subscribe, consume: token.publish, tier }
            },
            Event::Accepted(Err(e)) => {
                self.stage = Stage::Finished;
                Step::Done(Err(e))
            },
            Event::Accepted(Ok(now)) => {
                let mut at_most: Option<u64> = None;
                if let Stage::Accepting(token) = self.stage {
                    if let Some(expires) = token.expires {
                        at_most = Some(expires.saturating_sub(now));
                    }
                }
                self.stage = Stage::Serving;
                Step::Serve { at_most }
            },
            Event::Closed(res) => {
                self.stage = Stage::Finished;
                Step::Done(res)
            },
            Event::Expired => {
                self.stage = Stage::Finished;
                Step::CloseSession(Error::Unauthorized)
            },
            Event::Shutdown(claimed) => {
                if claimed {
                    self.stage = Stage::Draining;
                    Step::Drain { timeout: self.drain_timeout }
                } else {
                    self.stage = Stage::Finished;
                    Step::Done(Ok(()))
                }
            },
            Event::Drained => {
                self.stage = Stage::Finished;
                Step::Done(Ok(()))
            },
        }
    }
}

/// A session is never served longer than the credential is valid: what is left of it when the
/// request is accepted bounds it, and when that is over the session is closed.
pub proof fn law_session_ends_with_credential(
    token: Token,
    drain_timeout: Duration,
    now: u64,
    expires: u64,
)
    requires
        token.expires == Some(expires),
    ensures
        serve(Stage::Accepting(token), drain_timeout, Event::Accepted(Ok(now))).1
            matches Step::Serve { at_most: Some(ms) } && (now + ms <= expires || ms == 0),
        serve(Stage::Serving, drain_timeout, Event::Expired) == (
            Stage::Finished,
            Step::CloseSession(Error::Unauthorized),
        ),
{
}

/// A peer that may neither publish nor subscribe is never accepted.
pub proof fn law_no_access_is_forbidden(token: Token, drain_timeout: Duration)
    ensures
        serve(Stage::Authenticating, drain_timeout, Event::Admitted(token)).1 is Accept <==> (
        token.publish || token.subscribe),
        !(token.publish || token.subscribe) ==> serve(
            Stage::Authenticating,
            drain_timeout,
            Event::Admitted(token),
        ) == (Stage::Finished, Step::Reject(FORBIDDEN)),
{
}

/// The rights of a peer are independent: what it may subscribe to is published to it whether or
/// not it may publish, and what it may publish is consumed whether or not it may subscribe. It is
/// counted as internal exactly if its token says so, and the token is kept for later.
pub proof fn law_rights_are_independent(token: Token, drain_timeout: Duration)
    requires
        token.publish || token.subscribe,
    ensures
        ({
            let (stage, step) = serve(Stage::Authenticating, drain_timeout, Event::Admitted(token));
            &&& stage == Stage::Accepting(token)
            &&& step matches Step::Accept { publish, consume, tier }
            &&& publish <==> token.subscribe
            &&& consume <==> token.publish
            &&& tier == Tier::Internal <==> token.internal
            &&& tier == Tier::External <==> !token.internal
        }),
{
}

/// A session is served for exactly as long as its credential is still valid when the request is
/// accepted: without limit if it does not expire, and not at all if it has.
pub proof fn law_time_left_is_exact(token: Token, drain_timeout: Duration, now: u64)
    ensures
        ({
            let (stage, step) = serve(
                Stage::Accepting(token),
                drain_timeout,
                Event::Accepted(Ok(now)),
            );
            &&& stage == Stage::Serving
            &&& step matches Step::Serve { at_most }
            &&& token.expires is None <==> at_most is None
            &&& token.expires matches Some(end) ==> end >= now ==> now + at_most->Some_0 == end
            &&& token.expires matches Some(end) ==> end < now ==> at_most == Some(0u64)
        }),
{
}

/// What the peer is told is what happened: a refused peer gets the status it was refused with, one
/// without rights the status 403, and a connection ends with the result that its session had.
pub proof fn law_outcome_is_passed_on(
    stage: Stage,
    drain_timeout: Duration,
    status: u16,
    err: Error,
    closed: Result<(), Error>,
)
    ensures
        serve(stage, drain_timeout, Event::Rejected(status)).1 == Step::Reject(status),
        forall|token: Token|
            !token.publish && !token.subscribe ==> (#[trigger] serve(
                stage,
                drain_timeout,
                Event::Admitted(token),
            )).1 == Step::Reject(403),
        serve(stage, drain_timeout, Event::Accepted(Err(err))).1 == Step::Done(Err(err)),
        serve(stage, drain_timeout, Event::Closed(closed)).1 == Step::Done(closed),
{
}

/// On shutdown a session is drained once, with the time that is configured; one that is drained
/// already is left to whoever drains it. A drained connection ends without an error.
pub proof fn law_shutdown_drains_once(stage: Stage, drain_timeout: Duration)
    ensures
        serve(stage, drain_timeout, Event::Shutdown(true)) == (
            Stage::Draining,
            Step::Drain { timeout: drain_timeout },
        ),
        !(serve(stage, drain_timeout, Event::Shutdown(false)).1 is Drain),
        serve(stage, drain_timeout, Event::Shutdown(false)).0 == Stage::Finished,
        serve(stage, drain_timeout, Event::Drained) == (Stage::Finished, Step::Done(Ok(()))),
{
}

/// A connection is over exactly if what is done ends it, and then nothing can happen to it; else
/// something still can.
pub proof fn law_over_is_over(stage: Stage, drain_timeout: Duration, event: Event)
    requires
        can_happen(stage, event),
    ensures
        ({
            let (next, step) = serve(stage, drain_timeout, event);
            &&& next == Stage::Finished <==> (step is Reject || step is CloseSession
                || step is Done)
            &&& forall|e: Event| next == Stage::Finished ==> !#[trigger] can_happen(next, e)
            &&& step is Accept ==> can_happen(next, Event::Accepted(Ok(0)))
            &&& step is Serve ==> forall|res: Result<(), Error>| #[trigger]
                can_happen(next, Event::Closed(res))
            &&& step is Serve ==> can_happen(next, Event::Expired) && can_happen(
                next,
                Event::Shutdown(true),
            )
            &&& step is Drain ==> can_happen(next, Event::Drained)
        }),
{
}

/// What a shutdown signal leads to.
#[derive(Debug, Clone, Copy, PartialEq, Eq, Structural)]
pub enum Signal {
    /// All connections are drained.
    Drain,
    /// The process exits at once.
    Exit,
}

/// A relay that accepts connections.
#[derive(Debug, Clone, Copy, PartialEq, Eq, Structural)]
pub struct Serve {
    /// The identifier of the next connection.
    pub conn_id: u64,
    /// Whether further connections are accepted.
    pub accepting: bool,
    /// Whether a shutdown signal came.
    pub signalled: bool,
    pub drain_timeout: Duration,
}

impl Serve {
    /// The relay after a request came, or after the last one.
    pub open spec fn after_request(self, came: bool) -> Serve {
        if came {
            Serve {
                conn_id: if self.conn_id == u64::MAX {
                    0
                } else {
                    (self.conn_id + 1) as u64
                },
                ..self
            }
        } else {
            Serve { accepting: false, ..self }
        }
    }

    /// What a shutdown signal leads to.
    pub open spec fn signal(self) -> Signal {
        if self.signalled {
            Signal::Exit
        } else {
            Signal::Drain
        }
    }

    /// The relay after a shutdown signal.
    pub open spec fn after_signal(self) -> Serve {
        Serve { accepting: false, signalled: true, ..self }
    }

    /// A relay without connections.
    pub fn new(drain_timeout: Duration) -> (s: Self)
        ensures
            s == (Serve { conn_id: 0, accepting: true, signalled: false, drain_timeout }),
    {
        Serve { conn_id: 0, accepting: true, signalled: false, drain_timeout }
    }

    /// A request came, or none will: the connection that serves it. Nothing is accepted any more
    /// after the last request.
    pub fn on_request(&mut self, came: bool) -> (conn: Option<Connection>)
        requires
            old(self).accepting,
        ensures
            *final(self) == old(self).after_request(came),
            came ==> conn == Some(
                Connection {
                    id: old(self).conn_id,
                    drain_timeout: old(self).drain_timeout,
                    stage: Stage::Authenticating,
                },
            ),
            !came ==> conn is None,
    {
        if !came {
            self.accepting = false;
            return None;
        }
        let conn = Connection::new(self.conn_id, self.drain_timeout);
        self.conn_id = self.conn_id.wrapping_add(1);
        Some(conn)
    }

    /// A shutdown signal came: the first drains all connections, and no others are accepted; the
    /// second ends the process.
    pub fn on_signal(&mut self) -> (signal: Signal)
        ensures
            signal == old(self).signal(),
            *final(self) == old(self).after_signal(),
    {
        let first = !self.signalled;
        self.signalled = true;
        self.accepting = false;
        if first {
            Signal::Drain
        } else {
            Signal::Exit
        }
    }
}

/// The relay after so many requests.
pub open spec fn after_requests(s: Serve, n: nat) -> Serve
    decreases n,
{
    if n == 0 {
        s
    } else {
        after_requests(s, (n - 1) as nat).after_request(true)
    }
}

/// Connections are numbered one after another, as far as 64 bits count, and a relay accepts them
/// until the last request.
pub proof fn law_connections_are_numbered(s: Serve, n: nat)
    ensures
        after_requests(s, n).conn_id == (s.conn_id + n) % 0x1_0000_0000_0000_0000,
        after_requests(s, n).accepting == s.accepting,
        after_requests(s, n).signalled == s.signalled,
        after_requests(s, n).drain_timeout == s.drain_timeout,
        !after_requests(s, n).after_request(false).accepting,
        after_requests(s, n).after_request(false).conn_id == after_requests(s, n).conn_id,
    decreases n,
{
    if n > 0 {
        law_connections_are_numbered(s, (n - 1) as nat);
    }
}

/// The first shutdown signal drains, and each that follows it ends the process at once; after any
/// of them no connection is accepted.
pub proof fn law_second_signal_exits(s: Serve)
    requires
        !s.signalled,
    ensures
        s.signal() == Signal::Drain,
        s.after_signal().signal() == Signal::Exit,
        s.after_signal().after_signal().signal() == Signal::Exit,
        !s.after_signal().accepting,
        s.after_signal().conn_id == s.conn_id,
        s.after_signal().drain_timeout == s.drain_timeout,
        s.after_request(true).signal() == Signal::Drain,
{
}

} // verus!
