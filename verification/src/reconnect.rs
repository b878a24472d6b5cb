//! Session reconnection after receiving GOAWAY.
//!
//! 1. A GOAWAY must have been received.
//! 2. If it carries a URI, a drain timeout is known, and the session brings paths into its
//!    origin, the handoff is seamless: the paths are marked as failing over, the replacement is
//!    connected with retries, each path learns its successor, and the old session drains.
//! 3. Otherwise the replacement is connected and the old session is closed immediately.

use crate::error::Error;
use crate::path::{views, Path};
use crate::session::{close_with, Close, Session, SessionView, Snapshot};
use crate::time::Duration;
use vstd::prelude::*;

verus! {

/// Options for a reconnection.
///
/// The defaults close the old session immediately and try to connect once.
#[derive(Debug, Clone, Copy)]
#[non_exhaustive]
pub struct ReconnectOptions {
    /// If set, keep the old session alive this long after the replacement is
    /// established so it can drain in-flight groups, then force-close it.
    ///
    /// A timeout carried on the received GOAWAY takes precedence over this value.
    pub drain_timeout: Option<Duration>,
    /// Additional connect attempts (with exponential backoff) if the initial
    /// connect fails. `0` (default) tries exactly once.
    pub max_retries: u32,
}

impl Default for ReconnectOptions {
    fn default() -> (options: Self)
        ensures
            options.drain_timeout is None,
            options.max_retries == 0,
    {
        ReconnectOptions { drain_timeout: None, max_retries: 0 }
    }
}

impl ReconnectOptions {
    /// Create default reconnect options (non-seamless: close old immediately, one attempt).
    pub fn new() -> (options: Self)
        ensures
            options.drain_timeout is None,
            options.max_retries == 0,
    {
        ReconnectOptions::default()
    }

    /// Keep the old session alive for `timeout` to drain in-flight groups after the
    /// replacement is up, enabling a seamless handoff.
    pub fn with_drain_timeout(self, timeout: Duration) -> (options: Self)
        ensures
            options == (ReconnectOptions { drain_timeout: Some(timeout), ..self }),
    {
        ReconnectOptions { drain_timeout: Some(timeout), max_retries: self.max_retries }
    }

    /// Retry the connect up to `retries` extra times with exponential backoff.
    pub fn with_max_retries(self, retries: u32) -> (options: Self)
        ensures
            options == (ReconnectOptions { max_retries: retries, ..self }),
    {
        ReconnectOptions { drain_timeout: self.drain_timeout, max_retries: retries }
    }
}

/// Two to the power of `n`.
pub open spec fn pow2(n: nat) -> nat
    decreases n,
{
    if n == 0 {
        1
    } else {
        2 * pow2((n - 1) as nat)
    }
}

/// How many milliseconds pass before attempt number `attempt`, counted from zero: none before
/// the first, then a tenth of a second, doubled each time.
pub open spec fn backoff_ms(attempt: u32) -> nat {
    if attempt == 0 {
        0
    } else {
        100 * pow2((attempt - 1) as nat)
    }
}

/// The last retry whose delay can be counted in 64 bits of milliseconds.
pub const MAX_RETRIES: u32 = 58;

proof fn lemma_pow2_monotonic(m: nat, n: nat)
    requires
        m <= n,
    ensures
        0 < pow2(m) <= pow2(n),
    decreases n,
{
    if m < n {
        lemma_pow2_monotonic(m, (n - 1) as nat);
    } else if m > 0 {
        lemma_pow2_monotonic((m - 1) as nat, (n - 1) as nat);
    }
}

/// The delay before each retry is twice the one before it, and the first a tenth of a second.
pub proof fn law_backoff_doubles(attempt: u32)
    requires
        1 <= attempt < u32::MAX,
    ensures
        backoff_ms(1) == 100,
        backoff_ms((attempt + 1) as u32) == 2 * backoff_ms(attempt),
{
}

/// The delay before an attempt.
fn backoff(attempt: u32) -> (delay: Duration)
    requires
        1 <= attempt <= MAX_RETRIES,
    ensures
        delay.wf(),
        delay.millis() == backoff_ms(attempt),
{
    let mut ms: u64 = 100;
    let mut i: u32 = 1;
    proof {
        lemma_pow2_monotonic(0, 57);
        assert(pow2(57) == 0x200_0000_0000_0000) by {
            reveal_with_fuel(pow2, 58);
        }
    }
    while i < attempt
        invariant
            1 <= i <= attempt <= MAX_RETRIES,
            ms == 100 * pow2((i - 1) as nat),
            pow2(57) == 0x200_0000_0000_0000,
        decreases attempt - i,
    {
        proof {
            lemma_pow2_monotonic(i as nat, 57);
        }
        ms = ms * 2;
        i = i + 1;
    }
    Duration::from_millis(ms)
}

/// The attempts to connect to the URI of a GOAWAY.
#[derive(Debug, Clone, Copy, PartialEq, Eq, Structural)]
pub struct Retries {
    /// The number of the attempt that is under way, counted from zero.
    pub attempt: u32,
    /// The number of the last attempt.
    pub max_retries: u32,
}

/// What follows an attempt that failed.
#[derive(Debug)]
pub enum Retry {
    /// Try once more, after a delay.
    After(Duration),
    /// Give up, with the last error.
    Fail(Error),
}

impl Retries {
    /// Whether another attempt follows one that failed.
    pub open spec fn has_next(self) -> bool {
        self.attempt < self.max_retries
    }

    /// The attempts after one more failed.
    pub open spec fn next(self) -> Retries {
        if self.has_next() {
            Retries { attempt: (self.attempt + 1) as u32, ..self }
        } else {
            self
        }
    }

    /// The first attempt.
    pub fn new(max_retries: u32) -> (retries: Self)
        ensures
            retries.attempt == 0,
            retries.max_retries == max_retries,
    {
        Retries { attempt: 0, max_retries }
    }

    /// What follows an attempt that failed with `err`: the next one after its delay, as long as
    /// there is one, and else the error.
    pub fn failed(&mut self, err: Error) -> (next: Retry)
        requires
            old(self).attempt <= old(self).max_retries,
            old(self).attempt < old(self).max_retries ==> old(self).attempt < MAX_RETRIES,
        ensures
            *final(self) == old(self).next(),
            final(self).max_retries == old(self).max_retries,
            final(self).attempt <= final(self).max_retries,
            if old(self).has_next() {
                &&& final(self).attempt == old(self).attempt + 1
                &&& next matches Retry::After(delay)
                &&& delay.wf()
                &&& delay.millis() == backoff_ms(final(self).attempt)
            } else {
                &&& *final(self) == *old(self)
                &&& next == Retry::Fail(err)
            },
    {
        if self.attempt < self.max_retries {
            self.attempt = self.attempt + 1;
            Retry::After(backoff(self.attempt))
        } else {
            Retry::Fail(err)
        }
    }
}

/// What a reconnection is about to do.
#[derive(Debug)]
pub struct Handoff {
    /// Where to connect; empty for the same endpoint.
    pub uri: String,
    /// How long the old session may drain.
    pub drain: Option<Duration>,
    /// The paths that are marked as failing over, if the handoff is seamless.
    pub failover: Option<Vec<Path>>,
    /// The attempts to connect.
    pub retries: Retries,
}

/// How long the old session may drain: the timeout on the GOAWAY comes before the option.
pub open spec fn drain_of(received: Option<Duration>, option: Option<Duration>) -> Option<Duration> {
    match received {
        Some(d) => Some(d),
        None => option,
    }
}

/// Whether the handoff is seamless: there is a URI and a time to drain in, and the session
/// brings paths into an origin.
pub open spec fn is_seamless(s: SessionView, options: ReconnectOptions) -> bool {
    match s.goaway_received {
        Some((uri, timeout)) => uri.len() > 0 && drain_of(timeout, options.drain_timeout) is Some
            && s.can_fail_over(),
        None => false,
    }
}

/// Begins a reconnection. A GOAWAY must have been received.
pub fn begin_reconnect(session: &Session, options: &ReconnectOptions) -> (res: Result<
    Handoff,
    Error,
>)
    ensures
        match session@.goaway_received {
            None => res == Err::<Handoff, Error>(Error::NotReady),
            Some((uri, timeout)) => {
                &&& res matches Ok(h)
                &&& h.uri@ == uri
                &&& h.drain == drain_of(timeout, options.drain_timeout)
                &&& h.retries == (Retries { attempt: 0, max_retries: options.max_retries })
                &&& match h.failover {
                    Some(paths) => is_seamless(session@, *options) && views(paths@)
                        == session@.sourced_paths,
                    None => !is_seamless(session@, *options),
                }
            },
        },
{
    let goaway = match session.goaway_received_snapshot() {
        Some(goaway) => goaway,
        None => {
            return Err(Error::NotReady);
        },
    };
    let drain = match goaway.timeout {
        Some(d) => Some(d),
        None => options.drain_timeout,
    };
    let failover = if goaway.uri.as_str().unicode_len() > 0 && drain.is_some() {
        session.begin_failover()
    } else {
        None
    };
    Ok(Handoff { uri: goaway.uri, drain, failover, retries: Retries::new(options.max_retries) })
}

/// What becomes of the old session.
#[derive(Debug)]
pub enum Farewell {
    /// It drains for at most that long, while each of the paths is served by the successor with
    /// this origin.
    Drain { timeout: Duration, successors: Vec<Path>, origin: u64 },
    /// It is closed, unless it was closed before.
    Close(Option<Close>),
}

/// What a reconnection has done: the new session is in the place of the old one.
#[derive(Debug)]
pub struct Handed {
    /// The new session once more, to be read only.
    pub ret: Snapshot,
    /// What becomes of the old session.
    pub farewell: Farewell,
}

/// What is said of a connector whose session has no origin.
pub open spec fn no_origin_message() -> Seq<char> {
    "seamless reconnect: new session has no origin (Connector must build with .with_consume(origin))"@
}

/// What is said of a connector whose session has another origin.
pub open spec fn other_origin_message() -> Seq<char> {
    "seamless reconnect: new session has another origin (Connector must build with .with_consume(origin))"@
}

/// Whether a session can take over from another: it need not share its origin, unless the handoff
/// is seamless.
pub open spec fn takes_over(s: SessionView, next: SessionView, seamless: bool) -> bool {
    seamless ==> next.origin is Some && next.origin == s.origin
}

/// The session in use, and the one beside it, once a reconnection is complete.
pub open spec fn handed_over(s: SessionView, next: SessionView, seamless: bool) -> (
    SessionView,
    SessionView,
) {
    if !takes_over(s, next, seamless) {
        (s, next)
    } else if seamless {
        (next, s)
    } else {
        (next, SessionView { closed: true, ..s })
    }
}

/// Completes a reconnection with the session that was connected: the two change places, so that
/// `new_session` is the old one afterwards. A seamless handoff needs a session that shares the
/// origin; without it both sessions stay as they were.
pub fn finish_reconnect(session: &mut Session, handoff: Handoff, new_session: &mut Session) -> (res:
    Result<Handed, Error>)
    requires
        handoff.failover is Some ==> handoff.drain is Some,
    ensures
        res is Ok <==> takes_over(old(session)@, old(new_session)@, handoff.failover is Some),
        (final(session)@, final(new_session)@) == handed_over(
            old(session)@,
            old(new_session)@,
            handoff.failover is Some,
        ),
        match handoff.failover {
            Some(_) => if old(new_session)@.origin is None {
                &&& final(session)@ == old(session)@
                &&& final(new_session)@ == old(new_session)@
                &&& res matches Err(Error::Transport(m)) && m@ == no_origin_message()
            } else if old(new_session)@.origin != old(session)@.origin {
                &&& final(session)@ == old(session)@
                &&& final(new_session)@ == old(new_session)@
                &&& res matches Err(Error::Transport(m)) && m@ == other_origin_message()
            } else {
                &&& final(session)@ == old(new_session)@
                &&& final(new_session)@ == old(session)@
                &&& res matches Ok(h)
                &&& h.ret.shows(old(new_session)@)
                &&& h.farewell matches Farewell::Drain { timeout, successors, origin }
                &&& Some(timeout) == handoff.drain
                &&& views(successors@) == old(session)@.sourced_paths
                &&& Some(origin) == old(new_session)@.origin
            },
            None => {
                &&& final(session)@ == old(new_session)@
                &&& final(new_session)@ == (SessionView { closed: true, ..old(session)@ })
                &&& res matches Ok(h)
                &&& h.ret.shows(old(new_session)@)
                &&& h.farewell matches Farewell::Close(close)
                &&& match close {
                    Some(c) => !old(session)@.closed && c@ == close_with(Error::Cancel),
                    None => old(session)@.closed,
                }
            },
        },
{
    if handoff.failover.is_some() {
        let origin: u64 = match new_session.origin {
            Some(origin) => origin,
            None => {
                return Err(
                    Error::Transport(
                        "seamless reconnect: new session has no origin (Connector must build with .with_consume(origin))".to_owned(),
                    ),
                );
            },
        };
        let shared = match session.origin {
            Some(own) => own == origin,
            None => false,
        };
        if !shared {
            return Err(
                Error::Transport(
                    "seamless reconnect: new session has another origin (Connector must build with .with_consume(origin))".to_owned(),
                ),
            );
        }
        let successors = session.sourced_paths.to_vec();
        let timeout = handoff.drain.unwrap();
        let ret = new_session.snapshot();
        std::mem::swap(session, new_session);
        Ok(Handed { ret, farewell: Farewell::Drain { timeout, successors, origin } })
    } else {
        let ret = new_session.snapshot();
        std::mem::swap(session, new_session);
        let close = new_session.close(Error::Cancel);
        Ok(Handed { ret, farewell: Farewell::Close(close) })
    }
}

/// Whether a session is closed by force at the end of its drain.
pub open spec fn is_forced(s: SessionView, elapsed: bool) -> bool {
    elapsed && !s.closed
}

/// How the old session is closed at the end of its drain: not at all if it drained in time.
pub fn drained(session: &mut Session, elapsed: bool) -> (close: Option<Close>)
    ensures
        final(session)@ == if elapsed {
            SessionView { closed: true, ..old(session)@ }
        } else {
            old(session)@
        },
        match close {
            Some(c) => is_forced(old(session)@, elapsed) && c@ == close_with(
                Error::GoawayTimeout,
            ),
            None => !is_forced(old(session)@, elapsed),
        },
{
    if elapsed {
        session.close(Error::GoawayTimeout)
    } else {
        None
    }
}

/// The timeout on the GOAWAY comes before the one that the caller configured.
pub proof fn law_goaway_timeout_wins(received: Duration, option: Option<Duration>)
    ensures
        drain_of(Some(received), option) == Some(received),
{
}

/// With the default options, and no timeout on the GOAWAY, no handoff is seamless; nor is one
/// back to the same endpoint.
pub proof fn law_not_seamless(s: SessionView, options: ReconnectOptions)
    requires
        s.goaway_received matches Some((uri, timeout)) && (uri.len() == 0 || (timeout is None
            && options.drain_timeout is None)),
    ensures
        !is_seamless(s, options),
{
}

/// The attempts after so many failed.
pub open spec fn after_failures(max_retries: u32, n: nat) -> Retries
    decreases n,
{
    if n == 0 {
        Retries { attempt: 0, max_retries }
    } else {
        after_failures(max_retries, (n - 1) as nat).next()
    }
}

/// There is one attempt more than there are retries: after `n` failures another follows exactly if
/// `n` retries are not too many.
pub proof fn law_attempts_are_limited(max_retries: u32, n: nat)
    ensures
        after_failures(max_retries, n).max_retries == max_retries,
        after_failures(max_retries, n).attempt == if n <= max_retries {
            n
        } else {
            max_retries as nat
        },
        after_failures(max_retries, n).has_next() <==> n < max_retries,
    decreases n,
{
    if n > 0 {
        law_attempts_are_limited(max_retries, (n - 1) as nat);
    }
}

/// A timeout that the caller configured is used where the GOAWAY has none, and a handoff is
/// seamless exactly if there is somewhere to go, a time to drain in, and a path in an origin.
pub proof fn law_when_seamless(s: SessionView, options: ReconnectOptions)
    ensures
        drain_of(None, options.drain_timeout) == options.drain_timeout,
        s.goaway_received is None ==> !is_seamless(s, options),
        s.goaway_received is Some ==> {
            let (uri, timeout) = s.goaway_received->Some_0;
            is_seamless(s, options) <==> {
                &&& uri.len() > 0
                &&& timeout is Some || options.drain_timeout is Some
                &&& s.origin is Some
                &&& s.sourced_paths.len() > 0
            }
        },
{
}

/// The session that was connected takes the place of the old one, exactly if the handoff is not
/// seamless or both have the same origin. The old one stays open exactly if the handoff is
/// seamless; nothing else of the two changes.
pub proof fn law_sessions_change_places(s: SessionView, next: SessionView, seamless: bool)
    ensures
        !seamless ==> takes_over(s, next, seamless),
        seamless && next.origin is None ==> !takes_over(s, next, seamless),
        seamless && next.origin is Some ==> (takes_over(s, next, seamless) <==> s.origin is Some
            && s.origin->Some_0 == next.origin->Some_0),
        ({
            let (used, left) = handed_over(s, next, seamless);
            &&& takes_over(s, next, seamless) ==> {
                &&& used == next
                &&& left.id == s.id
                &&& left.closed <==> s.closed || !seamless
                &&& left.origin == s.origin
                &&& left.sourced_paths == s.sourced_paths
                &&& left.goaway == s.goaway
                &&& left.goaway_received == s.goaway_received
                &&& left.draining == s.draining
            }
            &&& !takes_over(s, next, seamless) ==> used == s && left == next
        }),
{
}

/// A session is closed by force only when its time is over, and then unless it was closed before.
pub proof fn law_drain_ends(s: SessionView)
    ensures
        !is_forced(s, false),
        is_forced(s, true) <==> !s.closed,
{
}

} // verus!
