//! Writing a broadcast that is subscribed to.

use crate::mux::broadcast_demux::{active, BroadcastDemuxView, CmsfBroadcastDemuxer, EntryView};
use crate::mux::cmsf::{CmsfError, CmsfErrorView};
use crate::mux::consumer::Polled;
use crate::mux::init::{build_merged_init, merged_init, segments};
use crate::mux::outbox::{Outbox, OutboxView};
use crate::time::Duration;
use vstd::prelude::*;

verus! {

/// The format to write.
#[derive(Debug, Clone, Copy, PartialEq, Eq, Structural)]
pub enum SubscribeFormat {
    Fmp4,
    /// CMSF-aware fMP4 output (reads MSF catalog instead of hang catalog).
    CmsfFmp4,
}

/// What is to be written, and how late it may be.
#[derive(Debug, Clone, Copy)]
pub struct SubscribeArgs {
    /// The format to write.
    pub format: SubscribeFormat,
    /// Maximum latency before skipping groups.
    pub max_latency: Duration,
}

/// The latency that is meant unless another is given: half a second, in nanoseconds.
pub const DEFAULT_LATENCY_NANOS: u32 = 500_000_000;

/// Why nothing can be written.
#[derive(Debug)]
pub enum SubscribeError {
    /// Groups are not skipped for CMSF output, so that no other latency is supported.
    Latency,
    /// The demuxer failed waiting for the catalog.
    Catalog(CmsfError),
    /// The init segment cannot be merged.
    Init(CmsfError),
    /// The next segment cannot be read.
    Segment(CmsfError),
}

/// What such an error says.
pub enum SubscribeErrorView {
    Latency,
    Catalog(CmsfErrorView),
    Init(CmsfErrorView),
    Segment(CmsfErrorView),
}

impl View for SubscribeError {
    type V = SubscribeErrorView;

    open spec fn view(&self) -> SubscribeErrorView {
        match self {
            SubscribeError::Latency => SubscribeErrorView::Latency,
            SubscribeError::Catalog(e) => SubscribeErrorView::Catalog(e@),
            SubscribeError::Init(e) => SubscribeErrorView::Init(e@),
            SubscribeError::Segment(e) => SubscribeErrorView::Segment(e@),
        }
    }
}

/// What is to be written next.
pub open spec fn chunk(res: Polled<Result<Option<Vec<u8>>, SubscribeError>>) -> Polled<
    Result<Option<Seq<u8>>, SubscribeErrorView>,
> {
    match res {
        Polled::Pending => Polled::Pending,
        Polled::Ready(Ok(Some(b))) => Polled::Ready(Ok(Some(b@))),
        Polled::Ready(Ok(None)) => Polled::Ready(Ok(None)),
        Polled::Ready(Err(e)) => Polled::Ready(Err(e@)),
    }
}

/// A CMSF broadcast that is written as fMP4: the init segment of all its tracks, and then the
/// segments as they come.
#[derive(Debug)]
pub struct Subscribe {
    pub args: SubscribeArgs,
    /// Whether the init segment was written.
    pub started: bool,
}

/// What the demuxer becomes, what is asked for, whether the init segment is written, and what is
/// to be written next.
pub open spec fn step(args: SubscribeArgs, started: bool, d: BroadcastDemuxView, out: OutboxView) -> (
    BroadcastDemuxView,
    OutboxView,
    bool,
    Polled<Result<Option<Seq<u8>>, SubscribeErrorView>>,
) {
    if started {
        let (d, out, res) = d.poll(out);
        (
            d,
            out,
            true,
            match res {
                Polled::Pending => Polled::Pending,
                Polled::Ready(Ok(Some(seg))) => Polled::Ready(Ok(Some(seg.media_data))),
                Polled::Ready(Ok(None)) => Polled::Ready(Ok(None)),
                Polled::Ready(Err(e)) => Polled::Ready(Err(SubscribeErrorView::Segment(e))),
            },
        )
    } else if args.max_latency.secs != 0 || args.max_latency.nanos != DEFAULT_LATENCY_NANOS {
        (d, out, false, Polled::Ready(Err(SubscribeErrorView::Latency)))
    } else {
        let (d, out, res) = d.poll_ready(out);
        match res {
            Polled::Pending => (d, out, false, Polled::Pending),
            Polled::Ready(Err(e)) => (
                d,
                out,
                false,
                Polled::Ready(Err(SubscribeErrorView::Catalog(e))),
            ),
            Polled::Ready(Ok(())) => match merged_init(
                active(d.tracks).map_values(|t: EntryView| t.demuxer.init_data),
            ) {
                Err(e) => (d, out, false, Polled::Ready(Err(SubscribeErrorView::Init(e)))),
                Ok(init) => (d, out, true, Polled::Ready(Ok(Some(init)))),
            },
        }
    }
}

impl Subscribe {
    /// Nothing was written.
    pub fn new(args: SubscribeArgs) -> (s: Self)
        ensures
            s.args == args,
            !s.started,
    {
        Subscribe { args, started: false }
    }

    /// Gives what is to be written next, if it is there; none once the broadcast is over.
    pub fn next_chunk(&mut self, demuxer: &mut CmsfBroadcastDemuxer, out: &mut Outbox) -> (res:
        Polled<Result<Option<Vec<u8>>, SubscribeError>>)
        ensures
            final(self).args == old(self).args,
            (final(demuxer)@, final(out)@, final(self).started, chunk(res)) == step(
                old(self).args,
                old(self).started,
                old(demuxer)@,
                old(out)@,
            ),
    {
        if self.started {
            return match demuxer.poll_next(out) {
                Polled::Pending => Polled::Pending,
                Polled::Ready(Ok(Some(seg))) => Polled::Ready(Ok(Some(seg.media_data))),
                Polled::Ready(Ok(None)) => Polled::Ready(Ok(None)),
                Polled::Ready(Err(e)) => Polled::Ready(Err(SubscribeError::Segment(e))),
            };
        }
        if self.args.max_latency.secs != 0 || self.args.max_latency.nanos != DEFAULT_LATENCY_NANOS {
            return Polled::Ready(Err(SubscribeError::Latency));
        }
        match demuxer.poll_ready(out) {
            Polled::Pending => {
                return Polled::Pending;
            },
            Polled::Ready(Err(e)) => {
                return Polled::Ready(Err(SubscribeError::Catalog(e)));
            },
            Polled::Ready(Ok(())) => {},
        }
        let inits = demuxer.init_segments();
        assert(segments(inits@) =~= active(demuxer@.tracks).map_values(
            |t: EntryView| t.demuxer.init_data,
        ));
        match build_merged_init(&inits) {
            Ok(init) => {
                self.started = true;
                Polled::Ready(Ok(Some(init)))
            },
            Err(e) => Polled::Ready(Err(SubscribeError::Init(e))),
        }
    }
}

/// Nothing is written before the init segment of all tracks that are read, and that is written
/// once: after it, only segments follow.
pub proof fn law_init_comes_first(
    args: SubscribeArgs,
    started: bool,
    d: BroadcastDemuxView,
    out: OutboxView,
)
    ensures
        ({
            let (e, o, now, res) = step(args, started, d, out);
            let wrote = res is Ready && res->Ready_0 is Ok && res->Ready_0->Ok_0 is Some;
            &&& started ==> now
            &&& !started ==> (now <==> wrote)
            &&& !started && now ==> {
                let inits = active(e.tracks).map_values(|t: EntryView| t.demuxer.init_data);
                &&& merged_init(inits) == Ok::<_, CmsfErrorView>(res->Ready_0->Ok_0->Some_0)
                &&& d.poll_ready(out).2 == Polled::Ready(Ok::<(), CmsfErrorView>(()))
                &&& e == d.poll_ready(out).0
            }
            &&& !started ==> !(res matches Polled::Ready(Ok(None)))
        }),
{
}

/// Once it has begun, what is written is the media of the segments that the broadcast gives, as
/// they are, until it ends.
pub proof fn law_segments_are_written(args: SubscribeArgs, d: BroadcastDemuxView, out: OutboxView)
    ensures
        ({
            let (e, o, _now, res) = step(args, true, d, out);
            let (f, p, seg) = d.poll(out);
            &&& e == f
            &&& o == p
            &&& seg is Pending <==> res is Pending
            &&& (seg is Ready && seg->Ready_0 is Ok && seg->Ready_0->Ok_0 is Some) ==> res
                == Polled::Ready(
                Ok::<_, SubscribeErrorView>(Some(seg->Ready_0->Ok_0->Some_0.media_data)),
            )
            &&& (seg is Ready && seg->Ready_0 is Ok && seg->Ready_0->Ok_0 is None) ==> res
                == Polled::Ready(Ok::<Option<Seq<u8>>, SubscribeErrorView>(None))
            &&& (seg is Ready && seg->Ready_0 is Err) ==> res == Polled::Ready(
                Err::<Option<Seq<u8>>, _>(SubscribeErrorView::Segment(seg->Ready_0->Err_0)),
            )
        }),
{
}

/// No latency but half a second is supported, and that is found out before anything is asked for.
pub proof fn law_latency_is_fixed(args: SubscribeArgs, d: BroadcastDemuxView, out: OutboxView)
    ensures
        ({
            let (e, o, now, res) = step(args, false, d, out);
            let wrong = args.max_latency.secs as nat * 1_000_000_000 + args.max_latency.nanos
                != 500_000_000;
            let told = Polled::Ready(Err::<Option<Seq<u8>>, _>(SubscribeErrorView::Latency));
            &&& args.max_latency.wf() && wrong ==> res == told && e == d && o == out && !now
            &&& !wrong && args.max_latency.wf() ==> res != told
        }),
{
}

} // verus!
