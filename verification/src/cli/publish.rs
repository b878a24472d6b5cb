//! Publishing media that is read from an input.

use crate::mux::broadcast::BroadcastView;
use crate::mux::cmsf_fmp4::{CmsfFmp4Consumer, CmsfFmp4Importer};
use crate::mux::fmp4::{Fmp4, Fmp4Inner, Fmp4View};
use crate::mux::outbox::{ActionView, Outbox, OutboxView};
use crate::mux::parser::{decode_all, ImportError, ImportErrorView, ParserView};
use crate::mux::types::{outcome, CmsfConfig, MuxError, MuxErrorView, TrackId};
use vstd::prelude::*;

verus! {

/// What the input is.
#[derive(Debug)]
pub enum PublishFormat {
    Avc3,
    Fmp4,
    Cmsf,
    // NOTE: No aac support because it needs framing.
    Hls {
        /// URL or file path of an HLS playlist to ingest.
        playlist: String,
    },
}

/// What decodes the input. The decoders of AVC3 and of HLS stand outside.
#[derive(Clone)]
pub enum PublishDecoder {
    Avc3,
    Fmp4(Fmp4),
    Cmsf(CmsfFmp4Importer),
    Hls,
}

/// What became of a buffer: how much of it was used.
pub open spec fn used(
    r: Result<Seq<u8>, ImportErrorView>,
    data: Seq<u8>,
    res: Result<Option<usize>, ImportError>,
) -> bool {
    match r {
        Ok(rest) => res matches Ok(Some(n)) && n <= data.len() && rest == data.skip(n as int),
        Err(e) => res matches Err(f) && f@ == e,
    }
}

/// What is left of a buffer: what was not used.
pub open spec fn left_of(all: Seq<u8>, res: Result<Option<usize>, ImportError>) -> Seq<u8> {
    match res {
        Ok(Some(n)) => all.skip(n as int),
        _ => all,
    }
}

/// What becomes of a decoder that is given a buffer.
pub open spec fn decodes(
    before: PublishDecoder,
    out: OutboxView,
    data: Seq<u8>,
    after: PublishDecoder,
    o: OutboxView,
    res: Result<Option<usize>, ImportError>,
) -> bool {
    match (before, after) {
        (PublishDecoder::Avc3, PublishDecoder::Avc3) => o == out && res == Ok::<
            Option<usize>,
            ImportError,
        >(None),
        (PublishDecoder::Fmp4(a), PublishDecoder::Fmp4(b)) => {
            let (p, s, q, r) = decode_all::<Fmp4Inner>(a.parser.parser(), a@, out, data);
            b.parser.parser() == p && b@ == s && o == q && used(r, data, res)
        },
        (PublishDecoder::Cmsf(a), PublishDecoder::Cmsf(b)) => {
            let (p, s, q, r) = decode_all::<CmsfFmp4Consumer>(a.parser.parser(), a@, out, data);
            b.parser.parser() == p && b@ == s && o == q && used(r, data, res)
        },
        _ => false,
    }
}

impl PublishDecoder {
    /// Whether what was read is what it says.
    pub open spec fn wf(self) -> bool {
        match self {
            PublishDecoder::Fmp4(d) => d.wf(),
            PublishDecoder::Cmsf(d) => d.wf(),
            _ => true,
        }
    }

    /// Decodes a chunk of bytes from the input: how many of them were used. None for AVC3, whose
    /// decoder stands outside. HLS has no such input.
    pub fn decode_buf(&mut self, data: &[u8], out: &mut Outbox) -> (res: Result<
        Option<usize>,
        ImportError,
    >)
        requires
            old(self).wf(),
            *old(self) !is Hls,
        ensures
            final(self).wf(),
            decodes(*old(self), old(out)@, data@, *final(self), final(out)@, res),
    {
        match self {
            PublishDecoder::Fmp4(d) => match d.decode(data, out) {
                Ok(n) => Ok(Some(n)),
                Err(e) => Err(e),
            },
            PublishDecoder::Cmsf(d) => match d.decode(data, out) {
                Ok(n) => Ok(Some(n)),
                Err(e) => Err(e),
            },
            _ => Ok(None),
        }
    }

    /// Signals end-of-input so tracks and catalogs are closed cleanly.
    pub fn finish(&mut self, out: &mut Outbox) -> (res: Result<(), MuxError>)
        requires
            old(self).wf(),
        ensures
            final(self).wf(),
            match *old(self) {
                PublishDecoder::Cmsf(a) => {
                    &&& *final(self) matches PublishDecoder::Cmsf(b)
                    &&& b.parser.parser() == a.parser.parser()
                    &&& b@.track_map == a@.track_map
                    &&& (b@.producer, final(out)@, outcome(res)) == a@.producer.finish(
                        old(out)@,
                        0,
                    )
                },
                _ => {
                    &&& *final(self) == *old(self)
                    &&& final(out)@ == old(out)@
                    &&& outcome(res) == Ok::<(), MuxErrorView>(())
                },
            },
    {
        match self {
            PublishDecoder::Cmsf(d) => d.finish(out),
            _ => Ok(()),
        }
    }
}

/// Media that is published, and what was read of the input and not used yet.
#[derive(Clone)]
pub struct Publish {
    pub decoder: PublishDecoder,
    pub buffer: Vec<u8>,
}

/// Whether a decoder is that of a format.
pub open spec fn decodes_format(format: PublishFormat, d: PublishDecoder) -> bool {
    match format {
        PublishFormat::Avc3 => d is Avc3,
        PublishFormat::Fmp4 => d is Fmp4,
        PublishFormat::Cmsf => d is Cmsf,
        PublishFormat::Hls { .. } => d is Hls,
    }
}

/// What is asked for before anything is published: CMSF manages its own catalog track, and the
/// others none.
pub open spec fn asked_at_first(format: PublishFormat, out: OutboxView) -> OutboxView {
    if format is Cmsf {
        out.with(ActionView::CreateTrack { track: 0, name: "catalog"@ })
    } else {
        out
    }
}

impl Publish {
    /// A decoder for the format. CMSF manages its own catalog tracks.
    pub fn new(format: &PublishFormat, out: &mut Outbox) -> (res: Result<Self, MuxError>)
        ensures
            final(out)@ == asked_at_first(*format, old(out)@),
            res is Ok <==> !(format is Cmsf && old(out)@.refuses()),
            res matches Ok(p) ==> decodes_format(*format, p.decoder),
            match res {
                Ok(p) => {
                    &&& p.buffer@.len() == 0
                    &&& p.decoder.wf()
                    &&& match format {
                        PublishFormat::Avc3 => p.decoder is Avc3 && final(out)@ == old(out)@,
                        PublishFormat::Fmp4 => {
                            &&& p.decoder matches PublishDecoder::Fmp4(d)
                            &&& d.parser.parser() == (ParserView { moov: None, moof: None })
                            &&& d@ == (Fmp4View {
                                tracks: Seq::empty(),
                                catalog: Seq::empty(),
                                next_track: 0,
                                explicit_groups: false,
                            })
                            &&& final(out)@ == old(out)@
                        },
                        PublishFormat::Cmsf => {
                            &&& p.decoder matches PublishDecoder::Cmsf(d)
                            &&& d.parser.parser() == (ParserView { moov: None, moof: None })
                            &&& d@.track_map == Map::<u32, TrackId>::empty()
                            &&& d@.producer == (BroadcastView {
                                msf_track: 0,
                                hang_track: None,
                                tracks: Seq::empty(),
                                video_count: 0,
                                audio_count: 0,
                                audio_buffer: Seq::empty(),
                                first_video_group: false,
                                has_video_track: false,
                                catalog_failed: false,
                            })
                            &&& !old(out)@.refuses()
                            &&& final(out)@ == old(out)@.with(
                                ActionView::CreateTrack { track: 0, name: "catalog"@ },
                            )
                        },
                        PublishFormat::Hls { .. } => p.decoder is Hls && final(out)@ == old(out)@,
                    }
                },
                Err(e) => format is Cmsf && old(out)@.refuses() && e@ == MuxErrorView::Refused
                    && final(out)@ == old(out)@.with(
                    ActionView::CreateTrack { track: 0, name: "catalog"@ },
                ),
            },
    {
        let decoder = match format {
            PublishFormat::Avc3 => PublishDecoder::Avc3,
            PublishFormat::Fmp4 => PublishDecoder::Fmp4(Fmp4::new()),
            PublishFormat::Cmsf => {
                let config = CmsfConfig { publish_hang: false };
                PublishDecoder::Cmsf(CmsfFmp4Importer::new(config, out)?)
            },
            PublishFormat::Hls { .. } => PublishDecoder::Hls,
        };
        Ok(Publish { decoder, buffer: Vec::new() })
    }

    /// More of the input was read: what can be used of it is published, and the rest is kept.
    pub fn feed(&mut self, data: &[u8], out: &mut Outbox) -> (res: Result<
        Option<usize>,
        ImportError,
    >)
        requires
            old(self).decoder.wf(),
            old(self).decoder !is Hls,
        ensures
            final(self).decoder.wf(),
            final(self).decoder !is Hls,
            decodes(
                old(self).decoder,
                old(out)@,
                old(self).buffer@ + data@,
                final(self).decoder,
                final(out)@,
                res,
            ),
            final(self).buffer@ == left_of(old(self).buffer@ + data@, res),
    {
        let mut i: usize = 0;
        while i < data.len()
            invariant
                i <= data@.len(),
                self.decoder == old(self).decoder,
                self.buffer@ == old(self).buffer@ + data@.take(i as int),
            decreases data@.len() - i,
        {
            assert(data@.take(i + 1) =~= data@.take(i as int).push(data@[i as int]));
            self.buffer.push(data[i]);
            i = i + 1;
        }
        assert(data@.take(i as int) =~= data@);
        let res = self.decoder.decode_buf(self.buffer.as_slice(), out);
        if let Ok(Some(n)) = &res {
            let rest = self.buffer.split_off(*n);
            assert(rest@ =~= (old(self).buffer@ + data@).skip(*n as int));
            self.buffer = rest;
        }
        res
    }
}

/// Of the input nothing is lost and nothing is read twice: what is kept is what follows the bytes
/// that were used; where none were, all is kept.
pub proof fn law_nothing_is_lost(
    before: PublishDecoder,
    out: OutboxView,
    all: Seq<u8>,
    after: PublishDecoder,
    o: OutboxView,
    res: Result<Option<usize>, ImportError>,
)
    requires
        decodes(before, out, all, after, o, res),
    ensures
        match res {
            Ok(Some(n)) => n <= all.len() && all == all.take(n as int) + left_of(all, res),
            _ => left_of(all, res) == all,
        },
        before is Avc3 ==> o == out && left_of(all, res) == all,
{
    if let Ok(Some(n)) = res {
        assert(all =~= all.take(n as int) + all.skip(n as int));
    }
}

/// Every format has a decoder of its own, and only CMSF asks for a track before there is media: one
/// catalog, which is not that of hang.
pub proof fn law_format_decides(a: PublishFormat, b: PublishFormat, d: PublishDecoder, out: OutboxView)
    requires
        decodes_format(a, d),
        decodes_format(b, d),
    ensures
        a is Avc3 <==> b is Avc3,
        a is Fmp4 <==> b is Fmp4,
        a is Cmsf <==> b is Cmsf,
        a is Hls <==> d is Hls,
        a is Fmp4 <==> d is Fmp4,
        a is Cmsf <==> d is Cmsf,
        !(a is Cmsf) ==> asked_at_first(a, out) == out,
        a is Cmsf ==> asked_at_first(a, out).sent == out.sent.push(
            ActionView::CreateTrack { track: 0, name: "catalog"@ },
        ),
{
}

} // verus!
