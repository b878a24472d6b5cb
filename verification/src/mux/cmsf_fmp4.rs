//! Publishing fragmented MP4 as a CMSF broadcast.

use crate::mux::base64::base64_text;
use crate::mux::broadcast::{BroadcastView, CmsfBroadcastProducer};
use crate::mux::catalog::MsfCatalog;
use crate::mux::cmsf::metadata;
use crate::mux::codec::VideoCodec;
use crate::mux::config::{audio_of, build_audio_config, build_video_config, video_of};
use crate::mux::fragment::{Fragment, FragmentView};
use crate::mux::init::{build_init_segment, init_segment};
use crate::mux::mp4::{Moov, MoovView};
use crate::mux::outbox::{ActionView, Outbox, OutboxView};
use crate::mux::parser::{
    decode_all, Fmp4Parser, Fmp4Sink, ImportError, ImportErrorView, ParserView,
};
use crate::mux::types::{
    outcome, CmsfConfig, CmsfObject, CmsfTrackConfig, MuxError, MuxErrorView, SapType, TrackId,
    TrackKind,
};
use std::collections::HashMap;
use vstd::prelude::*;

verus! {

broadcast use vstd::std_specs::hash::group_hash_axioms;

/// Where the tracks of a file are published.
#[derive(Debug, Clone)]
pub struct CmsfFmp4Consumer {
    pub producer: CmsfBroadcastProducer,
    /// The track of each identifier.
    pub track_map: HashMap<u32, TrackId>,
}

/// What the tracks of a file are.
pub struct CmsfImport {
    pub producer: BroadcastView,
    pub track_map: Map<u32, TrackId>,
}

/// The access point that a keyframe of a codec is.
pub open spec fn video_sap(codec: VideoCodec<Seq<char>>) -> SapType {
    match codec {
        VideoCodec::H264(_) => SapType::Type1,
        VideoCodec::VP8 => SapType::Type1,
        _ => SapType::Type2,
    }
}

impl CmsfImport {
    /// A track is announced: it is added to the broadcast with an init segment of its own, as one
    /// of the tracks that can be switched between.
    pub open spec fn init(
        self,
        out: OutboxView,
        kind: TrackKind,
        raw: Seq<u8>,
        moov: MoovView,
        index: nat,
    ) -> (CmsfImport, OutboxView, Result<(), ImportErrorView>) {
        let timescale = moov.trak[index as int].timescale as u64;
        match init_segment(raw, moov, index) {
            Err(e) => (self, out, Err(ImportErrorView::Parse(e))),
            Ok(init) => {
                let init_data = base64_text(init);
                let described = match kind {
                    TrackKind::Video => match video_of(raw, index) {
                        Err(e) => Err(e),
                        Ok(v) => Ok(
                            (
                                Some(1u32),
                                CmsfTrackConfig::Video {
                                    codec: v.codec,
                                    description: v.description,
                                    width: Some(v.width),
                                    height: Some(v.height),
                                    bitrate: None,
                                    framerate: None,
                                    init_data,
                                },
                                video_sap(v.codec),
                            ),
                        ),
                    },
                    TrackKind::Audio => match audio_of(raw, index) {
                        Err(e) => Err(e),
                        Ok(a) => Ok(
                            (
                                Some(2u32),
                                CmsfTrackConfig::Audio {
                                    codec: a.codec,
                                    description: a.description,
                                    sample_rate: a.sample_rate,
                                    channel_count: a.channel_count,
                                    bitrate: a.bitrate,
                                    init_data,
                                },
                                SapType::Type1,
                            ),
                        ),
                    },
                };
                match described {
                    Err(e) => (self, out, Err(e)),
                    Ok((alt_group, config, sap)) => if !self.producer.has_room() {
                        (self, out, Err(ImportErrorView::TooManyTracks))
                    } else {
                        let (producer, o, res) = self.producer.add(
                            out,
                            kind,
                            alt_group,
                            timescale,
                            config,
                            sap,
                        );
                        match res {
                            Err(e) => (
                                CmsfImport { producer, ..self },
                                o,
                                Err(ImportErrorView::Mux(e)),
                            ),
                            Ok(id) => (
                                CmsfImport {
                                    producer,
                                    track_map: self.track_map.insert(
                                        moov.trak[index as int].track_id,
                                        id,
                                    ),
                                },
                                o,
                                Ok(()),
                            ),
                        }
                    },
                }
            },
        }
    }

    /// A fragment is published: as an object of its track, whose group the broadcast chooses.
    pub open spec fn fragment(self, out: OutboxView, f: FragmentView) -> (
        CmsfImport,
        OutboxView,
        Result<(), ImportErrorView>,
    ) {
        if !self.track_map.contains_key(f.track_id) {
            (self, out, Err(ImportErrorView::UnknownTrack))
        } else {
            match metadata(f.data) {
                Err(e) => (self, out, Err(ImportErrorView::Mux(MuxErrorView::Cmsf(e)))),
                Ok(meta) => {
                    let (producer, o, res) = self.producer.write(
                        out,
                        self.track_map[f.track_id],
                        f.data,
                        None,
                        meta,
                    );
                    (
                        CmsfImport { producer, ..self },
                        o,
                        match res {
                            Ok(()) => Ok(()),
                            Err(e) => Err(ImportErrorView::Mux(e)),
                        },
                    )
                },
            }
        }
    }
}

impl CmsfFmp4Consumer {
    /// What the tracks are.
    pub open spec fn view(&self) -> CmsfImport {
        CmsfImport { producer: self.producer@, track_map: self.track_map@ }
    }

    /// Whether a further track can be numbered.
    fn has_room(&self) -> (b: bool)
        ensures
            b == self@.producer.has_room(),
    {
        self.producer.tracks.len() < usize::MAX - 2 && self.producer.video_count < usize::MAX
            && self.producer.audio_count < usize::MAX
    }
}

impl Fmp4Sink for CmsfFmp4Consumer {
    type State = CmsfImport;

    open spec fn state(self) -> CmsfImport {
        self@
    }

    open spec fn inits(
        s: CmsfImport,
        out: OutboxView,
        kind: TrackKind,
        raw: Seq<u8>,
        moov: MoovView,
        index: nat,
    ) -> (CmsfImport, OutboxView, Result<(), ImportErrorView>) {
        s.init(out, kind, raw, moov, index)
    }

    open spec fn fragments(s: CmsfImport, out: OutboxView, fragment: FragmentView) -> (
        CmsfImport,
        OutboxView,
        Result<(), ImportErrorView>,
    ) {
        s.fragment(out, fragment)
    }

    fn on_init(
        &mut self,
        kind: TrackKind,
        raw: &[u8],
        moov: &Moov,
        index: usize,
        out: &mut Outbox,
    ) -> (res: Result<(), ImportError>) {
        let init_segment = match build_init_segment(raw, moov, index) {
            Ok(init) => init,
            Err(e) => {
                return Err(ImportError::Parse(e));
            },
        };
        let timescale: u64 = moov.trak[index].timescale as u64;
        let res = match kind {
            TrackKind::Video => {
                let (mut track, _is_h264) = match build_video_config(raw, index) {
                    Ok(t) => t,
                    Err(e) => {
                        return Err(e);
                    },
                };
                track.init_segment = init_segment;
                track.timescale = timescale;
                if !self.has_room() {
                    return Err(ImportError::TooManyTracks);
                }
                self.producer.add_video_track(track, out)
            },
            TrackKind::Audio => {
                let mut track = match build_audio_config(raw, index) {
                    Ok(t) => t,
                    Err(e) => {
                        return Err(e);
                    },
                };
                track.init_segment = init_segment;
                track.timescale = timescale;
                if !self.has_room() {
                    return Err(ImportError::TooManyTracks);
                }
                self.producer.add_audio_track(track, out)
            },
        };
        match res {
            Ok(id) => {
                self.track_map.insert(moov.trak[index].track_id, id);
                Ok(())
            },
            Err(e) => Err(ImportError::Mux(e)),
        }
    }

    fn on_fragment(&mut self, fragment: Fragment, out: &mut Outbox) -> (res: Result<
        (),
        ImportError,
    >) {
        let id: TrackId = match self.track_map.get(&fragment.track_id) {
            Some(id) => *id,
            None => {
                return Err(ImportError::UnknownTrack);
            },
        };
        let object = CmsfObject { data: fragment.data, group_id: None };
        match self.producer.write(id, object, out) {
            Ok(()) => Ok(()),
            Err(e) => Err(ImportError::Mux(e)),
        }
    }
}

/// Bridges fMP4 input to CMSF broadcast output.
///
/// Parses fragmented MP4, detects codecs, and feeds objects to a broadcast.
#[derive(Clone)]
pub struct CmsfFmp4Importer {
    pub parser: Fmp4Parser<CmsfFmp4Consumer>,
}

impl CmsfFmp4Importer {
    /// Whether what was read is what it says.
    pub open spec fn wf(self) -> bool {
        self.parser.wf()
    }

    /// What the tracks are.
    pub open spec fn view(&self) -> CmsfImport {
        self.parser.sink@
    }

    /// An importer that has read nothing, on a broadcast without media.
    pub fn new(config: CmsfConfig, out: &mut Outbox) -> (res: Result<Self, MuxError>)
        ensures
            ({
                let o1 = old(out)@.with(
                    ActionView::CreateTrack { track: 0, name: "catalog"@ },
                );
                let o2 = o1.with(ActionView::CreateTrack { track: 1, name: "catalog.json"@ });
                let refused = old(out)@.refuses() || (config.publish_hang && o1.refuses());
                &&& final(out)@ == if old(out)@.refuses() || !config.publish_hang {
                    o1
                } else {
                    o2
                }
                &&& match res {
                    Ok(p) => {
                        &&& !refused
                        &&& p.wf()
                        &&& p.parser.parser() == (ParserView { moov: None, moof: None })
                        &&& p@.track_map == Map::<u32, TrackId>::empty()
                        &&& p@.producer == (BroadcastView {
                            msf_track: 0,
                            hang_track: if config.publish_hang {
                                Some(1usize)
                            } else {
                                None
                            },
                            tracks: Seq::empty(),
                            video_count: 0,
                            audio_count: 0,
                            audio_buffer: Seq::empty(),
                            first_video_group: false,
                            has_video_track: false,
                            catalog_failed: false,
                        })
                    },
                    Err(e) => refused && e@ == MuxErrorView::Refused,
                }
            }),
    {
        let producer = CmsfBroadcastProducer::new(config, out)?;
        let sink = CmsfFmp4Consumer { producer, track_map: HashMap::new() };
        Ok(CmsfFmp4Importer { parser: Fmp4Parser::new(sink) })
    }

    /// Decodes a buffer of bytes: how many of them were used.
    pub fn decode(&mut self, data: &[u8], out: &mut Outbox) -> (res: Result<usize, ImportError>)
        requires
            old(self).wf(),
        ensures
            final(self).wf(),
            ({
                let (p, s, o, r) = decode_all::<CmsfFmp4Consumer>(
                    old(self).parser.parser(),
                    old(self)@,
                    old(out)@,
                    data@,
                );
                &&& final(self).parser.parser() == p
                &&& final(self)@ == s
                &&& final(out)@ == o
                &&& match r {
                    Ok(rest) => res matches Ok(n) && n <= data@.len() && rest == data@.skip(
                        n as int,
                    ),
                    Err(e) => res matches Err(f) && f@ == e,
                }
            }),
    {
        self.parser.decode(data, out)
    }

    /// Whether the moov was read.
    pub fn is_initialized(&self) -> (b: bool)
        ensures
            b == (self.parser.parser().moov is Some),
    {
        self.parser.is_initialized()
    }

    /// Finishes the broadcast.
    pub fn finish(&mut self, out: &mut Outbox) -> (res: Result<(), MuxError>)
        requires
            old(self).wf(),
        ensures
            final(self).wf(),
            final(self).parser.parser() == old(self).parser.parser(),
            final(self)@.track_map == old(self)@.track_map,
            (final(self)@.producer, final(out)@, outcome(res)) == old(self)@.producer.finish(
                old(out)@,
                0,
            ),
    {
        self.parser.sink.producer.finish(out)
    }

    /// The current MSF catalog.
    pub fn msf_catalog(&self, now: Option<u64>) -> (catalog: MsfCatalog)
        ensures
            catalog@ == self@.producer.msf_catalog(now),
    {
        self.parser.sink.producer.msf_catalog(now)
    }
}

} // verus!
