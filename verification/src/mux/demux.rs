//! Reading a CMSF broadcast: the segments of its tracks.

use crate::error::Error;
use crate::mux::base64;
use crate::mux::base64::base64_bytes;
use crate::mux::catalog::{text, MsfTrack};
use crate::mux::cmsf::{
    metadata, parse_cmsf_metadata, parse_timescale, timescale_of, CmsfError, CmsfErrorView,
    CmsfMetadata,
};
use crate::mux::consumer::{
    GroupConsumer, GroupView, Polled, TrackConsumer, TrackConsumerView,
};
use vstd::prelude::*;

verus! {

/// After how many malformed segments in a row a track is given up.
pub const MALFORMED_LIMIT: u32 = 100;

/// A demuxed CMSF segment.
#[derive(Debug)]
pub struct CmsfSegment {
    pub track_name: String,
    pub group_id: u64,
    pub media_data: Vec<u8>,
    pub pts: u64,
    pub duration: u64,
    pub timescale: u64,
    pub is_keyframe: bool,
}

/// What a segment is.
pub struct SegmentView {
    pub track_name: Seq<char>,
    pub group_id: u64,
    pub media_data: Seq<u8>,
    pub pts: u64,
    pub duration: u64,
    pub timescale: u64,
    pub is_keyframe: bool,
}

impl View for CmsfSegment {
    type V = SegmentView;

    open spec fn view(&self) -> SegmentView {
        SegmentView {
            track_name: self.track_name@,
            group_id: self.group_id,
            media_data: self.media_data@,
            pts: self.pts,
            duration: self.duration,
            timescale: self.timescale,
            is_keyframe: self.is_keyframe,
        }
    }
}

/// What an answer to a poll is.
pub open spec fn polled(res: Polled<Result<Option<CmsfSegment>, CmsfError>>) -> Polled<
    Result<Option<SegmentView>, CmsfErrorView>,
> {
    match res {
        Polled::Pending => Polled::Pending,
        Polled::Ready(Ok(Some(seg))) => Polled::Ready(Ok(Some(seg@))),
        Polled::Ready(Ok(None)) => Polled::Ready(Ok(None)),
        Polled::Ready(Err(e)) => Polled::Ready(Err(e@)),
    }
}

/// Why a track ended.
#[derive(Debug, Clone)]
pub enum EndReason {
    /// The catalog does not hold the track any more.
    CatalogRemoved,
    TrackFinished,
    TrackError(Error),
}

/// Per-track CMSF demuxer yielding a [`CmsfSegment`] per object.
#[derive(Debug, Clone)]
pub struct CmsfTrackDemuxer {
    pub track: TrackConsumer<Vec<u8>>,
    pub init_data: Vec<u8>,
    pub timescale: u64,
    pub current_group: Option<GroupConsumer<Vec<u8>>>,
    pub end_reason: Option<EndReason>,
    pub malformed_count: u32,
}

/// What a demuxer is.
pub struct DemuxView {
    pub track: TrackConsumerView<Vec<u8>>,
    pub init_data: Seq<u8>,
    pub timescale: u64,
    pub current_group: Option<GroupView<Vec<u8>>>,
    pub end_reason: Option<EndReason>,
    pub malformed_count: u32,
}

impl View for CmsfTrackDemuxer {
    type V = DemuxView;

    open spec fn view(&self) -> DemuxView {
        DemuxView {
            track: self.track@,
            init_data: self.init_data@,
            timescale: self.timescale,
            current_group: match self.current_group {
                Some(g) => Some(g@),
                None => None,
            },
            end_reason: self.end_reason,
            malformed_count: self.malformed_count,
        }
    }
}

/// One more of what is counted.
pub open spec fn counted(n: u32) -> u32 {
    if n == u32::MAX {
        0
    } else {
        (n + 1) as u32
    }
}

impl DemuxView {
    /// A demuxer that has read nothing.
    pub open spec fn fresh(
        track: TrackConsumerView<Vec<u8>>,
        init_data: Seq<u8>,
        timescale: u64,
    ) -> DemuxView {
        DemuxView {
            track,
            init_data,
            timescale,
            current_group: None,
            end_reason: None,
            malformed_count: 0,
        }
    }

    /// A frame is read as a segment.
    pub open spec fn segment(self, group: u64, data: Seq<u8>, meta: CmsfMetadata) -> SegmentView {
        SegmentView {
            track_name: self.track.name,
            group_id: group,
            media_data: data,
            pts: meta.pts,
            duration: meta.duration,
            timescale: self.timescale,
            is_keyframe: meta.is_keyframe,
        }
    }

    /// The next segment: frame by frame, and group by group. A malformed frame is skipped, unless
    /// it is the last of so many in a row that the track is given up; a group that fails is left.
    pub open spec fn poll(self) -> (DemuxView, Polled<Result<Option<SegmentView>, CmsfErrorView>>)
        decreases
            self.track.groups.len(),
            match self.current_group {
                Some(g) => 1 + g.frames.len(),
                None => 0,
            },
    {
        match self.current_group {
            Some(g) => if g.frames.len() == 0 {
                (self, Polled::Pending)
            } else {
                let rest = DemuxView {
                    current_group: Some(GroupView { frames: g.frames.drop_first(), ..g }),
                    ..self
                };
                match g.frames[0] {
                    Ok(Some(data)) => match metadata(data@) {
                        Ok(meta) => (
                            DemuxView { malformed_count: 0, ..rest },
                            Polled::Ready(Ok(Some(self.segment(g.sequence, data@, meta)))),
                        ),
                        Err(_) => {
                            let n = counted(self.malformed_count);
                            let skipped = DemuxView { malformed_count: n, ..rest };
                            if n >= MALFORMED_LIMIT {
                                (
                                    DemuxView {
                                        end_reason: Some(EndReason::TrackFinished),
                                        ..skipped
                                    },
                                    Polled::Ready(Ok(None)),
                                )
                            } else {
                                skipped.poll()
                            }
                        },
                    },
                    _ => DemuxView { current_group: None, ..self }.poll(),
                }
            },
            None => if self.track.groups.len() == 0 {
                (self, Polled::Pending)
            } else {
                let rest = DemuxView {
                    track: TrackConsumerView { groups: self.track.groups.drop_first(), ..self.track },
                    ..self
                };
                match self.track.groups[0] {
                    Ok(Some(g)) => DemuxView { current_group: Some(g), ..rest }.poll(),
                    Ok(None) => (
                        DemuxView { end_reason: Some(EndReason::TrackFinished), ..self },
                        Polled::Ready(Ok(None)),
                    ),
                    Err(e) => (
                        DemuxView { end_reason: Some(EndReason::TrackError(e)), ..self },
                        Polled::Ready(Ok(None)),
                    ),
                }
            },
        }
    }
}

/// The init segment of a catalog track and its timescale.
pub open spec fn init_of_track(init_data: Option<Seq<char>>) -> Result<
    (Seq<u8>, u64),
    CmsfErrorView,
> {
    match init_data {
        None => Err(CmsfErrorView::MissingInitData),
        Some(t) => match base64_bytes(t) {
            Err(e) => Err(CmsfErrorView::Base64(e)),
            Ok(init) => match timescale_of(init) {
                Err(e) => Err(e),
                Ok(timescale) => Ok((init, timescale)),
            },
        },
    }
}

/// Reads the init segment of a catalog track, and its timescale.
pub(crate) fn read_init(init_data: &Option<String>) -> (res: Result<(Vec<u8>, u64), CmsfError>)
    ensures
        match init_of_track(text(*init_data)) {
            Ok((init, timescale)) => res matches Ok((i, t)) && i@ == init && t == timescale,
            Err(e) => res matches Err(f) && f@ == e,
        },
{
    let encoded = match init_data {
        Some(t) => t,
        None => {
            return Err(CmsfError::MissingInitData);
        },
    };
    match base64::decode(encoded.as_str()) {
        Ok(init) => match parse_timescale(init.as_slice()) {
            Ok(timescale) => Ok((init, timescale)),
            Err(e) => Err(e),
        },
        Err(e) => Err(CmsfError::Base64(e)),
    }
}

impl CmsfTrackDemuxer {
    /// A demuxer of a track with an init segment.
    pub fn new(track: TrackConsumer<Vec<u8>>, init_data: Vec<u8>, timescale: u64) -> (d: Self)
        ensures
            d@ == DemuxView::fresh(track@, init_data@, timescale),
    {
        CmsfTrackDemuxer {
            track,
            init_data,
            timescale,
            current_group: None,
            end_reason: None,
            malformed_count: 0,
        }
    }

    /// Create from an MSF catalog track entry.
    pub fn from_msf_track(track: TrackConsumer<Vec<u8>>, msf_track: &MsfTrack) -> (res: Result<
        Self,
        CmsfError,
    >)
        ensures
            match init_of_track(msf_track@.init_data) {
                Ok((init, timescale)) => res matches Ok(d) && d@ == DemuxView::fresh(
                    track@,
                    init,
                    timescale,
                ),
                Err(e) => res matches Err(f) && f@ == e,
            },
    {
        match read_init(&msf_track.init_data) {
            Ok((init_data, timescale)) => Ok(Self::new(track, init_data, timescale)),
            Err(e) => Err(e),
        }
    }

    /// Reads the next segment, if it is there; none when the track ends.
    pub fn poll_next(&mut self) -> (res: Polled<Result<Option<CmsfSegment>, CmsfError>>)
        ensures
            (final(self)@, polled(res)) == old(self)@.poll(),
    {
        loop
            invariant
                old(self)@.poll() == self@.poll(),
            decreases
                self@.track.groups.len(),
                match self@.current_group {
                    Some(g) => 1 + g.frames.len(),
                    None => 0,
                },
        {
            let ghost before = self@;
            if let Some(mut group) = self.current_group.take() {
                match group.poll_read_frame() {
                    Polled::Ready(Ok(Some(data))) => {
                        let group_id: u64 = group.sequence;
                        self.current_group = Some(group);
                        match parse_cmsf_metadata(data.as_slice()) {
                            Ok(meta) => {
                                self.malformed_count = 0;
                                return Polled::Ready(
                                    Ok(
                                        Some(
                                            CmsfSegment {
                                                track_name: self.track.name.clone(),
                                                group_id,
                                                media_data: data,
                                                pts: meta.pts,
                                                duration: meta.duration,
                                                timescale: self.timescale,
                                                is_keyframe: meta.is_keyframe,
                                            },
                                        ),
                                    ),
                                );
                            },
                            Err(_) => {
                                self.malformed_count = self.malformed_count.wrapping_add(1);
                                if self.malformed_count >= MALFORMED_LIMIT {
                                    self.end_reason = Some(EndReason::TrackFinished);
                                    return Polled::Ready(Ok(None));
                                }
                            },
                        }
                    },
                    Polled::Ready(_) => {
                        // The group ended or failed, and is left.
                        assert(self@ == (DemuxView { current_group: None, ..before }));
                    },
                    Polled::Pending => {
                        self.current_group = Some(group);
                        return Polled::Pending;
                    },
                }
            } else {
                match self.track.poll_recv_group() {
                    Polled::Pending => {
                        return Polled::Pending;
                    },
                    Polled::Ready(Ok(Some(group))) => {
                        self.current_group = Some(group);
                    },
                    Polled::Ready(Ok(None)) => {
                        self.end_reason = Some(EndReason::TrackFinished);
                        return Polled::Ready(Ok(None));
                    },
                    Polled::Ready(Err(e)) => {
                        self.end_reason = Some(EndReason::TrackError(e));
                        return Polled::Ready(Ok(None));
                    },
                }
            }
        }
    }

    /// The init segment.
    pub fn init_data(&self) -> (data: &Vec<u8>)
        ensures
            data@ == self@.init_data,
    {
        &self.init_data
    }

    /// Why the track ended, if it did.
    pub fn end_reason(&self) -> (reason: Option<&EndReason>)
        ensures
            match reason {
                Some(r) => self@.end_reason == Some(*r),
                None => self@.end_reason is None,
            },
    {
        self.end_reason.as_ref()
    }
}

} // verus!
