//! The tracks of a CMSF broadcast: their groups, their access points, their jitter.

use crate::mux::catalog::{bytes, clone_bytes, Framerate};
use crate::mux::cmsf::{cmsf_message, CmsfError, CmsfErrorView};
use crate::mux::codec::{AudioCodec, VideoCodec};
use crate::mux::outbox::{Action, ActionView, Outbox, OutboxView};
use crate::text::{append_decimal, decimal};
use vstd::prelude::*;

verus! {

/// Whether a track carries pictures or sound.
#[derive(Debug, Clone, Copy, PartialEq, Eq, Structural)]
pub enum TrackKind {
    Video,
    Audio,
}

/// Stream Access Point type per ISO 14496-12.
#[derive(Debug, Clone, Copy, PartialEq, Eq, PartialOrd, Ord, Structural)]
pub enum SapType {
    /// Not a random access point.
    NoSap,
    /// Type 1: IDR / clean random access.
    Type1,
    /// Type 2: CRA / open-GOP.
    Type2,
    /// Type 3: Gradual decoding refresh.
    Type3,
}

impl SapType {
    /// The place of a type in their order.
    pub open spec fn rank(self) -> nat {
        match self {
            SapType::NoSap => 0,
            SapType::Type1 => 1,
            SapType::Type2 => 2,
            SapType::Type3 => 3,
        }
    }

    /// Whether the type is one at which decoding can start.
    pub open spec fn is_keyframe_spec(self) -> bool {
        self == SapType::Type1 || self == SapType::Type2
    }

    /// The higher of two types.
    pub open spec fn higher_spec(self, other: SapType) -> SapType {
        if self.rank() < other.rank() {
            other
        } else {
            self
        }
    }

    /// Whether decoding can start here.
    pub fn is_keyframe(&self) -> (b: bool)
        ensures
            b == self.is_keyframe_spec(),
    {
        matches!(self, SapType::Type1 | SapType::Type2)
    }

    /// Whether a group may start here.
    pub fn is_valid_group_start(&self) -> (b: bool)
        ensures
            b == self.is_keyframe_spec(),
    {
        matches!(self, SapType::Type1 | SapType::Type2)
    }

    /// Convert to the MSF catalog integer representation.
    pub fn to_msf_value(self) -> (v: Option<u32>)
        ensures
            v == msf_value(self),
    {
        match self {
            SapType::NoSap => Option::None,
            SapType::Type1 => Some(1),
            SapType::Type2 => Some(2),
            SapType::Type3 => Some(3),
        }
    }

    /// The place of a type in their order.
    fn place(&self) -> (n: u8)
        ensures
            n == self.rank(),
    {
        match self {
            SapType::NoSap => 0,
            SapType::Type1 => 1,
            SapType::Type2 => 2,
            SapType::Type3 => 3,
        }
    }

    /// The higher of two types.
    pub fn higher(self, other: SapType) -> (sap: SapType)
        ensures
            sap == self.higher_spec(other),
    {
        if self.place() < other.place() {
            other
        } else {
            self
        }
    }
}

/// The number of a type in the MSF catalog; none for no access point.
pub open spec fn msf_value(sap: SapType) -> Option<u32> {
    match sap {
        SapType::NoSap => Option::None,
        _ => Some(sap.rank() as u32),
    }
}

/// A CMSF Object — the moof+mdat payload written to a group.
#[derive(Debug)]
pub struct CmsfObject {
    /// Raw moof+mdat bytes, passed through unchanged to the group.
    pub data: Vec<u8>,
    /// Optional group assignment. Monotonically increasing when present.
    ///
    /// - `Some(id)`: a new group starts when this value changes. The caller asserts canonical
    ///   group boundaries, for all kinds of tracks. Once a track receives `Some(_)`, it is in
    ///   explicit mode. A value less than the previous `Some` is an error, and so is one that
    ///   changes where no group can start.
    ///
    /// - `None`: as long as the track has never received `Some(_)`, groups are assigned from the
    ///   keyframes. In explicit mode, the current group goes on.
    pub group_id: Option<u64>,
}

/// Lightweight handle returned when a track is added.
#[derive(Debug, Clone, Copy, PartialEq, Eq, Hash, Structural)]
pub struct TrackId(pub usize);

/// Configuration for the CMSF broadcast producer.
#[derive(Debug, Clone, Copy, PartialEq, Eq, Structural)]
pub struct CmsfConfig {
    pub publish_hang: bool,
}

impl Default for CmsfConfig {
    fn default() -> (config: Self)
        ensures
            !config.publish_hang,
    {
        CmsfConfig { publish_hang: false }
    }
}

/// Video track input.
#[derive(Debug)]
pub struct CmsfVideoTrack {
    pub codec: VideoCodec,
    pub description: Option<Vec<u8>>,
    pub width: Option<u32>,
    pub height: Option<u32>,
    pub bitrate: Option<u64>,
    pub framerate: Option<Framerate>,
    pub init_segment: Vec<u8>,
    pub alt_group: Option<u32>,
    pub timescale: u64,
}

/// Audio track input.
#[derive(Debug)]
pub struct CmsfAudioTrack {
    pub codec: AudioCodec,
    pub description: Option<Vec<u8>>,
    pub sample_rate: u32,
    pub channel_count: u32,
    pub bitrate: Option<u64>,
    pub init_segment: Vec<u8>,
    pub alt_group: Option<u32>,
    pub timescale: u64,
}

/// Stored track config for building catalogs.
#[derive(Debug)]
pub enum CmsfTrackConfig<S = String, B = Vec<u8>> {
    Video {
        codec: VideoCodec<S>,
        description: Option<B>,
        width: Option<u32>,
        height: Option<u32>,
        bitrate: Option<u64>,
        framerate: Option<Framerate>,
        init_data: S,
    },
    Audio {
        codec: AudioCodec<S>,
        description: Option<B>,
        sample_rate: u32,
        channel_count: u32,
        bitrate: Option<u64>,
        init_data: S,
    },
}

impl View for CmsfTrackConfig<String, Vec<u8>> {
    type V = CmsfTrackConfig<Seq<char>, Seq<u8>>;

    open spec fn view(&self) -> CmsfTrackConfig<Seq<char>, Seq<u8>> {
        match self {
            CmsfTrackConfig::Video {
                codec,
                description,
                width,
                height,
                bitrate,
                framerate,
                init_data,
            } => CmsfTrackConfig::Video {
                codec: codec@,
                description: bytes(*description),
                width: *width,
                height: *height,
                bitrate: *bitrate,
                framerate: *framerate,
                init_data: init_data@,
            },
            CmsfTrackConfig::Audio {
                codec,
                description,
                sample_rate,
                channel_count,
                bitrate,
                init_data,
            } => CmsfTrackConfig::Audio {
                codec: codec@,
                description: bytes(*description),
                sample_rate: *sample_rate,
                channel_count: *channel_count,
                bitrate: *bitrate,
                init_data: init_data@,
            },
        }
    }
}

/// Why media could not be published.
#[derive(Debug)]
pub enum MuxError {
    /// A fragment came without a group to write it to.
    NoOpenGroup,
    /// A group starts where none may.
    InvalidGroupStart(SapType),
    /// No track has this identifier.
    InvalidTrack,
    /// An explicit group comes before the one that was there last.
    NonMonotonic { id: u64, last: u64 },
    /// The first fragment of a track is no keyframe.
    FirstNotKeyframe,
    /// The fragment cannot be read.
    Cmsf(CmsfError),
    /// The transport refused a request.
    Refused,
}

/// What such an error says.
pub enum MuxErrorView {
    NoOpenGroup,
    InvalidGroupStart(SapType),
    InvalidTrack,
    NonMonotonic { id: u64, last: u64 },
    FirstNotKeyframe,
    Cmsf(CmsfErrorView),
    Refused,
}

impl View for MuxError {
    type V = MuxErrorView;

    open spec fn view(&self) -> MuxErrorView {
        match self {
            MuxError::NoOpenGroup => MuxErrorView::NoOpenGroup,
            MuxError::InvalidGroupStart(sap) => MuxErrorView::InvalidGroupStart(*sap),
            MuxError::InvalidTrack => MuxErrorView::InvalidTrack,
            MuxError::NonMonotonic { id, last } => MuxErrorView::NonMonotonic {
                id: *id,
                last: *last,
            },
            MuxError::FirstNotKeyframe => MuxErrorView::FirstNotKeyframe,
            MuxError::Cmsf(e) => MuxErrorView::Cmsf(e@),
            MuxError::Refused => MuxErrorView::Refused,
        }
    }
}

/// The result of a step, as a contract speaks of it.
pub open spec fn outcome<T>(res: Result<T, MuxError>) -> Result<T, MuxErrorView> {
    match res {
        Ok(v) => Ok(v),
        Err(e) => Err(e@),
    }
}

/// The state of a track.
pub struct TrackState {
    /// The number of the track.
    pub track: usize,
    pub kind: TrackKind,
    /// Whether a group is open.
    pub open: bool,
    pub alt_group: Option<u32>,
    pub media_group_id: Option<u64>,
    pub max_grp_sap: SapType,
    pub max_obj_sap: SapType,
    pub jitter: Option<u64>,
    /// Whether the caller assigns the groups.
    pub explicit_groups: bool,
    pub last_explicit_group_id: Option<u64>,
    pub timescale: u64,
    pub last_timestamp: Option<u64>,
    pub sap_dirty: bool,
    /// The access point that a keyframe of this track is.
    pub keyframe_sap: SapType,
}

/// Per-track producer managing group lifecycle, SAP tracking, and jitter.
#[derive(Debug, Clone)]
pub struct CmsfTrackProducer {
    pub kind: TrackKind,
    /// The number of the track, by which the transport knows it.
    pub track: usize,
    pub name: String,
    /// Whether a group is open.
    pub group: Option<()>,
    pub alt_group: Option<u32>,
    pub media_group_id: Option<u64>,
    pub max_grp_sap: SapType,
    pub max_obj_sap: SapType,
    pub jitter: Option<u64>,
    pub config: CmsfTrackConfig,
    /// Whether this track uses explicit group IDs from the caller.
    pub explicit_groups: bool,
    /// Last explicit group_id received, for monotonicity checking.
    pub last_explicit_group_id: Option<u64>,
    pub timescale: u64,
    pub last_timestamp: Option<u64>,
    pub sap_dirty: bool,
}

/// The access point that a keyframe is: type 1 for audio, H.264 and VP8, whose keyframes start
/// anew, and else type 2, since it may be an open group of pictures.
pub open spec fn keyframe_sap(kind: TrackKind, config: CmsfTrackConfig) -> SapType {
    match kind {
        TrackKind::Audio => SapType::Type1,
        TrackKind::Video => match config {
            CmsfTrackConfig::Video { codec: VideoCodec::H264(_), .. } => SapType::Type1,
            CmsfTrackConfig::Video { codec: VideoCodec::VP8, .. } => SapType::Type1,
            _ => SapType::Type2,
        },
    }
}

impl TrackState {
    /// A group is started with a sequence number, or with the next one. The group that was open
    /// is finished first. If the transport refuses either, no group is open.
    pub open spec fn start_group(self, out: OutboxView, id: Option<u64>) -> (
        TrackState,
        OutboxView,
        Result<(), MuxErrorView>,
    ) {
        let closed = TrackState { open: false, ..self };
        let finish = ActionView::FinishGroup { track: self.track };
        let start = match id {
            Some(sequence) => ActionView::CreateGroup { track: self.track, sequence },
            None => ActionView::AppendGroup { track: self.track },
        };
        if self.open && out.refuses() {
            (closed, out.with(finish), Err(MuxErrorView::Refused))
        } else {
            let mid = if self.open {
                out.with(finish)
            } else {
                out
            };
            if mid.refuses() {
                (closed, mid.with(start), Err(MuxErrorView::Refused))
            } else {
                (TrackState { open: true, media_group_id: id, ..self }, mid.with(start), Ok(()))
            }
        }
    }

    /// A fragment is written to the open group.
    pub open spec fn write_fragment(self, out: OutboxView, data: Seq<u8>) -> (
        OutboxView,
        Result<(), MuxErrorView>,
    ) {
        if !self.open {
            (out, Err(MuxErrorView::NoOpenGroup))
        } else {
            (
                out.with(ActionView::WriteFrame { track: self.track, data }),
                if out.refuses() {
                    Err(MuxErrorView::Refused)
                } else {
                    Ok(())
                },
            )
        }
    }

    /// A group starts at an access point, which must be one at which a group may start.
    pub open spec fn validate_group_sap(self, sap: SapType) -> (
        TrackState,
        Result<(), MuxErrorView>,
    ) {
        if !sap.is_keyframe_spec() {
            (self, Err(MuxErrorView::InvalidGroupStart(sap)))
        } else {
            (
                TrackState {
                    max_grp_sap: self.max_grp_sap.higher_spec(sap),
                    sap_dirty: self.sap_dirty || self.max_grp_sap.rank() < sap.rank(),
                    ..self
                },
                Ok(()),
            )
        }
    }

    /// An object is an access point.
    pub open spec fn track_object_sap(self, sap: SapType) -> TrackState {
        TrackState {
            max_obj_sap: self.max_obj_sap.higher_spec(sap),
            sap_dirty: self.sap_dirty || self.max_obj_sap.rank() < sap.rank(),
            ..self
        }
    }

    /// Whether a time is later than the last one by less than the jitter.
    pub open spec fn lowers_jitter(self, pts: u64) -> bool {
        match self.last_timestamp {
            Some(last) => last < pts && match self.jitter {
                Some(j) => pts - last < j,
                None => pts - last < u64::MAX,
            },
            None => false,
        }
    }

    /// A time is seen: the last time only ever advances, and the jitter is the least distance
    /// from one to the next.
    pub open spec fn update_jitter(self, pts: u64) -> TrackState {
        let later = match self.last_timestamp {
            Some(last) => last < pts,
            None => true,
        };
        TrackState {
            jitter: if self.lowers_jitter(pts) {
                Some((pts - self.last_timestamp->Some_0) as u64)
            } else {
                self.jitter
            },
            last_timestamp: if later {
                Some(pts)
            } else {
                self.last_timestamp
            },
            ..self
        }
    }

    /// The jitter in milliseconds, if there is any, time is counted, and it fits 62 bits.
    pub open spec fn jitter_ms(self) -> Option<u64> {
        match self.jitter {
            Some(j) => if self.timescale == 0 {
                None
            } else {
                let ms = (j as nat * 1000 / self.timescale as nat) % 0x1_0000_0000_0000_0000;
                if ms < 0x4000_0000_0000_0000 {
                    Some(ms as u64)
                } else {
                    None
                }
            },
            None => None,
        }
    }

    /// The track is finished, with the group that is open.
    pub open spec fn finish(self, out: OutboxView) -> (
        TrackState,
        OutboxView,
        Result<(), MuxErrorView>,
    ) {
        let closed = TrackState { open: false, ..self };
        let group = ActionView::FinishGroup { track: self.track };
        let track = ActionView::FinishTrack { track: self.track };
        if self.open && out.refuses() {
            (closed, out.with(group), Err(MuxErrorView::Refused))
        } else {
            let mid = if self.open {
                out.with(group)
            } else {
                out
            };
            (
                closed,
                mid.with(track),
                if mid.refuses() {
                    Err(MuxErrorView::Refused)
                } else {
                    Ok(())
                },
            )
        }
    }
}

impl CmsfTrackProducer {
    /// The state of the track.
    pub open spec fn state(self) -> TrackState {
        TrackState {
            track: self.track,
            kind: self.kind,
            open: self.group is Some,
            alt_group: self.alt_group,
            media_group_id: self.media_group_id,
            max_grp_sap: self.max_grp_sap,
            max_obj_sap: self.max_obj_sap,
            jitter: self.jitter,
            explicit_groups: self.explicit_groups,
            last_explicit_group_id: self.last_explicit_group_id,
            timescale: self.timescale,
            last_timestamp: self.last_timestamp,
            sap_dirty: self.sap_dirty,
            keyframe_sap: keyframe_sap(self.kind, self.config),
        }
    }

    /// Whether what never changes is the same.
    pub open spec fn same_track(self, other: CmsfTrackProducer) -> bool {
        self.name == other.name && self.config == other.config
    }

    /// A track on which nothing was published.
    pub fn new(
        kind: TrackKind,
        track: usize,
        name: String,
        alt_group: Option<u32>,
        config: CmsfTrackConfig,
        timescale: u64,
    ) -> (t: Self)
        ensures
            t.name == name,
            t.config == config,
            t.state() == (TrackState {
                track,
                kind,
                open: false,
                alt_group,
                media_group_id: None,
                max_grp_sap: SapType::NoSap,
                max_obj_sap: SapType::NoSap,
                jitter: None,
                explicit_groups: false,
                last_explicit_group_id: None,
                timescale,
                last_timestamp: None,
                sap_dirty: false,
                keyframe_sap: keyframe_sap(kind, config),
            }),
    {
        CmsfTrackProducer {
            kind,
            track,
            name,
            group: None,
            alt_group,
            media_group_id: None,
            max_grp_sap: SapType::NoSap,
            max_obj_sap: SapType::NoSap,
            jitter: None,
            config,
            explicit_groups: false,
            last_explicit_group_id: None,
            timescale,
            last_timestamp: None,
            sap_dirty: false,
        }
    }

    /// Starts a group, and finishes the one that was open.
    pub fn start_group(&mut self, media_group_id: Option<u64>, out: &mut Outbox) -> (res: Result<
        (),
        MuxError,
    >)
        ensures
            final(self).same_track(*old(self)),
            (final(self).state(), final(out)@, outcome(res)) == old(self).state().start_group(
                old(out)@,
                media_group_id,
            ),
    {
        if self.group.is_some() {
            self.group = None;
            if !out.request(Action::FinishGroup { track: self.track }) {
                return Err(MuxError::Refused);
            }
        }
        let ok = match media_group_id {
            Some(sequence) => out.request(Action::CreateGroup { track: self.track, sequence }),
            None => out.request(Action::AppendGroup { track: self.track }),
        };
        if !ok {
            return Err(MuxError::Refused);
        }
        self.group = Some(());
        self.media_group_id = media_group_id;
        Ok(())
    }

    /// Writes a fragment to the open group.
    pub fn write_fragment(&mut self, data: Vec<u8>, out: &mut Outbox) -> (res: Result<
        (),
        MuxError,
    >)
        ensures
            *final(self) == *old(self),
            (final(out)@, outcome(res)) == old(self).state().write_fragment(old(out)@, data@),
    {
        if self.group.is_none() {
            return Err(MuxError::NoOpenGroup);
        }
        if !out.request(Action::WriteFrame { track: self.track, data }) {
            return Err(MuxError::Refused);
        }
        Ok(())
    }

    /// Notes the access point at which a group starts.
    pub fn validate_group_sap(&mut self, sap_type: SapType) -> (res: Result<(), MuxError>)
        ensures
            final(self).same_track(*old(self)),
            (final(self).state(), outcome(res)) == old(self).state().validate_group_sap(sap_type),
    {
        if !sap_type.is_valid_group_start() {
            return Err(MuxError::InvalidGroupStart(sap_type));
        }
        let prev = self.max_grp_sap;
        self.max_grp_sap = self.max_grp_sap.higher(sap_type);
        if self.max_grp_sap != prev {
            self.sap_dirty = true;
        }
        Ok(())
    }

    /// Notes the access point that an object is.
    pub fn track_object_sap(&mut self, sap_type: SapType)
        ensures
            final(self).same_track(*old(self)),
            final(self).state() == old(self).state().track_object_sap(sap_type),
    {
        let prev = self.max_obj_sap;
        self.max_obj_sap = self.max_obj_sap.higher(sap_type);
        if self.max_obj_sap != prev {
            self.sap_dirty = true;
        }
    }

    /// Update jitter tracking from a new PTS value: whether it changed.
    ///
    /// Jitter is the minimum inter-sample PTS delta observed. This represents the
    /// smallest GOP/frame duration, which is what subscribers need to size their
    /// decode buffers. Published in the catalog as milliseconds.
    pub fn update_jitter(&mut self, pts: u64, _duration: Option<u64>) -> (changed: bool)
        ensures
            final(self).same_track(*old(self)),
            final(self).state() == old(self).state().update_jitter(pts),
            changed == old(self).state().lowers_jitter(pts),
    {
        match self.last_timestamp {
            Some(last) => {
                if pts > last {
                    let d: u64 = pts - last;
                    self.last_timestamp = Some(pts);
                    if d < self.jitter.unwrap_or(u64::MAX) {
                        self.jitter = Some(d);
                        return true;
                    }
                }
                false
            },
            None => {
                self.last_timestamp = Some(pts);
                false
            },
        }
    }

    /// Convert jitter from native ticks to milliseconds for catalog publishing.
    pub fn jitter_as_time(&self) -> (ms: Option<u64>)
        ensures
            ms == self.state().jitter_ms(),
    {
        let j: u64 = match self.jitter {
            Some(j) => j,
            None => {
                return None;
            },
        };
        if self.timescale == 0 {
            return None;
        }
        let ms: u128 = j as u128 * 1000 / self.timescale as u128;
        let ms: u64 = (ms % 0x1_0000_0000_0000_0000) as u64;
        if ms < 0x4000_0000_0000_0000 {
            Some(ms)
        } else {
            None
        }
    }

    /// Derive the SAP type for a keyframe based on the track's codec.
    ///
    /// - Audio: Type1 (always independently decodable)
    /// - Video H264/VP8: Type1 (IDR only, no open-GOP)
    /// - Video H265/AV1/VP9/Unknown: Type2 (may be CRA/open-GOP, conservative)
    pub fn sap_type_for_keyframe(&self) -> (sap: SapType)
        ensures
            sap == self.state().keyframe_sap,
            sap == keyframe_sap(self.kind, self.config),
    {
        match self.kind {
            TrackKind::Audio => SapType::Type1,
            TrackKind::Video => match &self.config {
                CmsfTrackConfig::Video { codec, .. } => match codec {
                    VideoCodec::H264(_) | VideoCodec::VP8 => SapType::Type1,
                    _ => SapType::Type2,
                },
                _ => SapType::Type2,
            },
        }
    }

    /// Finishes the track, with the group that is open.
    pub fn finish(&mut self, out: &mut Outbox) -> (res: Result<(), MuxError>)
        ensures
            final(self).same_track(*old(self)),
            (final(self).state(), final(out)@, outcome(res)) == old(self).state().finish(
                old(out)@,
            ),
    {
        if self.group.is_some() {
            self.group = None;
            if !out.request(Action::FinishGroup { track: self.track }) {
                return Err(MuxError::Refused);
            }
        }
        if !out.request(Action::FinishTrack { track: self.track }) {
            return Err(MuxError::Refused);
        }
        Ok(())
    }

    /// Whether the access points changed since this was asked last.
    pub fn sap_changed(&mut self) -> (changed: bool)
        ensures
            final(self).same_track(*old(self)),
            changed == old(self).state().sap_dirty,
            final(self).state() == (TrackState { sap_dirty: false, ..old(self).state() }),
    {
        let changed = self.sap_dirty;
        self.sap_dirty = false;
        changed
    }

    /// Puts the track in explicit mode.
    pub fn set_explicit(&mut self)
        ensures
            final(self).same_track(*old(self)),
            final(self).state() == (TrackState { explicit_groups: true, ..old(self).state() }),
    {
        self.explicit_groups = true;
    }

    /// Notes the explicit group that is current.
    pub fn set_last_explicit(&mut self, id: u64)
        ensures
            final(self).same_track(*old(self)),
            final(self).state() == (TrackState {
                last_explicit_group_id: Some(id),
                ..old(self).state()
            }),
    {
        self.last_explicit_group_id = Some(id);
    }
}

/// The access points of a track only ever rise, whatever is written.
pub proof fn law_sap_rises(t: TrackState, sap: SapType)
    ensures
        t.max_grp_sap.rank() <= t.validate_group_sap(sap).0.max_grp_sap.rank(),
        t.max_obj_sap.rank() <= t.track_object_sap(sap).max_obj_sap.rank(),
        sap.is_keyframe_spec() ==> sap.rank() <= t.validate_group_sap(sap).0.max_grp_sap.rank(),
        sap.rank() <= t.track_object_sap(sap).max_obj_sap.rank(),
{
}

/// The times that a track has seen, and which of them advanced it.
pub open spec fn see_all(t: TrackState, pts: Seq<u64>) -> TrackState
    decreases pts.len(),
{
    if pts.len() == 0 {
        t
    } else {
        see_all(t, pts.drop_last()).update_jitter(pts.last())
    }
}

/// The jitter never rises, and the last time never goes back.
pub proof fn law_jitter_falls(t: TrackState, pts: u64)
    ensures
        t.jitter matches Some(j) ==> (t.update_jitter(pts).jitter matches Some(k) && k <= j),
        t.update_jitter(pts).jitter matches Some(k) ==> k > 0 || t.jitter == Some(0u64),
        t.last_timestamp matches Some(l) ==> (t.update_jitter(pts).last_timestamp matches Some(m)
            && l <= m && pts <= m),
{
}

/// Frames at equal distances have that distance as their jitter, without any error that adds up:
/// after `n` frames, each `step` ticks after the one before it, the jitter is exactly `step`.
pub proof fn law_jitter_of_equal_steps(t: TrackState, pts: Seq<u64>, step: u64)
    requires
        t.jitter is None,
        t.last_timestamp is None,
        0 < step < u64::MAX,
        pts.len() >= 2,
        forall|i: int| 0 <= i < pts.len() ==> #[trigger] pts[i] == i * step,
    ensures
        see_all(t, pts).jitter == Some(step),
        see_all(t, pts).last_timestamp == Some(pts.last()),
    decreases pts.len(),
{
    let before = pts.drop_last();
    assert forall|i: int| 0 <= i < before.len() implies #[trigger] before[i] == i * step by {
        assert(pts[i] == i * step);
    }
    let n = pts.len() as int;
    assert(pts[n - 1] == (n - 1) * step && pts[n - 2] == (n - 2) * step);
    assert((n - 1) * step - (n - 2) * step == step) by (nonlinear_arith);
    if pts.len() == 2 {
        assert(before.drop_last() =~= Seq::<u64>::empty());
        assert(see_all(t, before.drop_last()) == t);
        assert(before.last() == pts[0]);
    } else {
        law_jitter_of_equal_steps(t, before, step);
        assert(before.last() == pts[n - 2]);
    }
}

/// What an error says.
pub open spec fn message_of(e: MuxErrorView) -> Seq<char> {
    match e {
        MuxErrorView::NoOpenGroup => "no open group"@,
        MuxErrorView::InvalidGroupStart(SapType::NoSap) =>
            "group starts with None, §3.4 requires type 1 or 2"@,
        MuxErrorView::InvalidGroupStart(SapType::Type1) =>
            "group starts with Type1, §3.4 requires type 1 or 2"@,
        MuxErrorView::InvalidGroupStart(SapType::Type2) =>
            "group starts with Type2, §3.4 requires type 1 or 2"@,
        MuxErrorView::InvalidGroupStart(SapType::Type3) =>
            "group starts with Type3, §3.4 requires type 1 or 2"@,
        MuxErrorView::InvalidTrack => "invalid track ID"@,
        MuxErrorView::NonMonotonic { id, last } => "non-monotonic group_id: "@ + decimal(id as nat)
            + " < "@ + decimal(last as nat),
        MuxErrorView::FirstNotKeyframe => "first chunk for track must be a keyframe"@,
        MuxErrorView::Cmsf(e) => cmsf_message(e),
        MuxErrorView::Refused => "transport refused"@,
    }
}

impl MuxError {
    /// What the error says.
    pub fn message(&self) -> (s: String)
        ensures
            s@ == message_of(self@),
    {
        match self {
            MuxError::NoOpenGroup => "no open group".to_owned(),
            MuxError::InvalidGroupStart(SapType::NoSap) =>
                "group starts with None, §3.4 requires type 1 or 2".to_owned(),
            MuxError::InvalidGroupStart(SapType::Type1) =>
                "group starts with Type1, §3.4 requires type 1 or 2".to_owned(),
            MuxError::InvalidGroupStart(SapType::Type2) =>
                "group starts with Type2, §3.4 requires type 1 or 2".to_owned(),
            MuxError::InvalidGroupStart(SapType::Type3) =>
                "group starts with Type3, §3.4 requires type 1 or 2".to_owned(),
            MuxError::InvalidTrack => "invalid track ID".to_owned(),
            MuxError::NonMonotonic { id, last } => {
                let mut s = "non-monotonic group_id: ".to_owned();
                append_decimal(&mut s, *id);
                s.append(" < ");
                append_decimal(&mut s, *last);
                s
            },
            MuxError::FirstNotKeyframe => "first chunk for track must be a keyframe".to_owned(),
            MuxError::Cmsf(e) => e.message(),
            MuxError::Refused => "transport refused".to_owned(),
        }
    }
}

impl Clone for CmsfTrackConfig<String, Vec<u8>> {
    fn clone(&self) -> (copy: Self)
        ensures
            copy@ == self@,
    {
        match self {
            CmsfTrackConfig::Video {
                codec,
                description,
                width,
                height,
                bitrate,
                framerate,
                init_data,
            } => CmsfTrackConfig::Video {
                codec: codec.clone(),
                description: clone_bytes(description),
                width: *width,
                height: *height,
                bitrate: *bitrate,
                framerate: *framerate,
                init_data: init_data.clone(),
            },
            CmsfTrackConfig::Audio {
                codec,
                description,
                sample_rate,
                channel_count,
                bitrate,
                init_data,
            } => CmsfTrackConfig::Audio {
                codec: codec.clone(),
                description: clone_bytes(description),
                sample_rate: *sample_rate,
                channel_count: *channel_count,
                bitrate: *bitrate,
                init_data: init_data.clone(),
            },
        }
    }
}

} // verus!
