//! Publishing several renditions as one CMSF broadcast.

use crate::mux::base64;
use crate::mux::base64::{base64_bytes, base64_text};
use crate::mux::catalog::{
    bytes, clone_bytes, AudioConfig, Codec, Container, HangCatalog, HangCatalogView, MsfCatalog,
    MsfCatalogView, MsfTrack, Packaging, Rendition, Role, VideoConfig,
};
use crate::mux::cmsf::{metadata, parse_cmsf_metadata, CmsfMetadata};
use crate::mux::outbox::{Action, ActionView, Outbox, OutboxView};
use crate::mux::types::{
    keyframe_sap, msf_value, outcome, CmsfAudioTrack, CmsfConfig, CmsfObject, CmsfTrackConfig,
    CmsfTrackProducer, CmsfVideoTrack, MuxError, MuxErrorView, SapType, TrackId, TrackKind,
    TrackState,
};
use crate::text::{append_decimal, decimal};
use vstd::prelude::*;

verus! {

/// What a track of the broadcast is.
pub struct TrackView {
    pub state: TrackState,
    pub name: Seq<char>,
    pub config: CmsfTrackConfig<Seq<char>, Seq<u8>>,
}

impl View for CmsfTrackProducer {
    type V = TrackView;

    open spec fn view(&self) -> TrackView {
        TrackView { state: self.state(), name: self.name@, config: self.config@ }
    }
}

/// An object of audio that waits for the first keyframe of the video.
#[derive(Debug, Clone)]
pub struct Buffered {
    pub track: TrackId,
    pub data: Vec<u8>,
    pub meta: CmsfMetadata,
}

/// What such an object is.
pub struct BufferedView {
    pub track: TrackId,
    pub data: Seq<u8>,
    pub meta: CmsfMetadata,
}

impl View for Buffered {
    type V = BufferedView;

    open spec fn view(&self) -> BufferedView {
        BufferedView { track: self.track, data: self.data@, meta: self.meta }
    }
}

/// Coordinates multi-rendition CMSF-compliant broadcast publishing.
///
/// ## Group Lifecycle
///
/// Video keyframes drive group boundaries. Each video keyframe starts a new group. Non-switching
/// audio (no `alt_group`) is aligned to video: a new audio group starts on each video keyframe.
/// Switching audio (with `alt_group`) manages its own groups independently.
///
/// ## Audio Pre-Roll Buffering
///
/// Audio arriving before the first video keyframe is buffered and flushed once the first video
/// keyframe arrives. This ensures subscribers joining at a group boundary get both the video
/// keyframe and corresponding audio.
///
/// ## Explicit Group Mode
///
/// When `CmsfObject::group_id` is `Some(id)`, the track enters "explicit mode": the caller controls
/// group boundaries. Explicit-mode audio bypasses the pre-roll buffer and is not auto-rotated on
/// video keyframes.
///
/// ## SAP Type Derivation
///
/// SAP type is derived from the track's codec configuration rather than stream analysis. H264/VP8
/// keyframes are Type 1 (IDR), H265/AV1/VP9 are Type 2 (conservative, may be CRA).
#[derive(Debug, Clone)]
pub struct CmsfBroadcastProducer {
    /// The number of the track of the MSF catalog.
    pub msf_track: usize,
    /// The number of the track of the hang catalog, if it is published.
    pub hang_track: Option<usize>,
    pub tracks: Vec<CmsfTrackProducer>,
    pub video_count: usize,
    pub audio_count: usize,
    pub audio_buffer: Vec<Buffered>,
    pub first_video_group: bool,
    pub has_video_track: bool,
    pub catalog_failed: bool,
}

/// What the broadcast is.
pub struct BroadcastView {
    pub msf_track: usize,
    pub hang_track: Option<usize>,
    pub tracks: Seq<TrackView>,
    pub video_count: usize,
    pub audio_count: usize,
    pub audio_buffer: Seq<BufferedView>,
    pub first_video_group: bool,
    pub has_video_track: bool,
    pub catalog_failed: bool,
}

impl View for CmsfBroadcastProducer {
    type V = BroadcastView;

    open spec fn view(&self) -> BroadcastView {
        BroadcastView {
            msf_track: self.msf_track,
            hang_track: self.hang_track,
            tracks: self.tracks@.map_values(|t: CmsfTrackProducer| t@),
            video_count: self.video_count,
            audio_count: self.audio_count,
            audio_buffer: self.audio_buffer@.map_values(|b: Buffered| b@),
            first_video_group: self.first_video_group,
            has_video_track: self.has_video_track,
            catalog_failed: self.catalog_failed,
        }
    }
}

impl TrackState {
    /// The access point that an object of this track is.
    pub open spec fn sap_of(self, meta: CmsfMetadata) -> SapType {
        if meta.is_keyframe {
            self.keyframe_sap
        } else {
            SapType::NoSap
        }
    }

    /// Audio whose groups follow those of the video.
    pub open spec fn non_switching(self) -> bool {
        self.kind == TrackKind::Audio && self.alt_group is None
    }

    /// An object is noted and written to the open group; its time counts once it was written.
    pub open spec fn put(self, out: OutboxView, meta: CmsfMetadata, data: Seq<u8>) -> (
        TrackState,
        OutboxView,
        Result<(), MuxErrorView>,
    ) {
        let noted = self.track_object_sap(self.sap_of(meta));
        let (out, res) = noted.write_fragment(out, data);
        (
            if res is Ok {
                noted.update_jitter(meta.pts)
            } else {
                noted
            },
            out,
            res,
        )
    }

    /// A group starts at an object: it must be one at which a group may start.
    pub open spec fn begin(self, out: OutboxView, sap: SapType, id: Option<u64>) -> (
        TrackState,
        OutboxView,
        Result<(), MuxErrorView>,
    ) {
        let (valid, res) = self.validate_group_sap(sap);
        if res is Err {
            (valid, out, res)
        } else {
            valid.start_group(out, id)
        }
    }

    /// Audio that follows the video: its first object opens a group, the others go to the open one.
    pub open spec fn write_following(self, out: OutboxView, meta: CmsfMetadata, data: Seq<u8>) -> (
        TrackState,
        OutboxView,
        Result<(), MuxErrorView>,
    ) {
        if self.open {
            self.put(out, meta, data)
        } else {
            let (begun, out, res) = self.begin(out, self.sap_of(meta), None);
            if res is Err {
                (begun, out, res)
            } else {
                begun.put(out, meta, data)
            }
        }
    }

    /// Audio that follows the video, in groups that the caller assigns: a group starts where the
    /// assignment changes, and none may come before the last.
    pub open spec fn write_explicit(
        self,
        out: OutboxView,
        meta: CmsfMetadata,
        data: Seq<u8>,
        id: u64,
    ) -> (TrackState, OutboxView, Result<(), MuxErrorView>) {
        let explicit = TrackState { explicit_groups: true, ..self };
        if self.last_explicit_group_id matches Some(last) && id < last {
            (
                explicit,
                out,
                Err(
                    MuxErrorView::NonMonotonic { id, last: self.last_explicit_group_id->Some_0 },
                ),
            )
        } else if self.open && self.last_explicit_group_id == Some(id) {
            explicit.put(out, meta, data)
        } else {
            let (begun, out, res) = explicit.begin(out, self.sap_of(meta), Some(id));
            if res is Err {
                (begun, out, res)
            } else {
                TrackState { last_explicit_group_id: Some(id), ..begun }.put(out, meta, data)
            }
        }
    }

    /// The group that an object of a leading track belongs to. A keyframe starts the next group,
    /// unless the groups are assigned: then the open one goes on. Where the caller assigns one, it
    /// starts where the assignment changes, which must be where a group can start, and may not
    /// come before the last.
    pub open spec fn lead(self, out: OutboxView, sap: SapType, group_id: Option<u64>) -> (
        TrackState,
        OutboxView,
        Result<(), MuxErrorView>,
    ) {
        let (valid, res) = if sap.is_keyframe_spec() {
            self.validate_group_sap(sap)
        } else {
            (self, Ok(()))
        };
        if res is Err {
            (valid, out, res)
        } else {
            match group_id {
                None => if !sap.is_keyframe_spec() || (self.explicit_groups && self.open) {
                    (valid, out, Ok(()))
                } else {
                    valid.start_group(out, None)
                },
                Some(id) => valid.assign(out, sap, id),
            }
        }
    }

    /// The group that the caller assigns to an object of a leading track.
    pub open spec fn assign(self, out: OutboxView, sap: SapType, id: u64) -> (
        TrackState,
        OutboxView,
        Result<(), MuxErrorView>,
    ) {
        let explicit = TrackState { explicit_groups: true, ..self };
        if self.last_explicit_group_id matches Some(last) && id < last {
            (
                explicit,
                out,
                Err(
                    MuxErrorView::NonMonotonic { id, last: self.last_explicit_group_id->Some_0 },
                ),
            )
        } else if self.last_explicit_group_id == Some(id) {
            (explicit, out, Ok(()))
        } else {
            let (begun, out, res) = explicit.begin(out, sap, Some(id));
            if res is Err {
                (begun, out, res)
            } else {
                (TrackState { last_explicit_group_id: Some(id), ..begun }, out, Ok(()))
            }
        }
    }

    /// Video, or audio that is switched: the first object must be a keyframe.
    pub open spec fn write_leading(
        self,
        out: OutboxView,
        meta: CmsfMetadata,
        data: Seq<u8>,
        group_id: Option<u64>,
    ) -> (TrackState, OutboxView, Result<(), MuxErrorView>) {
        let sap = self.sap_of(meta);
        if !self.open && !sap.is_keyframe_spec() {
            (self, out, Err(MuxErrorView::FirstNotKeyframe))
        } else {
            let (led, out, res) = self.lead(out, sap, group_id);
            if res is Err {
                (led, out, res)
            } else {
                led.put(out, meta, data)
            }
        }
    }
}

impl CmsfTrackProducer {
    /// The access point that an object of this track is.
    fn sap_of(&self, meta: &CmsfMetadata) -> (sap: SapType)
        ensures
            sap == self.state().sap_of(*meta),
    {
        if meta.is_keyframe {
            self.sap_type_for_keyframe()
        } else {
            SapType::NoSap
        }
    }

    /// Notes an object and writes it to the open group.
    fn put(&mut self, meta: &CmsfMetadata, data: Vec<u8>, out: &mut Outbox) -> (res: Result<
        (),
        MuxError,
    >)
        ensures
            final(self).same_track(*old(self)),
            (final(self).state(), final(out)@, outcome(res)) == old(self).state().put(
                old(out)@,
                *meta,
                data@,
            ),
    {
        let sap = self.sap_of(meta);
        self.track_object_sap(sap);
        self.write_fragment(data, out)?;
        let _ = self.update_jitter(meta.pts, Some(meta.duration));
        Ok(())
    }

    /// Starts a group at an object.
    fn begin(&mut self, sap: SapType, id: Option<u64>, out: &mut Outbox) -> (res: Result<
        (),
        MuxError,
    >)
        ensures
            final(self).same_track(*old(self)),
            (final(self).state(), final(out)@, outcome(res)) == old(self).state().begin(
                old(out)@,
                sap,
                id,
            ),
    {
        self.validate_group_sap(sap)?;
        self.start_group(id, out)
    }

    /// Writes audio that follows the video.
    pub fn write_following(&mut self, meta: &CmsfMetadata, data: Vec<u8>, out: &mut Outbox) -> (res:
        Result<(), MuxError>)
        ensures
            final(self).same_track(*old(self)),
            (final(self).state(), final(out)@, outcome(res)) == old(self).state().write_following(
                old(out)@,
                *meta,
                data@,
            ),
    {
        if self.group.is_none() {
            let sap = self.sap_of(meta);
            self.begin(sap, None, out)?;
        }
        self.put(meta, data, out)
    }

    /// Writes audio that follows the video, in groups that the caller assigns.
    pub fn write_explicit(
        &mut self,
        meta: &CmsfMetadata,
        data: Vec<u8>,
        id: u64,
        out: &mut Outbox,
    ) -> (res: Result<(), MuxError>)
        ensures
            final(self).same_track(*old(self)),
            (final(self).state(), final(out)@, outcome(res)) == old(self).state().write_explicit(
                old(out)@,
                *meta,
                data@,
                id,
            ),
    {
        let sap = self.sap_of(meta);
        self.set_explicit();
        if let Some(last) = self.last_explicit_group_id {
            if id < last {
                return Err(MuxError::NonMonotonic { id, last });
            }
        }
        let current = match self.last_explicit_group_id {
            Some(last) => last == id,
            None => false,
        };
        if self.group.is_none() || !current {
            self.begin(sap, Some(id), out)?;
        }
        self.set_last_explicit(id);
        self.put(meta, data, out)
    }

    /// Opens the group of an object, where it starts one.
    fn lead(&mut self, sap: SapType, group_id: Option<u64>, out: &mut Outbox) -> (res: Result<
        (),
        MuxError,
    >)
        ensures
            final(self).same_track(*old(self)),
            (final(self).state(), final(out)@, outcome(res)) == old(self).state().lead(
                old(out)@,
                sap,
                group_id,
            ),
    {
        let keyframe = sap.is_keyframe();
        if keyframe {
            self.validate_group_sap(sap)?;
        }
        match group_id {
            Some(id) => {
                self.set_explicit();
                if let Some(last) = self.last_explicit_group_id {
                    if id < last {
                        return Err(MuxError::NonMonotonic { id, last });
                    }
                }
                let current = match self.last_explicit_group_id {
                    Some(last) => last == id,
                    None => false,
                };
                if !current {
                    self.begin(sap, Some(id), out)?;
                }
                self.set_last_explicit(id);
                Ok(())
            },
            None => {
                if !keyframe || (self.explicit_groups && self.group.is_some()) {
                    return Ok(());
                }
                self.start_group(None, out)
            },
        }
    }

    /// Writes video, or audio that is switched.
    pub fn write_leading(
        &mut self,
        meta: &CmsfMetadata,
        data: Vec<u8>,
        group_id: Option<u64>,
        out: &mut Outbox,
    ) -> (res: Result<(), MuxError>)
        ensures
            final(self).same_track(*old(self)),
            (final(self).state(), final(out)@, outcome(res)) == old(self).state().write_leading(
                old(out)@,
                *meta,
                data@,
                group_id,
            ),
    {
        let sap = self.sap_of(meta);
        if self.group.is_none() && !sap.is_keyframe() {
            return Err(MuxError::FirstNotKeyframe);
        }
        self.lead(sap, group_id, out)?;
        self.put(meta, data, out)
    }
}

/// A track as the MSF catalog describes it.
pub open spec fn msf_track(t: TrackView) -> MsfTrack<Seq<char>> {
    match t.config {
        CmsfTrackConfig::Video {
            codec,
            description,
            width,
            height,
            bitrate,
            framerate,
            init_data,
        } => MsfTrack {
            name: t.name,
            packaging: Packaging::Cmaf,
            is_live: true,
            role: Some(Role::Video),
            codec: Some(Codec::Video(codec)),
            width,
            height,
            framerate,
            samplerate: None,
            channel_config: None,
            bitrate,
            init_data: Some(init_data),
            render_group: Some(1),
            alt_group: t.state.alt_group,
            max_grp_sap_starting_type: msf_value(t.state.max_grp_sap),
            max_obj_sap_starting_type: msf_value(t.state.max_obj_sap),
        },
        CmsfTrackConfig::Audio {
            codec,
            description,
            sample_rate,
            channel_count,
            bitrate,
            init_data,
        } => MsfTrack {
            name: t.name,
            packaging: Packaging::Cmaf,
            is_live: true,
            role: Some(Role::Audio),
            codec: Some(Codec::Audio(codec)),
            width: None,
            height: None,
            framerate: None,
            samplerate: Some(sample_rate),
            channel_config: Some(decimal(channel_count as nat)),
            bitrate,
            init_data: Some(init_data),
            render_group: Some(1),
            alt_group: t.state.alt_group,
            max_grp_sap_starting_type: msf_value(t.state.max_grp_sap),
            max_obj_sap_starting_type: msf_value(t.state.max_obj_sap),
        },
    }
}

/// The init segment behind its text; nothing if the text is none.
pub open spec fn init_of(text: Seq<char>) -> Seq<u8> {
    match base64_bytes(text) {
        Ok(b) => b,
        Err(_) => Seq::empty(),
    }
}

/// A track as the hang catalog describes it.
pub open spec fn rendition(t: TrackView) -> Rendition<Seq<char>, Seq<u8>> {
    match t.config {
        CmsfTrackConfig::Video {
            codec,
            description,
            width,
            height,
            bitrate,
            framerate,
            init_data,
        } => Rendition::Video(
            t.name,
            VideoConfig {
                codec,
                description,
                coded_width: width,
                coded_height: height,
                bitrate,
                framerate,
                container: Container::Cmaf { init: init_of(init_data) },
                jitter: t.state.jitter_ms(),
            },
        ),
        CmsfTrackConfig::Audio {
            codec,
            description,
            sample_rate,
            channel_count,
            bitrate,
            init_data,
        } => Rendition::Audio(
            t.name,
            AudioConfig {
                codec,
                description,
                sample_rate,
                channel_count,
                bitrate,
                container: Container::Cmaf { init: init_of(init_data) },
                jitter: t.state.jitter_ms(),
            },
        ),
    }
}

/// The name of a media track: its kind, its number among its kind, and the container.
pub open spec fn media_name(prefix: Seq<char>, n: nat) -> Seq<char> {
    prefix + decimal(n) + ".m4s"@
}

impl BroadcastView {
    /// A broadcast without media: its catalogs come first.
    pub open spec fn fresh(publish_hang: bool) -> BroadcastView {
        BroadcastView {
            msf_track: 0,
            hang_track: if publish_hang {
                Some(1usize)
            } else {
                None
            },
            tracks: Seq::empty(),
            video_count: 0,
            audio_count: 0,
            audio_buffer: Seq::empty(),
            first_video_group: false,
            has_video_track: false,
            catalog_failed: false,
        }
    }

    /// The MSF catalog of the tracks as they are.
    pub open spec fn msf_catalog(self, now: Option<u64>) -> MsfCatalogView {
        MsfCatalogView {
            version: 1,
            generated_at: now,
            tracks: self.tracks.map_values(|t: TrackView| msf_track(t)),
        }
    }

    /// The hang catalog of the tracks as they are.
    pub open spec fn hang_catalog(self) -> HangCatalogView {
        HangCatalogView { renditions: self.tracks.map_values(|t: TrackView| rendition(t)) }
    }

    /// The number of the next media track: the catalogs come first.
    pub open spec fn next_track(self) -> nat {
        self.tracks.len() + if self.hang_track is Some {
            2nat
        } else {
            1nat
        }
    }

    /// Another track can be numbered and named.
    pub open spec fn has_room(self) -> bool {
        &&& self.tracks.len() + 2 < usize::MAX
        &&& self.video_count < usize::MAX
        &&& self.audio_count < usize::MAX
    }

    /// The broadcast with one track in another state.
    pub open spec fn with_state(self, i: int, state: TrackState) -> BroadcastView {
        BroadcastView {
            tracks: self.tracks.update(i, TrackView { state, ..self.tracks[i] }),
            ..self
        }
    }

    /// The catalogs are published: each is turned into text and written to a group of its own. A
    /// catalog track that takes no group stops all further catalogs.
    pub open spec fn publish(self, out: OutboxView) -> (BroadcastView, OutboxView) {
        if self.catalog_failed {
            (self, out)
        } else {
            let o1 = out.with(ActionView::EncodeMsf { catalog: self.msf_catalog(out.now) });
            if out.refuses() {
                (self, o1)
            } else {
                let o2 = o1.with(ActionView::AppendGroup { track: self.msf_track });
                if o1.refuses() {
                    (BroadcastView { catalog_failed: true, ..self }, o2)
                } else {
                    (
                        self,
                        self.publish_hang(
                            o2.with(ActionView::WriteCatalog { track: self.msf_track }).with(
                                ActionView::FinishGroup { track: self.msf_track },
                            ),
                        ),
                    )
                }
            }
        }
    }

    /// The hang catalog is published, if there is a track for it.
    pub open spec fn publish_hang(self, out: OutboxView) -> OutboxView {
        match self.hang_track {
            None => out,
            Some(track) => {
                let o1 = out.with(ActionView::EncodeHang { catalog: self.hang_catalog() });
                let o2 = o1.with(ActionView::AppendGroup { track });
                if out.refuses() {
                    o1
                } else if o1.refuses() {
                    o2
                } else {
                    o2.with(ActionView::WriteCatalog { track }).with(
                        ActionView::FinishGroup { track },
                    )
                }
            },
        }
    }

    /// The objects are written one after another, until one fails.
    pub open spec fn flush(self, out: OutboxView, items: Seq<BufferedView>) -> (
        BroadcastView,
        OutboxView,
        Result<(), MuxErrorView>,
    )
        decreases items.len(),
    {
        if items.len() == 0 {
            (self, out, Ok(()))
        } else {
            let i = items[0].track.0 as int;
            if i >= self.tracks.len() {
                (self, out, Err(MuxErrorView::InvalidTrack))
            } else {
                let (state, out, res) = self.tracks[i].state.write_following(
                    out,
                    items[0].meta,
                    items[0].data,
                );
                let next = self.with_state(i, state);
                if res is Err {
                    (next, out, res)
                } else {
                    next.flush(out, items.skip(1))
                }
            }
        }
    }

    /// From track `i` on, audio that follows the video and has a group open gets a new one, unless
    /// the caller assigns its groups; until one fails.
    pub open spec fn rotate(self, out: OutboxView, i: nat) -> (
        BroadcastView,
        OutboxView,
        Result<(), MuxErrorView>,
    )
        decreases self.tracks.len() - i,
    {
        if i >= self.tracks.len() {
            (self, out, Ok(()))
        } else {
            let t = self.tracks[i as int].state;
            if t.non_switching() && t.open && !t.explicit_groups {
                let (state, out, res) = t.start_group(out, None);
                let next = self.with_state(i as int, state);
                if res is Err {
                    (next, out, res)
                } else {
                    next.rotate(out, i + 1)
                }
            } else {
                self.rotate(out, i + 1)
            }
        }
    }

    /// What follows the object of a leading track that was written: the catalogs if they changed,
    /// and at a keyframe of the video the groups of the audio that follows it: at the first what
    /// was buffered, and after that new groups.
    pub open spec fn led(self, out: OutboxView, i: int, meta: CmsfMetadata, jitter: bool) -> (
        BroadcastView,
        OutboxView,
        Result<(), MuxErrorView>,
    ) {
        let t = self.tracks[i].state;
        let clean = self.with_state(i, TrackState { sap_dirty: false, ..t });
        let (told, out) = if t.sap_dirty || (jitter && t.jitter is Some) {
            clean.publish(out)
        } else {
            (clean, out)
        };
        if t.kind == TrackKind::Video && t.sap_of(meta).is_keyframe_spec() {
            if !told.first_video_group {
                BroadcastView {
                    first_video_group: true,
                    audio_buffer: Seq::empty(),
                    ..told
                }.flush(out, told.audio_buffer)
            } else {
                told.rotate(out, 0)
            }
        } else {
            (told, out, Ok(()))
        }
    }

    /// An object is written to a track, once its timing is known.
    pub open spec fn write(
        self,
        out: OutboxView,
        id: TrackId,
        data: Seq<u8>,
        group_id: Option<u64>,
        meta: CmsfMetadata,
    ) -> (BroadcastView, OutboxView, Result<(), MuxErrorView>) {
        let i = id.0 as int;
        if i >= self.tracks.len() {
            (self, out, Err(MuxErrorView::InvalidTrack))
        } else {
            let t = self.tracks[i].state;
            if t.non_switching() && group_id is Some {
                let (state, out, res) = t.write_explicit(out, meta, data, group_id->Some_0);
                (self.with_state(i, state), out, res)
            } else if t.non_switching() && self.has_video_track && !self.first_video_group
                && !t.explicit_groups {
                (
                    BroadcastView {
                        audio_buffer: self.audio_buffer.push(
                            BufferedView { track: id, data, meta },
                        ),
                        ..self
                    },
                    out,
                    Ok(()),
                )
            } else if t.non_switching() && self.has_video_track {
                let (state, out, res) = t.write_following(out, meta, data);
                (self.with_state(i, state), out, res)
            } else {
                let (state, out, res) = t.write_leading(out, meta, data, group_id);
                let next = self.with_state(i, state);
                if res is Err {
                    (next, out, res)
                } else {
                    next.led(out, i, meta, t.lowers_jitter(meta.pts))
                }
            }
        }
    }

    /// From track `i` on, all tracks are finished, and after them the catalogs; until one fails.
    pub open spec fn finish(self, out: OutboxView, i: nat) -> (
        BroadcastView,
        OutboxView,
        Result<(), MuxErrorView>,
    )
        decreases self.tracks.len() - i,
    {
        if i >= self.tracks.len() {
            let o1 = out.with(ActionView::FinishTrack { track: self.msf_track });
            if out.refuses() {
                (self, o1, Err(MuxErrorView::Refused))
            } else {
                match self.hang_track {
                    None => (self, o1, Ok(())),
                    Some(track) => (
                        self,
                        o1.with(ActionView::FinishTrack { track }),
                        if o1.refuses() {
                            Err(MuxErrorView::Refused)
                        } else {
                            Ok(())
                        },
                    ),
                }
            }
        } else {
            let (state, out, res) = self.tracks[i as int].state.finish(out);
            let next = self.with_state(i as int, state);
            if res is Err {
                (next, out, res)
            } else {
                next.finish(out, i + 1)
            }
        }
    }

    /// A media track is added, unless the transport refuses it: it gets the next number among its
    /// kind either way, and the catalogs are published.
    pub open spec fn add(
        self,
        out: OutboxView,
        kind: TrackKind,
        alt_group: Option<u32>,
        timescale: u64,
        config: CmsfTrackConfig<Seq<char>, Seq<u8>>,
        keyframe: SapType,
    ) -> (BroadcastView, OutboxView, Result<TrackId, MuxErrorView>) {
        let track = self.next_track() as usize;
        let name = match kind {
            TrackKind::Video => media_name("video"@, self.video_count as nat),
            TrackKind::Audio => media_name("audio"@, self.audio_count as nat),
        };
        let counted = match kind {
            TrackKind::Video => BroadcastView {
                video_count: (self.video_count + 1) as usize,
                ..self
            },
            TrackKind::Audio => BroadcastView {
                audio_count: (self.audio_count + 1) as usize,
                ..self
            },
        };
        let asked = out.with(ActionView::CreateTrack { track, name });
        if out.refuses() {
            (counted, asked, Err(MuxErrorView::Refused))
        } else {
            let state = TrackState {
                track,
                kind,
                open: false,
                alt_group,
                media_group_id: None,
                max_grp_sap: SapType::NoSap,
                max_obj_sap: SapType::NoSap,
                jitter: None,
                explicit_groups: false,
                last_explicit_group_id: None,
                timescale,
                last_timestamp: None,
                sap_dirty: false,
                keyframe_sap: keyframe,
            };
            let (next, out) = BroadcastView {
                tracks: counted.tracks.push(TrackView { state, name, config }),
                has_video_track: self.has_video_track || kind == TrackKind::Video,
                ..counted
            }.publish(asked);
            (next, out, Ok(TrackId(self.tracks.len() as usize)))
        }
    }

    /// A video track is added.
    pub open spec fn add_video(self, out: OutboxView, track: CmsfVideoTrack) -> (
        BroadcastView,
        OutboxView,
        Result<TrackId, MuxErrorView>,
    ) {
        self.add(
            out,
            TrackKind::Video,
            track.alt_group,
            track.timescale,
            CmsfTrackConfig::Video {
                codec: track.codec@,
                description: bytes(track.description),
                width: track.width,
                height: track.height,
                bitrate: track.bitrate,
                framerate: track.framerate,
                init_data: base64_text(track.init_segment@),
            },
            match track.codec@ {
                crate::mux::codec::VideoCodec::H264(_) => SapType::Type1,
                crate::mux::codec::VideoCodec::VP8 => SapType::Type1,
                _ => SapType::Type2,
            },
        )
    }

    /// An audio track is added.
    pub open spec fn add_audio(self, out: OutboxView, track: CmsfAudioTrack) -> (
        BroadcastView,
        OutboxView,
        Result<TrackId, MuxErrorView>,
    ) {
        self.add(
            out,
            TrackKind::Audio,
            track.alt_group,
            track.timescale,
            CmsfTrackConfig::Audio {
                codec: track.codec@,
                description: bytes(track.description),
                sample_rate: track.sample_rate,
                channel_count: track.channel_count,
                bitrate: track.bitrate,
                init_data: base64_text(track.init_segment@),
            },
            SapType::Type1,
        )
    }
}

impl CmsfBroadcastProducer {
    /// Create a new CMSF broadcast producer that owns its catalog tracks.
    pub fn new(config: CmsfConfig, out: &mut Outbox) -> (res: Result<Self, MuxError>)
        ensures
            ({
                let o1 = old(out)@.with(
                    ActionView::CreateTrack { track: 0, name: "catalog"@ },
                );
                let o2 = o1.with(ActionView::CreateTrack { track: 1, name: "catalog.json"@ });
                let refused = old(out)@.refuses() || (config.publish_hang && o1.refuses());
                &&& final(out)@ == if old(out)@.refuses() || !config.publish_hang {
                    o1
                } else {
                    o2
                }
                &&& match res {
                    Ok(p) => !refused && p@ == BroadcastView::fresh(config.publish_hang),
                    Err(e) => refused && e@ == MuxErrorView::Refused,
                }
            }),
    {
        if !out.request(Action::CreateTrack { track: 0, name: "catalog".to_owned() }) {
            return Err(MuxError::Refused);
        }
        let mut hang_track: Option<usize> = None;
        if config.publish_hang {
            if !out.request(Action::CreateTrack { track: 1, name: "catalog.json".to_owned() }) {
                return Err(MuxError::Refused);
            }
            hang_track = Some(1);
        }
        let p = CmsfBroadcastProducer {
            msf_track: 0,
            hang_track,
            tracks: Vec::new(),
            video_count: 0,
            audio_count: 0,
            audio_buffer: Vec::new(),
            first_video_group: false,
            has_video_track: false,
            catalog_failed: false,
        };
        assert(p@.tracks =~= Seq::empty());
        assert(p@.audio_buffer =~= Seq::empty());
        Ok(p)
    }

    /// The MSF catalog of the tracks as they are.
    pub fn msf_catalog(&self, now: Option<u64>) -> (catalog: MsfCatalog)
        ensures
            catalog@ == self@.msf_catalog(now),
    {
        let mut tracks: Vec<MsfTrack> = Vec::new();
        let mut i: usize = 0;
        while i < self.tracks.len()
            invariant
                i <= self.tracks@.len(),
                tracks@.len() == i,
                forall|j: int|
                    0 <= j < i ==> (#[trigger] tracks@[j])@ == msf_track(self.tracks@[j]@),
            decreases self.tracks@.len() - i,
        {
            let tp = &self.tracks[i];
            let track = match &tp.config {
                CmsfTrackConfig::Video {
                    codec,
                    description,
                    width,
                    height,
                    bitrate,
                    framerate,
                    init_data,
                } => MsfTrack {
                    name: tp.name.clone(),
                    packaging: Packaging::Cmaf,
                    is_live: true,
                    role: Some(Role::Video),
                    codec: Some(Codec::Video(codec.clone())),
                    width: *width,
                    height: *height,
                    framerate: *framerate,
                    samplerate: None,
                    channel_config: None,
                    bitrate: *bitrate,
                    init_data: Some(init_data.clone()),
                    render_group: Some(1),
                    alt_group: tp.alt_group,
                    max_grp_sap_starting_type: tp.max_grp_sap.to_msf_value(),
                    max_obj_sap_starting_type: tp.max_obj_sap.to_msf_value(),
                },
                CmsfTrackConfig::Audio {
                    codec,
                    description,
                    sample_rate,
                    channel_count,
                    bitrate,
                    init_data,
                } => {
                    let mut channels = String::new();
                    append_decimal(&mut channels, *channel_count as u64);
                    assert(channels@ =~= decimal(*channel_count as nat));
                    MsfTrack {
                        name: tp.name.clone(),
                        packaging: Packaging::Cmaf,
                        is_live: true,
                        role: Some(Role::Audio),
                        codec: Some(Codec::Audio(codec.clone())),
                        width: None,
                        height: None,
                        framerate: None,
                        samplerate: Some(*sample_rate),
                        channel_config: Some(channels),
                        bitrate: *bitrate,
                        init_data: Some(init_data.clone()),
                        render_group: Some(1),
                        alt_group: tp.alt_group,
                        max_grp_sap_starting_type: tp.max_grp_sap.to_msf_value(),
                        max_obj_sap_starting_type: tp.max_obj_sap.to_msf_value(),
                    }
                },
            };
            tracks.push(track);
            i = i + 1;
        }
        let catalog = MsfCatalog { version: 1, generated_at: now, tracks };
        assert(catalog@.tracks =~= self@.msf_catalog(now).tracks);
        catalog
    }

    /// The hang catalog of the tracks as they are.
    pub fn build_hang_catalog(&self) -> (catalog: HangCatalog)
        ensures
            catalog@ == self@.hang_catalog(),
    {
        let mut renditions: Vec<Rendition> = Vec::new();
        let mut i: usize = 0;
        while i < self.tracks.len()
            invariant
                i <= self.tracks@.len(),
                renditions@.len() == i,
                forall|j: int|
                    0 <= j < i ==> (#[trigger] renditions@[j])@ == rendition(self.tracks@[j]@),
            decreases self.tracks@.len() - i,
        {
            let tp = &self.tracks[i];
            let one = match &tp.config {
                CmsfTrackConfig::Video {
                    codec,
                    description,
                    width,
                    height,
                    bitrate,
                    framerate,
                    init_data,
                } => Rendition::Video(
                    tp.name.clone(),
                    VideoConfig {
                        codec: codec.clone(),
                        description: clone_bytes(description),
                        coded_width: *width,
                        coded_height: *height,
                        bitrate: *bitrate,
                        framerate: *framerate,
                        container: Container::Cmaf { init: decode_init(init_data) },
                        jitter: tp.jitter_as_time(),
                    },
                ),
                CmsfTrackConfig::Audio {
                    codec,
                    description,
                    sample_rate,
                    channel_count,
                    bitrate,
                    init_data,
                } => Rendition::Audio(
                    tp.name.clone(),
                    AudioConfig {
                        codec: codec.clone(),
                        description: clone_bytes(description),
                        sample_rate: *sample_rate,
                        channel_count: *channel_count,
                        bitrate: *bitrate,
                        container: Container::Cmaf { init: decode_init(init_data) },
                        jitter: tp.jitter_as_time(),
                    },
                ),
            };
            renditions.push(one);
            i = i + 1;
        }
        let catalog = HangCatalog { renditions };
        assert(catalog@.renditions =~= self@.hang_catalog().renditions);
        catalog
    }

    /// Publishes the catalogs of the tracks as they are.
    pub fn publish_catalogs(&mut self, out: &mut Outbox)
        ensures
            (final(self)@, final(out)@) == old(self)@.publish(old(out)@),
    {
        if self.catalog_failed {
            return;
        }
        let catalog = self.msf_catalog(out.now);
        if !out.request(Action::EncodeMsf { catalog }) {
            return;
        }
        if !out.request(Action::AppendGroup { track: self.msf_track }) {
            self.catalog_failed = true;
            return;
        }
        let _ = out.request(Action::WriteCatalog { track: self.msf_track });
        let _ = out.request(Action::FinishGroup { track: self.msf_track });
        if let Some(track) = self.hang_track {
            let catalog = self.build_hang_catalog();
            if !out.request(Action::EncodeHang { catalog }) {
                return;
            }
            if !out.request(Action::AppendGroup { track }) {
                return;
            }
            let _ = out.request(Action::WriteCatalog { track });
            let _ = out.request(Action::FinishGroup { track });
        }
    }
}

/// The init segment behind its text; nothing if the text is none.
fn decode_init(text: &String) -> (init: Vec<u8>)
    ensures
        init@ == init_of(text@),
{
    match base64::decode(text.as_str()) {
        Ok(init) => init,
        Err(_) => {
            let init: Vec<u8> = Vec::new();
            assert(init@ =~= Seq::empty());
            init
        },
    }
}

/// The name of a media track.
fn name_of(prefix: &str, n: usize) -> (name: String)
    ensures
        name@ == media_name(prefix@, n as nat),
{
    let mut name = prefix.to_owned();
    append_decimal(&mut name, n as u64);
    name.append(".m4s");
    name
}

/// A broadcast in which one track was changed, but for what never changes.
proof fn lemma_one_track(before: CmsfBroadcastProducer, after: CmsfBroadcastProducer, i: int)
    requires
        0 <= i < before.tracks@.len(),
        after.tracks@.len() == before.tracks@.len(),
        forall|j: int| 0 <= j < after.tracks@.len() && j != i ==> after.tracks@[j] == before.tracks@[j],
        after.tracks@[i].same_track(before.tracks@[i]),
        after.msf_track == before.msf_track,
        after.hang_track == before.hang_track,
        after.video_count == before.video_count,
        after.audio_count == before.audio_count,
        after.audio_buffer == before.audio_buffer,
        after.first_video_group == before.first_video_group,
        after.has_video_track == before.has_video_track,
        after.catalog_failed == before.catalog_failed,
    ensures
        after@ == before@.with_state(i, after.tracks@[i].state()),
{
    assert(after@.tracks =~= before@.with_state(i, after.tracks@[i].state()).tracks);
}

impl CmsfBroadcastProducer {
    /// Add a video track. Returns a handle for writing chunks.
    pub fn add_video_track(&mut self, track: CmsfVideoTrack, out: &mut Outbox) -> (res: Result<
        TrackId,
        MuxError,
    >)
        requires
            old(self)@.has_room(),
        ensures
            base64_bytes(base64_text(track.init_segment@)) == Ok::<_, Seq<char>>(
                track.init_segment@,
            ),
            (final(self)@, final(out)@, outcome(res)) == old(self)@.add_video(old(out)@, track),
    {
        let init_data = base64::encode(track.init_segment.as_slice());
        let name = name_of("video", self.video_count);
        self.video_count = self.video_count + 1;
        let number: usize = self.tracks.len() + if self.hang_track.is_some() {
            2usize
        } else {
            1usize
        };
        assert(self@.tracks =~= old(self)@.tracks);
        if !out.request(Action::CreateTrack { track: number, name: name.clone() }) {
            return Err(MuxError::Refused);
        }
        let id = TrackId(self.tracks.len());
        let config = CmsfTrackConfig::Video {
            codec: track.codec,
            description: track.description,
            width: track.width,
            height: track.height,
            bitrate: track.bitrate,
            framerate: track.framerate,
            init_data,
        };
        let producer = CmsfTrackProducer::new(
            TrackKind::Video,
            number,
            name,
            track.alt_group,
            config,
            track.timescale,
        );
        self.tracks.push(producer);
        self.has_video_track = true;
        assert(self@.tracks =~= old(self)@.tracks.push(producer@));
        self.publish_catalogs(out);
        Ok(id)
    }

    /// Add an audio track. Returns a handle for writing chunks.
    pub fn add_audio_track(&mut self, track: CmsfAudioTrack, out: &mut Outbox) -> (res: Result<
        TrackId,
        MuxError,
    >)
        requires
            old(self)@.has_room(),
        ensures
            base64_bytes(base64_text(track.init_segment@)) == Ok::<_, Seq<char>>(
                track.init_segment@,
            ),
            (final(self)@, final(out)@, outcome(res)) == old(self)@.add_audio(old(out)@, track),
    {
        let init_data = base64::encode(track.init_segment.as_slice());
        let name = name_of("audio", self.audio_count);
        self.audio_count = self.audio_count + 1;
        let number: usize = self.tracks.len() + if self.hang_track.is_some() {
            2usize
        } else {
            1usize
        };
        assert(self@.tracks =~= old(self)@.tracks);
        if !out.request(Action::CreateTrack { track: number, name: name.clone() }) {
            return Err(MuxError::Refused);
        }
        let id = TrackId(self.tracks.len());
        let config = CmsfTrackConfig::Audio {
            codec: track.codec,
            description: track.description,
            sample_rate: track.sample_rate,
            channel_count: track.channel_count,
            bitrate: track.bitrate,
            init_data,
        };
        let producer = CmsfTrackProducer::new(
            TrackKind::Audio,
            number,
            name,
            track.alt_group,
            config,
            track.timescale,
        );
        self.tracks.push(producer);
        assert(self@.tracks =~= old(self)@.tracks.push(producer@));
        self.publish_catalogs(out);
        Ok(id)
    }

    /// Writes the objects that waited for the first keyframe of the video.
    fn flush_audio_buffer(&mut self, out: &mut Outbox) -> (res: Result<(), MuxError>)
        ensures
            (final(self)@, final(out)@, outcome(res)) == (BroadcastView {
                audio_buffer: Seq::empty(),
                ..old(self)@
            }).flush(old(out)@, old(self)@.audio_buffer),
    {
        let mut buffer: Vec<Buffered> = Vec::new();
        std::mem::swap(&mut self.audio_buffer, &mut buffer);
        let ghost items = buffer@.map_values(|b: Buffered| b@);
        let ghost start = self@;
        let ghost first = out@;
        assert(start =~= BroadcastView { audio_buffer: Seq::empty(), ..old(self)@ }) by {
            assert(start.audio_buffer =~= Seq::empty());
        }
        assert(items =~= old(self)@.audio_buffer);
        assert(items.skip(0) =~= items);
        for item in it: buffer
            invariant
                it.seq() == buffer@,
                items == buffer@.map_values(|b: Buffered| b@),
                items == old(self)@.audio_buffer,
                start == (BroadcastView { audio_buffer: Seq::empty(), ..old(self)@ }),
                first == old(out)@,
                start.flush(first, items) == self@.flush(out@, items.skip(it.index() as int)),
        {
            let ghost k = it.index() as int;
            let ghost rest = items.skip(k);
            assert(rest.skip(1) =~= items.skip(k + 1));
            assert(rest[0] == item@);
            let i: usize = item.track.0;
            if i >= self.tracks.len() {
                return Err(MuxError::InvalidTrack);
            }
            let ghost before = *self;
            let res = self.tracks[i].write_following(&item.meta, item.data, out);
            proof {
                lemma_one_track(before, *self, i as int);
            }
            res?;
        }
        assert(items.skip(items.len() as int) =~= Seq::empty());
        Ok(())
    }

    /// Gives the audio that follows the video new groups.
    fn start_non_switching_audio_groups(&mut self, out: &mut Outbox) -> (res: Result<(), MuxError>)
        ensures
            (final(self)@, final(out)@, outcome(res)) == old(self)@.rotate(old(out)@, 0),
    {
        let mut i: usize = 0;
        while i < self.tracks.len()
            invariant
                i <= self.tracks@.len(),
                old(self)@.rotate(old(out)@, 0) == self@.rotate(out@, i as nat),
            decreases self.tracks@.len() - i,
        {
            let t = &self.tracks[i];
            let rotates = t.kind == TrackKind::Audio && t.alt_group.is_none() && t.group.is_some()
                && !t.explicit_groups;
            if rotates {
                let ghost before = *self;
                let res = self.tracks[i].start_group(None, out);
                proof {
                    lemma_one_track(before, *self, i as int);
                }
                res?;
            }
            i = i + 1;
        }
        Ok(())
    }

    /// Write a CMSF Object to the specified track.
    ///
    /// Parses moof+mdat metadata (PTS, duration, keyframe) and derives
    /// SAP type from the track's codec configuration.
    pub fn write(&mut self, track_id: TrackId, obj: CmsfObject, out: &mut Outbox) -> (res: Result<
        (),
        MuxError,
    >)
        ensures
            match metadata(obj.data@) {
                Err(e) => {
                    &&& final(self)@ == old(self)@
                    &&& final(out)@ == old(out)@
                    &&& outcome(res) == Err::<(), _>(MuxErrorView::Cmsf(e))
                },
                Ok(meta) => (final(self)@, final(out)@, outcome(res)) == old(self)@.write(
                    old(out)@,
                    track_id,
                    obj.data@,
                    obj.group_id,
                    meta,
                ),
            },
    {
        let meta = match parse_cmsf_metadata(obj.data.as_slice()) {
            Ok(meta) => meta,
            Err(e) => {
                return Err(MuxError::Cmsf(e));
            },
        };
        self.write_object(track_id, obj, meta, out)
    }

    /// Write a CMSF Object, whose timing is known, to the specified track.
    pub fn write_object(
        &mut self,
        track_id: TrackId,
        obj: CmsfObject,
        meta: CmsfMetadata,
        out: &mut Outbox,
    ) -> (res: Result<(), MuxError>)
        ensures
            (final(self)@, final(out)@, outcome(res)) == old(self)@.write(
                old(out)@,
                track_id,
                obj.data@,
                obj.group_id,
                meta,
            ),
    {
        let i: usize = track_id.0;
        if i >= self.tracks.len() {
            return Err(MuxError::InvalidTrack);
        }
        let kind = self.tracks[i].kind;
        let is_non_switching_audio = kind == TrackKind::Audio && self.tracks[i].alt_group.is_none();
        let ghost before = *self;
        if is_non_switching_audio {
            // Explicit-mode audio bypasses the pre-roll buffer.
            if let Some(id) = obj.group_id {
                let res = self.tracks[i].write_explicit(&meta, obj.data, id, out);
                proof {
                    lemma_one_track(before, *self, i as int);
                }
                return res;
            }
            if self.has_video_track {
                // Auto-mode non-switching audio: buffer before first video keyframe.
                if !self.first_video_group && !self.tracks[i].explicit_groups {
                    let item = Buffered { track: track_id, data: obj.data, meta };
                    self.audio_buffer.push(item);
                    assert(self@.audio_buffer =~= before@.audio_buffer.push(item@));
                    return Ok(());
                }
                // Non-switching audio after first video group, or in explicit mode: it goes on in
                // the open group.
                let res = self.tracks[i].write_following(&meta, obj.data, out);
                proof {
                    lemma_one_track(before, *self, i as int);
                }
                return res;
            }
        }
        // Video or switching audio track.
        let ghost t = self.tracks@[i as int].state();
        let jitter = self.tracks[i].jitter;
        let res = self.tracks[i].write_leading(&meta, obj.data, obj.group_id, out);
        proof {
            lemma_one_track(before, *self, i as int);
            lemma_leading_jitter(t, old(out)@, meta, obj.data@, obj.group_id);
        }
        res?;
        let jitter_changed = match (jitter, self.tracks[i].jitter) {
            (Some(a), Some(b)) => a != b,
            (None, Some(_)) => true,
            _ => false,
        };
        self.led(i, &meta, jitter_changed, out)
    }

    /// Does what follows the object of a leading track.
    fn led(&mut self, i: usize, meta: &CmsfMetadata, jitter_changed: bool, out: &mut Outbox) -> (res:
        Result<(), MuxError>)
        requires
            i < old(self).tracks@.len(),
        ensures
            (final(self)@, final(out)@, outcome(res)) == old(self)@.led(
                old(out)@,
                i as int,
                *meta,
                jitter_changed,
            ),
    {
        let ghost before = *self;
        let kind = self.tracks[i].kind;
        let sap = self.tracks[i].sap_of(meta);
        let sap_changed = self.tracks[i].sap_changed();
        proof {
            lemma_one_track(before, *self, i as int);
        }
        if sap_changed || (jitter_changed && self.tracks[i].jitter.is_some()) {
            self.publish_catalogs(out);
        }
        if kind == TrackKind::Video && sap.is_keyframe() {
            if !self.first_video_group {
                self.first_video_group = true;
                return self.flush_audio_buffer(out);
            } else {
                return self.start_non_switching_audio_groups(out);
            }
        }
        Ok(())
    }

    /// Finish all tracks and catalog tracks.
    pub fn finish(&mut self, out: &mut Outbox) -> (res: Result<(), MuxError>)
        ensures
            (final(self)@, final(out)@, outcome(res)) == old(self)@.finish(old(out)@, 0),
    {
        let mut i: usize = 0;
        while i < self.tracks.len()
            invariant
                i <= self.tracks@.len(),
                old(self)@.finish(old(out)@, 0) == self@.finish(out@, i as nat),
            decreases self.tracks@.len() - i,
        {
            let ghost before = *self;
            let res = self.tracks[i].finish(out);
            proof {
                lemma_one_track(before, *self, i as int);
            }
            res?;
            i = i + 1;
        }
        if !out.request(Action::FinishTrack { track: self.msf_track }) {
            return Err(MuxError::Refused);
        }
        if let Some(track) = self.hang_track {
            if !out.request(Action::FinishTrack { track }) {
                return Err(MuxError::Refused);
            }
        }
        Ok(())
    }
}

/// Where an object of a leading track was written, the jitter changed if and only if its time
/// lowered it.
proof fn lemma_leading_jitter(
    t: TrackState,
    out: OutboxView,
    meta: CmsfMetadata,
    data: Seq<u8>,
    group_id: Option<u64>,
)
    ensures
        ({
            let (next, _, res) = t.write_leading(out, meta, data, group_id);
            res is Ok ==> {
                &&& next.jitter == t.update_jitter(meta.pts).jitter
                &&& (next.jitter != t.jitter <==> t.lowers_jitter(meta.pts))
            }
        }),
{
}

} // verus!
