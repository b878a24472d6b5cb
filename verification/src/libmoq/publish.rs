//! Publishing by handles: broadcasts, their tracks, and the groups of a track.
//!
//! A track commits to one of two ways of assigning groups: either all tracks of its broadcast
//! start a group together, or the groups of the track are opened one by one.

use crate::libmoq::slab::{at, has_vacancy, is_vacant, put, take, Id, NonZeroSlab};
use crate::mux::catalog::{
    bytes, AudioConfig, Container, Framerate, HangCatalog, HangCatalogView, Rendition,
    VideoConfig,
};
use crate::mux::codec::{AudioCodec, VideoCodec};
use crate::mux::outbox::{Action, ActionView, Outbox, OutboxView};
use vstd::prelude::*;
use vstd::slice::slice_to_vec;

verus! {

/// Why something cannot be published.
#[derive(Debug)]
pub enum PublishError {
    BroadcastNotFound,
    MediaNotFound,
    TrackNotFound,
    GroupNotFound,
    UnknownFormat(String),
    InitFailed(String),
    DecodeFailed(String),
    /// The codec cannot be read.
    Codec(String),
    /// The track has committed to the other way of assigning groups.
    ModeConflict,
    NoActiveGroup,
    /// No handle is left.
    NoIndex,
    /// The transport failed.
    Moq(String),
    /// The transport refused a request.
    Refused,
}

/// What such an error says.
pub enum PublishErrorView {
    BroadcastNotFound,
    MediaNotFound,
    TrackNotFound,
    GroupNotFound,
    UnknownFormat(Seq<char>),
    InitFailed(Seq<char>),
    DecodeFailed(Seq<char>),
    Codec(Seq<char>),
    ModeConflict,
    NoActiveGroup,
    NoIndex,
    Moq(Seq<char>),
    Refused,
}

impl View for PublishError {
    type V = PublishErrorView;

    open spec fn view(&self) -> PublishErrorView {
        match self {
            PublishError::BroadcastNotFound => PublishErrorView::BroadcastNotFound,
            PublishError::MediaNotFound => PublishErrorView::MediaNotFound,
            PublishError::TrackNotFound => PublishErrorView::TrackNotFound,
            PublishError::GroupNotFound => PublishErrorView::GroupNotFound,
            PublishError::UnknownFormat(s) => PublishErrorView::UnknownFormat(s@),
            PublishError::InitFailed(s) => PublishErrorView::InitFailed(s@),
            PublishError::DecodeFailed(s) => PublishErrorView::DecodeFailed(s@),
            PublishError::Codec(s) => PublishErrorView::Codec(s@),
            PublishError::ModeConflict => PublishErrorView::ModeConflict,
            PublishError::NoActiveGroup => PublishErrorView::NoActiveGroup,
            PublishError::NoIndex => PublishErrorView::NoIndex,
            PublishError::Moq(s) => PublishErrorView::Moq(s@),
            PublishError::Refused => PublishErrorView::Refused,
        }
    }
}

/// The result of a call, as a contract speaks of it.
pub open spec fn done<T>(res: Result<T, PublishError>) -> Result<T, PublishErrorView> {
    match res {
        Ok(v) => Ok(v),
        Err(e) => Err(e@),
    }
}

/// Configuration for a track created via the slim CMAF passthrough API.
#[derive(Debug)]
pub struct TrackConfig {
    pub name: String,
    pub codec: String,
    pub init_data: Option<Vec<u8>>,
    pub width: Option<u32>,
    pub height: Option<u32>,
    pub framerate: Option<Framerate>,
    pub sample_rate: Option<u32>,
    pub channel_count: Option<u32>,
    pub bitrate: Option<u64>,
}

/// What a codec string is, read as video and as audio.
#[derive(Debug)]
pub struct ParsedCodec {
    pub video: Result<VideoCodec, String>,
    pub audio: Result<AudioCodec, String>,
}

/// Which group control flow a track is using.
///
/// A track must commit to one mode for its lifetime. Mixing the two modes
/// on the same track produces ambiguous group sequencing on the wire.
#[derive(Debug, Clone, Copy, PartialEq, Eq, Structural)]
pub enum GroupMode {
    /// Broadcast level aligned groups driven by [`Publish::broadcast_start_group`].
    Broadcast,
    /// Per track groups driven by [`Publish::group_open`].
    PerTrack,
}

/// A track created via [`Publish::track_create`].
#[derive(Debug, Clone, Copy, PartialEq, Eq, Structural)]
pub struct SlimTrack {
    /// The broadcast this track belongs to.
    pub broadcast_id: Id,
    /// The number by which the transport knows the track.
    pub track: usize,
    /// Whether a group is open that all tracks of the broadcast started together.
    pub open: bool,
    /// The group mode this track has committed to.
    pub mode: Option<GroupMode>,
}

/// A group opened via [`Publish::group_open`].
#[derive(Debug, Clone, Copy, PartialEq, Eq, Structural)]
pub struct SlimGroup {
    /// The number by which the transport knows the group.
    pub group: usize,
    pub track_id: Id,
}

/// What is published.
#[derive(Debug, Clone)]
pub struct Publish {
    /// Active broadcasts, by their catalogs.
    pub broadcasts: NonZeroSlab<HangCatalog>,
    /// Active media decoders.
    pub media: NonZeroSlab<()>,
    pub tracks: NonZeroSlab<SlimTrack>,
    pub groups: NonZeroSlab<SlimGroup>,
    /// The number of the next track.
    pub next_track: usize,
    /// The number of the next group.
    pub next_group: usize,
}

/// What is published.
pub struct PublishView {
    pub broadcasts: Seq<Option<HangCatalogView>>,
    pub media: Seq<Option<()>>,
    pub tracks: Seq<Option<SlimTrack>>,
    pub groups: Seq<Option<SlimGroup>>,
    pub next_track: usize,
    pub next_group: usize,
}

/// What a catalog says, if there is one.
pub open spec fn catalog_view(catalog: Option<HangCatalog>) -> Option<HangCatalogView> {
    match catalog {
        Some(c) => Some(c@),
        None => None,
    }
}

impl View for Publish {
    type V = PublishView;

    open spec fn view(&self) -> PublishView {
        PublishView {
            broadcasts: self.broadcasts@.map_values(|c: Option<HangCatalog>| catalog_view(c)),
            media: self.media@,
            tracks: self.tracks@,
            groups: self.groups@,
            next_track: self.next_track,
            next_group: self.next_group,
        }
    }
}

/// Whether a text starts with another.
pub open spec fn starts(s: Seq<char>, prefix: Seq<char>) -> bool {
    prefix.len() <= s.len() && s.take(prefix.len() as int) == prefix
}

/// Whether a text starts with another.
fn starts_with(s: &str, prefix: &str) -> (b: bool)
    ensures
        b == starts(s@, prefix@),
{
    let n: usize = prefix.unicode_len();
    if s.unicode_len() < n {
        return false;
    }
    let mut i: usize = 0;
    while i < n
        invariant
            i <= n,
            n == prefix@.len(),
            n <= s@.len(),
            forall|j: int| 0 <= j < i ==> s@[j] == prefix@[j],
        decreases n - i,
    {
        if s.get_char(i) != prefix.get_char(i) {
            assert(s@.take(n as int)[i as int] != prefix@[i as int]);
            return false;
        }
        i = i + 1;
    }
    assert(s@.take(n as int) =~= prefix@);
    true
}

/// Whether two texts are the same.
pub(crate) fn same(s: &str, other: &str) -> (b: bool)
    ensures
        b == (s@ == other@),
{
    if s.unicode_len() != other.unicode_len() {
        return false;
    }
    let b = starts_with(s, other);
    assert(s@.take(s@.len() as int) =~= s@);
    b
}

/// Whether a codec string is that of a video codec that is known.
pub open spec fn is_video_codec(codec: Seq<char>) -> bool {
    starts(codec, "avc1."@) || starts(codec, "avc3."@) || starts(codec, "hvc1."@) || starts(
        codec,
        "hev1."@,
    ) || codec == "vp8"@ || starts(codec, "vp09."@) || starts(codec, "av01."@)
}

/// Whether a codec string is that of an audio codec that is known.
pub open spec fn is_audio_codec(codec: Seq<char>) -> bool {
    starts(codec, "mp4a.40."@) || codec == "opus"@
}

/// What a codec string is: `Some(true)` for video, `Some(false)` for audio, and `None` for one that
/// is not known.
pub open spec fn classified(codec: Seq<char>) -> Option<bool> {
    if is_video_codec(codec) {
        Some(true)
    } else if is_audio_codec(codec) {
        Some(false)
    } else {
        None
    }
}

/// Determine whether a WebCodecs codec string is video. Returns `Some(true)`
/// for video, `Some(false)` for audio, and `None` for unknown codec strings
/// (the caller can then fall back to inspecting the rest of the config).
pub fn classify_codec(codec: &str) -> (kind: Option<bool>)
    ensures
        kind == classified(codec@),
{
    if starts_with(codec, "avc1.") || starts_with(codec, "avc3.") || starts_with(codec, "hvc1.")
        || starts_with(codec, "hev1.") || same(codec, "vp8") || starts_with(codec, "vp09.")
        || starts_with(codec, "av01.") {
        Some(true)
    } else if starts_with(codec, "mp4a.40.") || same(codec, "opus") {
        Some(false)
    } else {
        None
    }
}

/// Whether a track is video: by its codec, and where that is not known by which fields are given.
pub open spec fn video_by(config: TrackConfig) -> Option<bool> {
    let looks_video = config.width is Some || config.height is Some;
    let looks_audio = config.sample_rate is Some || config.channel_count is Some;
    if is_video_codec(config.codec@) {
        Some(true)
    } else if is_audio_codec(config.codec@) {
        Some(false)
    } else if looks_video != looks_audio {
        Some(looks_video)
    } else {
        None
    }
}

impl TrackConfig {
    /// Whether the track is video; none if that cannot be told.
    pub fn is_video(&self) -> (video: Option<bool>)
        ensures
            video == video_by(*self),
    {
        match classify_codec(self.codec.as_str()) {
            Some(v) => Some(v),
            None => {
                let looks_video = self.width.is_some() || self.height.is_some();
                let looks_audio = self.sample_rate.is_some() || self.channel_count.is_some();
                match (looks_video, looks_audio) {
                    (true, false) => Some(true),
                    (false, true) => Some(false),
                    _ => None,
                }
            },
        }
    }
}

/// The container of a track: CMAF where it has an init segment.
pub open spec fn container_of(init_data: Option<Seq<u8>>) -> Container<Seq<u8>> {
    match init_data {
        Some(init) => if init.len() > 0 {
            Container::Cmaf { init }
        } else {
            Container::Legacy
        },
        None => Container::Legacy,
    }
}

/// The catalog entry of a track, or why it cannot have one.
pub open spec fn rendition_of(config: TrackConfig, parsed: ParsedCodec) -> Result<
    Rendition<Seq<char>, Seq<u8>>,
    PublishErrorView,
> {
    let container = container_of(bytes(config.init_data));
    match video_by(config) {
        None => Err(PublishErrorView::UnknownFormat(config.codec@)),
        Some(true) => match parsed.video {
            Err(e) => Err(PublishErrorView::Codec(e@)),
            Ok(codec) => Ok(
                Rendition::Video(
                    config.name@,
                    VideoConfig {
                        codec: codec@,
                        description: None,
                        coded_width: config.width,
                        coded_height: config.height,
                        bitrate: config.bitrate,
                        framerate: config.framerate,
                        container,
                        jitter: None,
                    },
                ),
            ),
        },
        Some(false) => match (config.sample_rate, config.channel_count) {
            (Some(sample_rate), Some(channel_count)) => if sample_rate == 0 || channel_count == 0 {
                Err(PublishErrorView::InitFailed(AUDIO_MESSAGE@))
            } else {
                match parsed.audio {
                    Err(e) => Err(PublishErrorView::Codec(e@)),
                    Ok(codec) => Ok(
                        Rendition::Audio(
                            config.name@,
                            AudioConfig {
                                codec: codec@,
                                description: None,
                                sample_rate,
                                channel_count,
                                bitrate: config.bitrate,
                                container,
                                jitter: None,
                            },
                        ),
                    ),
                }
            },
            _ => Err(PublishErrorView::InitFailed(AUDIO_MESSAGE@)),
        },
    }
}

/// What an audio track without a shape is told.
pub const AUDIO_MESSAGE: &'static str = "audio track requires non-zero sample_rate and channel_count";

/// Builds the catalog entry of a track.
fn build_rendition(config: &TrackConfig, parsed: ParsedCodec) -> (res: Result<
    Rendition,
    PublishError,
>)
    ensures
        match rendition_of(*config, parsed) {
            Ok(r) => res matches Ok(x) && x@ == r,
            Err(e) => res matches Err(f) && f@ == e,
        },
{
    let is_video = match config.is_video() {
        Some(v) => v,
        None => {
            return Err(PublishError::UnknownFormat(config.codec.clone()));
        },
    };
    let container = match &config.init_data {
        Some(init) => if init.len() > 0 {
            Container::Cmaf { init: slice_to_vec(init.as_slice()) }
        } else {
            Container::Legacy
        },
        None => Container::Legacy,
    };
    assert(container@ == container_of(bytes(config.init_data)));
    if is_video {
        let codec = match parsed.video {
            Ok(codec) => codec,
            Err(e) => {
                return Err(PublishError::Codec(e));
            },
        };
        Ok(
            Rendition::Video(
                config.name.clone(),
                VideoConfig {
                    codec,
                    description: None,
                    coded_width: config.width,
                    coded_height: config.height,
                    bitrate: config.bitrate,
                    framerate: config.framerate,
                    container,
                    jitter: None,
                },
            ),
        )
    } else {
        let sample_rate: u32 = config.sample_rate.unwrap_or(0);
        let channel_count: u32 = config.channel_count.unwrap_or(0);
        if sample_rate == 0 || channel_count == 0 {
            return Err(PublishError::InitFailed(AUDIO_MESSAGE.to_owned()));
        }
        let codec = match parsed.audio {
            Ok(codec) => codec,
            Err(e) => {
                return Err(PublishError::Codec(e));
            },
        };
        Ok(
            Rendition::Audio(
                config.name.clone(),
                AudioConfig {
                    codec,
                    description: None,
                    sample_rate,
                    channel_count,
                    bitrate: config.bitrate,
                    container,
                    jitter: None,
                },
            ),
        )
    }
}

/// Whether two entries are of the same kind and name.
pub open spec fn same_entry(
    a: Rendition<Seq<char>, Seq<u8>>,
    b: Rendition<Seq<char>, Seq<u8>>,
) -> bool {
    match (a, b) {
        (Rendition::Video(x, _), Rendition::Video(y, _)) => x == y,
        (Rendition::Audio(x, _), Rendition::Audio(y, _)) => x == y,
        _ => false,
    }
}

/// From number `i` on, the first entry of the same kind and name gives way to another; if there
/// is none, that comes last.
pub open spec fn listed(
    renditions: Seq<Rendition<Seq<char>, Seq<u8>>>,
    r: Rendition<Seq<char>, Seq<u8>>,
    i: nat,
) -> Seq<Rendition<Seq<char>, Seq<u8>>>
    decreases renditions.len() - i,
{
    if i >= renditions.len() {
        renditions.push(r)
    } else if same_entry(renditions[i as int], r) {
        renditions.update(i as int, r)
    } else {
        listed(renditions, r, i + 1)
    }
}

/// A catalog with one more entry.
pub open spec fn list(catalog: HangCatalogView, r: Rendition<Seq<char>, Seq<u8>>) -> HangCatalogView {
    HangCatalogView { renditions: listed(catalog.renditions, r, 0) }
}

/// Puts an entry into a catalog.
fn list_in(catalog: &mut HangCatalog, r: Rendition)
    ensures
        final(catalog)@ == list(old(catalog)@, r@),
{
    let mut i: usize = 0;
    while i < catalog.renditions.len()
        invariant
            i <= catalog.renditions@.len(),
            catalog@ == old(catalog)@,
            list(old(catalog)@, r@).renditions == listed(catalog@.renditions, r@, i as nat),
        decreases catalog.renditions@.len() - i,
    {
        let found = match (&catalog.renditions[i], &r) {
            (Rendition::Video(x, _), Rendition::Video(y, _)) => *x == *y,
            (Rendition::Audio(x, _), Rendition::Audio(y, _)) => *x == *y,
            _ => false,
        };
        if found {
            catalog.renditions.set(i, r);
            assert(catalog@.renditions =~= old(catalog)@.renditions.update(i as int, r@));
            return;
        }
        i = i + 1;
    }
    catalog.renditions.push(r);
    assert(catalog@.renditions =~= old(catalog)@.renditions.push(r@));
}

/// Whether a track of the broadcast has committed to groups of its own.
pub open spec fn conflicts(tracks: Seq<Option<SlimTrack>>, broadcast: Id) -> bool {
    exists|i: int|
        0 <= i < tracks.len() && (#[trigger] tracks[i]) is Some && tracks[i]->Some_0.broadcast_id
            == broadcast && tracks[i]->Some_0.mode == Some(GroupMode::PerTrack)
}

/// From place `i` on, every track of the broadcast gets a group with a sequence number, until one
/// is refused.
pub open spec fn start_groups(
    tracks: Seq<Option<SlimTrack>>,
    out: OutboxView,
    broadcast: Id,
    sequence: u64,
    i: nat,
) -> (Seq<Option<SlimTrack>>, OutboxView, Result<(), PublishErrorView>)
    decreases tracks.len() - i,
{
    if i >= tracks.len() {
        (tracks, out, Ok(()))
    } else {
        match tracks[i as int] {
            None => start_groups(tracks, out, broadcast, sequence, i + 1),
            Some(t) => if t.broadcast_id != broadcast {
                start_groups(tracks, out, broadcast, sequence, i + 1)
            } else {
                let closed = tracks.update(i as int, Some(SlimTrack { open: false, ..t }));
                let o1 = if t.open {
                    out.with(ActionView::FinishGroup { track: t.track })
                } else {
                    out
                };
                let o2 = o1.with(ActionView::CreateGroup { track: t.track, sequence });
                if t.open && out.refuses() {
                    (closed, o1, Err(PublishErrorView::Refused))
                } else if o1.refuses() {
                    (closed, o2, Err(PublishErrorView::Refused))
                } else {
                    start_groups(
                        tracks.update(
                            i as int,
                            Some(
                                SlimTrack {
                                    open: true,
                                    mode: Some(GroupMode::Broadcast),
                                    ..t
                                },
                            ),
                        ),
                        o2,
                        broadcast,
                        sequence,
                        i + 1,
                    )
                }
            },
        }
    }
}

/// The tracks that do not belong to the broadcast.
pub open spec fn without_broadcast(tracks: Seq<Option<SlimTrack>>, broadcast: Id) -> Seq<
    Option<SlimTrack>,
> {
    tracks.map_values(
        |t: Option<SlimTrack>|
            if t is Some && t->Some_0.broadcast_id == broadcast {
                None
            } else {
                t
            },
    )
}

/// Whether a track belongs to the broadcast.
pub open spec fn belongs(tracks: Seq<Option<SlimTrack>>, id: Id, broadcast: Id) -> bool {
    at(tracks, id) is Some && at(tracks, id)->Some_0.broadcast_id == broadcast
}

/// The groups of tracks that do not belong to the broadcast.
pub open spec fn without_groups_of(
    groups: Seq<Option<SlimGroup>>,
    tracks: Seq<Option<SlimTrack>>,
    broadcast: Id,
) -> Seq<Option<SlimGroup>> {
    groups.map_values(
        |g: Option<SlimGroup>|
            if g is Some && belongs(tracks, g->Some_0.track_id, broadcast) {
                None
            } else {
                g
            },
    )
}

/// The groups of other tracks.
pub open spec fn without_track(groups: Seq<Option<SlimGroup>>, track: Id) -> Seq<
    Option<SlimGroup>,
> {
    groups.map_values(
        |g: Option<SlimGroup>|
            if g is Some && g->Some_0.track_id == track {
                None
            } else {
                g
            },
    )
}

impl PublishView {
    /// Nothing is published.
    pub open spec fn empty() -> PublishView {
        PublishView {
            broadcasts: Seq::empty(),
            media: Seq::empty(),
            tracks: Seq::empty(),
            groups: Seq::empty(),
            next_track: 0,
            next_group: 0,
        }
    }

    /// A broadcast is closed, with its tracks and their groups.
    pub open spec fn close(self, id: Id) -> (PublishView, Result<(), PublishErrorView>) {
        if at(self.broadcasts, id) is None {
            (self, Err(PublishErrorView::BroadcastNotFound))
        } else {
            (
                PublishView {
                    broadcasts: take(self.broadcasts, id),
                    tracks: without_broadcast(self.tracks, id),
                    groups: without_groups_of(self.groups, self.tracks, id),
                    ..self
                },
                Ok(()),
            )
        }
    }

    /// All tracks of a broadcast start a group together.
    pub open spec fn start_group(self, out: OutboxView, id: Id, sequence: u64) -> (
        PublishView,
        OutboxView,
        Result<(), PublishErrorView>,
    ) {
        if at(self.broadcasts, id) is None {
            (self, out, Err(PublishErrorView::BroadcastNotFound))
        } else if conflicts(self.tracks, id) {
            (self, out, Err(PublishErrorView::ModeConflict))
        } else {
            let (tracks, o, res) = start_groups(self.tracks, out, id, sequence, 0);
            (PublishView { tracks, ..self }, o, res)
        }
    }

    /// A frame is written to the group that all tracks started together.
    pub open spec fn write(self, out: OutboxView, broadcast: Id, id: Id, data: Seq<u8>) -> (
        OutboxView,
        Result<(), PublishErrorView>,
    ) {
        if !belongs(self.tracks, id, broadcast) {
            (out, Err(PublishErrorView::TrackNotFound))
        } else {
            let t = at(self.tracks, id)->Some_0;
            if !t.open {
                (out, Err(PublishErrorView::NoActiveGroup))
            } else {
                (
                    out.with(ActionView::WriteFrame { track: t.track, data }),
                    if out.refuses() {
                        Err(PublishErrorView::Refused)
                    } else {
                        Ok(())
                    },
                )
            }
        }
    }

    /// A track is closed, with its groups. If the group that is open cannot be finished, the track
    /// is gone, and nothing more happens.
    pub open spec fn track_close(self, out: OutboxView, broadcast: Id, id: Id) -> (
        PublishView,
        OutboxView,
        Result<(), PublishErrorView>,
    ) {
        if !belongs(self.tracks, id, broadcast) {
            (self, out, Err(PublishErrorView::TrackNotFound))
        } else {
            let t = at(self.tracks, id)->Some_0;
            let gone = PublishView { tracks: take(self.tracks, id), ..self };
            let o1 = if t.open {
                out.with(ActionView::FinishGroup { track: t.track })
            } else {
                out
            };
            if t.open && out.refuses() {
                (gone, o1, Err(PublishErrorView::Refused))
            } else {
                (
                    PublishView { groups: without_track(self.groups, id), ..gone },
                    o1.with(ActionView::FinishTrack { track: t.track }),
                    if o1.refuses() {
                        Err(PublishErrorView::Refused)
                    } else {
                        Ok(())
                    },
                )
            }
        }
    }

    /// A frame is written to a group that was opened by itself.
    pub open spec fn group_write(self, out: OutboxView, id: Id, data: Seq<u8>) -> (
        OutboxView,
        Result<(), PublishErrorView>,
    ) {
        match at(self.groups, id) {
            None => (out, Err(PublishErrorView::GroupNotFound)),
            Some(g) => (
                out.with(ActionView::WriteGroup { group: g.group, data }),
                if out.refuses() {
                    Err(PublishErrorView::Refused)
                } else {
                    Ok(())
                },
            ),
        }
    }

    /// What a media decoder made of a frame is judged: how many bytes it left, or why it failed.
    pub open spec fn media_frame(self, media: Id, decoded: Result<usize, Seq<char>>) -> Result<
        (),
        PublishErrorView,
    > {
        if at(self.media, media) is None {
            Err(PublishErrorView::MediaNotFound)
        } else {
            match decoded {
                Err(m) => Err(PublishErrorView::DecodeFailed(m)),
                Ok(left) => if left > 0 {
                    Err(PublishErrorView::DecodeFailed("buffer was not fully consumed"@))
                } else {
                    Ok(())
                },
            }
        }
    }

    /// The handle of a media decoder is freed, and how it finished is judged.
    pub open spec fn media_close(self, media: Id, finished: Result<(), Seq<char>>) -> (
        PublishView,
        Result<(), PublishErrorView>,
    ) {
        if at(self.media, media) is None {
            (self, Err(PublishErrorView::MediaNotFound))
        } else {
            (
                PublishView { media: take(self.media, media), ..self },
                match finished {
                    Err(m) => Err(PublishErrorView::DecodeFailed(m)),
                    Ok(()) => Ok(()),
                },
            )
        }
    }

    /// A group is finished, and its handle freed.
    pub open spec fn group_close(self, out: OutboxView, id: Id) -> (
        PublishView,
        OutboxView,
        Result<(), PublishErrorView>,
    ) {
        match at(self.groups, id) {
            None => (self, out, Err(PublishErrorView::GroupNotFound)),
            Some(g) => (
                PublishView { groups: take(self.groups, id), ..self },
                out.with(ActionView::CloseGroup { group: g.group }),
                if out.refuses() {
                    Err(PublishErrorView::Refused)
                } else {
                    Ok(())
                },
            ),
        }
    }
}

/// What becomes of a track that is to be created. It is asked for only if it can have a catalog
/// entry; the entry stays even where no handle is left for the track.
pub open spec fn track_created(
    before: PublishView,
    out: OutboxView,
    broadcast_id: Id,
    config: TrackConfig,
    parsed: ParsedCodec,
    after: PublishView,
    o: OutboxView,
    res: Result<Id, PublishErrorView>,
) -> bool {
    let number = before.next_track;
    let asked = out.with(
        ActionView::CreateTrackOn {
            broadcast: broadcast_id.0,
            track: number,
            name: config.name@,
        },
    );
    match (rendition_of(config, parsed), at(before.broadcasts, broadcast_id)) {
        (Err(e), _) => after == before && o == out && res == Err::<Id, _>(e),
        (Ok(_), None) => after == before && o == out && res == Err::<Id, _>(
            PublishErrorView::BroadcastNotFound,
        ),
        (Ok(r), Some(catalog)) => if number == usize::MAX {
            after == before && o == out && res == Err::<Id, _>(PublishErrorView::NoIndex)
        } else if out.refuses() {
            after == before && o == asked && res == Err::<Id, _>(PublishErrorView::Refused)
        } else {
            let listed = PublishView {
                broadcasts: put(before.broadcasts, broadcast_id, list(catalog, r)),
                next_track: (number + 1) as usize,
                ..before
            };
            &&& o == asked
            &&& match res {
                Ok(id) => is_vacant(before.tracks, id) && after == (PublishView {
                    tracks: put(
                        before.tracks,
                        id,
                        SlimTrack { broadcast_id, track: number, open: false, mode: None },
                    ),
                    ..listed
                }),
                Err(e) => e == PublishErrorView::NoIndex && !has_vacancy(before.tracks) && after
                    == listed,
            }
        },
    }
}

/// What becomes of a group that is to be opened by itself. The track commits to such groups once
/// the group was asked for.
pub open spec fn group_opened(
    before: PublishView,
    out: OutboxView,
    track_id: Id,
    sequence: u64,
    after: PublishView,
    o: OutboxView,
    res: Result<Id, PublishErrorView>,
) -> bool {
    let number = before.next_group;
    match at(before.tracks, track_id) {
        None => after == before && o == out && res == Err::<Id, _>(PublishErrorView::TrackNotFound),
        Some(t) => {
            let asked = out.with(
                ActionView::OpenGroup { track: t.track, group: number, sequence },
            );
            if t.mode == Some(GroupMode::Broadcast) {
                after == before && o == out && res == Err::<Id, _>(PublishErrorView::ModeConflict)
            } else if number == usize::MAX {
                after == before && o == out && res == Err::<Id, _>(PublishErrorView::NoIndex)
            } else if out.refuses() {
                after == before && o == asked && res == Err::<Id, _>(PublishErrorView::Refused)
            } else {
                let committed = PublishView {
                    tracks: put(
                        before.tracks,
                        track_id,
                        SlimTrack { mode: Some(GroupMode::PerTrack), ..t },
                    ),
                    next_group: (number + 1) as usize,
                    ..before
                };
                &&& o == asked
                &&& match res {
                    Ok(id) => is_vacant(before.groups, id) && after == (PublishView {
                        groups: put(before.groups, id, SlimGroup { group: number, track_id }),
                        ..committed
                    }),
                    Err(e) => e == PublishErrorView::NoIndex && !has_vacancy(before.groups)
                        && after == committed,
                }
            }
        },
    }
}

/// What came from outside, as a contract speaks of it.
pub open spec fn outside<T>(res: Result<T, String>) -> Result<T, Seq<char>> {
    match res {
        Ok(v) => Ok(v),
        Err(m) => Err(m@),
    }
}

/// What becomes of a broadcast that is to be created, once the transport has its catalog tracks.
pub open spec fn broadcast_created(
    before: PublishView,
    catalog: Result<(), Seq<char>>,
    after: PublishView,
    res: Result<Id, PublishErrorView>,
) -> bool {
    match res {
        Ok(id) => {
            &&& catalog is Ok
            &&& is_vacant(before.broadcasts, id)
            &&& after == (PublishView {
                broadcasts: put(
                    before.broadcasts,
                    id,
                    HangCatalogView { renditions: Seq::empty() },
                ),
                ..before
            })
        },
        Err(e) => {
            &&& after == before
            &&& match catalog {
                Err(m) => e == PublishErrorView::Moq(m),
                Ok(()) => e == PublishErrorView::NoIndex && !has_vacancy(before.broadcasts),
            }
        },
    }
}

/// What becomes of a media decoder that is to be registered: whether its format is known, and
/// whether it could be made.
pub open spec fn media_registered(
    before: PublishView,
    broadcast: Id,
    format: Seq<char>,
    known: bool,
    decoder: Result<(), Seq<char>>,
    after: PublishView,
    res: Result<Id, PublishErrorView>,
) -> bool {
    match res {
        Ok(id) => {
            &&& at(before.broadcasts, broadcast) is Some
            &&& known
            &&& decoder is Ok
            &&& is_vacant(before.media, id)
            &&& after == (PublishView { media: put(before.media, id, ()), ..before })
        },
        Err(e) => {
            &&& after == before
            &&& e == if at(before.broadcasts, broadcast) is None {
                PublishErrorView::BroadcastNotFound
            } else if !known {
                PublishErrorView::UnknownFormat(format)
            } else {
                match decoder {
                    Err(m) => PublishErrorView::InitFailed(m),
                    Ok(()) => PublishErrorView::NoIndex,
                }
            }
            &&& (at(before.broadcasts, broadcast) is Some && known && decoder is Ok)
                ==> !has_vacancy(before.media)
        },
    }
}

/// What stands behind a handle is the same before and after it is looked at.
proof fn lemma_catalog_at(broadcasts: Seq<Option<HangCatalog>>, id: Id)
    ensures
        at(broadcasts.map_values(|c: Option<HangCatalog>| catalog_view(c)), id) == catalog_view(
            at(broadcasts, id),
        ),
{
}

impl Publish {
    /// Nothing is published.
    pub fn new() -> (p: Self)
        ensures
            p@ == PublishView::empty(),
    {
        let p = Publish {
            broadcasts: NonZeroSlab::new(),
            media: NonZeroSlab::new(),
            tracks: NonZeroSlab::new(),
            groups: NonZeroSlab::new(),
            next_track: 0,
            next_group: 0,
        };
        assert(p@.broadcasts =~= Seq::empty());
        p
    }

    /// Creates a broadcast, once the transport has its catalog tracks.
    pub fn create(&mut self, catalog: Result<(), String>) -> (res: Result<Id, PublishError>)
        ensures
            broadcast_created(old(self)@, outside(catalog), final(self)@, done(res)),
    {
        match catalog {
            Ok(()) => {},
            Err(e) => {
                return Err(PublishError::Moq(e));
            },
        }
        let ghost had = self.broadcasts@;
        let empty = HangCatalog { renditions: Vec::new() };
        assert(empty@.renditions =~= Seq::empty());
        match self.broadcasts.insert(empty) {
            Some(id) => {
                proof {
                    lemma_catalog_at(had, id);
                    assert(self@.broadcasts =~= put(old(self)@.broadcasts, id, empty@));
                }
                Ok(id)
            },
            None => {
                proof {
                    if has_vacancy(old(self)@.broadcasts) && had.len() >= u32::MAX {
                        let i = choose|i: int|
                            0 <= i < u32::MAX && i < old(self)@.broadcasts.len() && (
                            #[trigger] old(self)@.broadcasts[i]) is None;
                        assert(had[i] is None);
                    }
                }
                Err(PublishError::NoIndex)
            },
        }
    }

    /// The catalog of a broadcast.
    pub fn get(&self, id: Id) -> (res: Result<&HangCatalog, PublishError>)
        ensures
            match at(self@.broadcasts, id) {
                Some(c) => res matches Ok(x) && x@ == c,
                None => res matches Err(e) && e@ == PublishErrorView::BroadcastNotFound,
            },
    {
        proof {
            lemma_catalog_at(self.broadcasts@, id);
        }
        match self.broadcasts.get(id) {
            Some(c) => Ok(c),
            None => Err(PublishError::BroadcastNotFound),
        }
    }

    /// Leaves the groups of tracks of a broadcast.
    fn reap_groups(&mut self, broadcast: Id)
        ensures
            final(self)@ == (PublishView {
                groups: without_groups_of(old(self)@.groups, old(self)@.tracks, broadcast),
                ..old(self)@
            }),
    {
        let mut i: usize = 0;
        while i < self.groups.entries.len()
            invariant
                i <= self.groups.entries@.len(),
                self.groups.entries@.len() == old(self).groups.entries@.len(),
                self@ == (PublishView { groups: self@.groups, ..old(self)@ }),
                forall|j: int|
                    0 <= j < i ==> (#[trigger] self@.groups[j]) == without_groups_of(
                        old(self)@.groups,
                        old(self)@.tracks,
                        broadcast,
                    )[j],
                forall|j: int|
                    i <= j < self.groups.entries@.len() ==> (#[trigger] self@.groups[j])
                        == old(self)@.groups[j],
            decreases self.groups.entries@.len() - i,
        {
            let owned = match &self.groups.entries[i] {
                Some(g) => match self.tracks.get(g.track_id) {
                    Some(t) => t.broadcast_id.0 == broadcast.0,
                    None => false,
                },
                None => false,
            };
            if owned {
                self.groups.entries.set(i, None);
            }
            i = i + 1;
        }
        assert(self@.groups =~= without_groups_of(
            old(self)@.groups,
            old(self)@.tracks,
            broadcast,
        ));
    }

    /// Leaves the tracks of a broadcast.
    fn reap_tracks(&mut self, broadcast: Id)
        ensures
            final(self)@ == (PublishView {
                tracks: without_broadcast(old(self)@.tracks, broadcast),
                ..old(self)@
            }),
    {
        let mut i: usize = 0;
        while i < self.tracks.entries.len()
            invariant
                i <= self.tracks.entries@.len(),
                self.tracks.entries@.len() == old(self).tracks.entries@.len(),
                self@ == (PublishView { tracks: self@.tracks, ..old(self)@ }),
                forall|j: int|
                    0 <= j < i ==> (#[trigger] self@.tracks[j]) == without_broadcast(
                        old(self)@.tracks,
                        broadcast,
                    )[j],
                forall|j: int|
                    i <= j < self.tracks.entries@.len() ==> (#[trigger] self@.tracks[j])
                        == old(self)@.tracks[j],
            decreases self.tracks.entries@.len() - i,
        {
            let owned = match &self.tracks.entries[i] {
                Some(t) => t.broadcast_id.0 == broadcast.0,
                None => false,
            };
            if owned {
                self.tracks.entries.set(i, None);
            }
            i = i + 1;
        }
        assert(self@.tracks =~= without_broadcast(old(self)@.tracks, broadcast));
    }

    /// Closes a broadcast, its tracks, and the groups that were opened on them.
    pub fn close(&mut self, broadcast: Id) -> (res: Result<(), PublishError>)
        ensures
            (final(self)@, done(res)) == old(self)@.close(broadcast),
    {
        let ghost had = self.broadcasts@;
        proof {
            lemma_catalog_at(had, broadcast);
        }
        if self.broadcasts.remove(broadcast).is_none() {
            return Err(PublishError::BroadcastNotFound);
        }
        assert(self@.broadcasts =~= take(old(self)@.broadcasts, broadcast));
        self.reap_groups(broadcast);
        self.reap_tracks(broadcast);
        Ok(())
    }
}

impl Publish {
    /// Registers a media decoder of a broadcast: whether its format is known, and whether the
    /// decoder could be made.
    pub fn media_ordered(
        &mut self,
        broadcast: Id,
        format: &str,
        known: bool,
        decoder: Result<(), String>,
    ) -> (res: Result<Id, PublishError>)
        ensures
            media_registered(
                old(self)@,
                broadcast,
                format@,
                known,
                outside(decoder),
                final(self)@,
                done(res),
            ),
    {
        self.get(broadcast)?;
        if !known {
            return Err(PublishError::UnknownFormat(format.to_owned()));
        }
        match decoder {
            Ok(()) => {},
            Err(e) => {
                return Err(PublishError::InitFailed(e));
            },
        }
        match self.media.insert(()) {
            Some(id) => Ok(id),
            None => Err(PublishError::NoIndex),
        }
    }

    /// Judges what a media decoder made of a frame: how many bytes it left, or why it failed.
    pub fn media_frame(&self, media: Id, decoded: Result<usize, String>) -> (res: Result<
        (),
        PublishError,
    >)
        ensures
            done(res) == self@.media_frame(media, outside(decoded)),
    {
        if self.media.get(media).is_none() {
            return Err(PublishError::MediaNotFound);
        }
        match decoded {
            Ok(left) => if left > 0 {
                Err(PublishError::DecodeFailed("buffer was not fully consumed".to_owned()))
            } else {
                Ok(())
            },
            Err(e) => Err(PublishError::DecodeFailed(e)),
        }
    }

    /// Frees the handle of a media decoder, and judges how it finished.
    pub fn media_close(&mut self, media: Id, finished: Result<(), String>) -> (res: Result<
        (),
        PublishError,
    >)
        ensures
            (final(self)@, done(res)) == old(self)@.media_close(media, outside(finished)),
    {
        if self.media.remove(media).is_none() {
            return Err(PublishError::MediaNotFound);
        }
        match finished {
            Ok(()) => Ok(()),
            Err(e) => Err(PublishError::DecodeFailed(e)),
        }
    }

    /// Create a track on the given broadcast and update the catalog.
    ///
    /// The codec string is parsed to determine whether the track is video or
    /// audio. The init segment, if provided, is stored on the catalog as a
    /// CMAF container so consumers can decode the fragments without inspecting
    /// the wire data.
    pub fn track_create(
        &mut self,
        broadcast_id: Id,
        config: &TrackConfig,
        parsed: ParsedCodec,
        out: &mut Outbox,
    ) -> (res: Result<Id, PublishError>)
        ensures
            track_created(
                old(self)@,
                old(out)@,
                broadcast_id,
                *config,
                parsed,
                final(self)@,
                final(out)@,
                done(res),
            ),
    {
        let rendition = build_rendition(config, parsed)?;
        let ghost had = self.broadcasts@;
        proof {
            lemma_catalog_at(had, broadcast_id);
        }
        if self.broadcasts.get(broadcast_id).is_none() {
            return Err(PublishError::BroadcastNotFound);
        }
        let track: usize = self.next_track;
        if track == usize::MAX {
            return Err(PublishError::NoIndex);
        }
        if !out.request(
            Action::CreateTrackOn { broadcast: broadcast_id.0, track, name: config.name.clone() },
        ) {
            return Err(PublishError::Refused);
        }
        self.next_track = track + 1;
        let i: usize = broadcast_id.0 as usize - 1;
        if let Some(mut catalog) = self.broadcasts.entries[i].take() {
            list_in(&mut catalog, rendition);
            self.broadcasts.entries.set(i, Some(catalog));
            assert(self@.broadcasts =~= put(old(self)@.broadcasts, broadcast_id, catalog@));
        }
        match self.tracks.insert(SlimTrack { broadcast_id, track, open: false, mode: None }) {
            Some(id) => Ok(id),
            None => Err(PublishError::NoIndex),
        }
    }

    /// Whether a track of the broadcast has committed to groups of its own.
    fn has_conflict(&self, broadcast: Id) -> (b: bool)
        ensures
            b == conflicts(self@.tracks, broadcast),
    {
        let mut i: usize = 0;
        while i < self.tracks.entries.len()
            invariant
                i <= self.tracks.entries@.len(),
                forall|j: int|
                    0 <= j < i ==> !((#[trigger] self@.tracks[j]) is Some
                        && self@.tracks[j]->Some_0.broadcast_id == broadcast
                        && self@.tracks[j]->Some_0.mode == Some(GroupMode::PerTrack)),
            decreases self.tracks.entries@.len() - i,
        {
            if let Some(t) = &self.tracks.entries[i] {
                if t.broadcast_id == broadcast && matches!(t.mode, Some(GroupMode::PerTrack)) {
                    assert(self@.tracks[i as int] is Some);
                    return true;
                }
            }
            i = i + 1;
        }
        false
    }

    /// Start a new group on every slim track in the broadcast with the same
    /// sequence number, finishing any previously open group first.
    ///
    /// The caller drives synchronization across tracks by asserting that each `sequence` boundary
    /// is aligned.
    ///
    /// If any track in the broadcast has already been used with [`Self::group_open`], no group is
    /// created. On other failures, the broadcast is left in a partially advanced state: some
    /// tracks may have new groups while others do not.
    pub fn broadcast_start_group(
        &mut self,
        broadcast_id: Id,
        sequence: u64,
        out: &mut Outbox,
    ) -> (res: Result<(), PublishError>)
        ensures
            (final(self)@, final(out)@, done(res)) == old(self)@.start_group(
                old(out)@,
                broadcast_id,
                sequence,
            ),
    {
        self.get(broadcast_id)?;
        if self.has_conflict(broadcast_id) {
            return Err(PublishError::ModeConflict);
        }
        let mut i: usize = 0;
        while i < self.tracks.entries.len()
            invariant
                i <= self.tracks.entries@.len(),
                self@ == (PublishView { tracks: self@.tracks, ..old(self)@ }),
                at(old(self)@.broadcasts, broadcast_id) is Some,
                !conflicts(old(self)@.tracks, broadcast_id),
                start_groups(old(self)@.tracks, old(out)@, broadcast_id, sequence, 0)
                    == start_groups(self@.tracks, out@, broadcast_id, sequence, i as nat),
            decreases self.tracks.entries@.len() - i,
        {
            let ghost before = self@.tracks;
            let current: Option<SlimTrack> = self.tracks.entries[i];
            if let Some(mut t) = current {
                if t.broadcast_id == broadcast_id {
                    let was_open = t.open;
                    t.open = false;
                    self.tracks.entries.set(i, Some(t));
                    if was_open && !out.request(Action::FinishGroup { track: t.track }) {
                        return Err(PublishError::Refused);
                    }
                    if !out.request(Action::CreateGroup { track: t.track, sequence }) {
                        return Err(PublishError::Refused);
                    }
                    t.open = true;
                    t.mode = Some(GroupMode::Broadcast);
                    self.tracks.entries.set(i, Some(t));
                    assert(self@.tracks =~= before.update(i as int, Some(t)));
                }
            }
            i = i + 1;
        }
        Ok(())
    }

    /// Append a frame to the group that all tracks of the broadcast started.
    ///
    /// `broadcast_id` is required for symmetry with [`Self::broadcast_start_group`]
    /// and to defend against the caller passing a track from a different
    /// broadcast.
    pub fn broadcast_write(
        &self,
        broadcast_id: Id,
        track_id: Id,
        data: &[u8],
        out: &mut Outbox,
    ) -> (res: Result<(), PublishError>)
        ensures
            (final(out)@, done(res)) == self@.write(old(out)@, broadcast_id, track_id, data@),
    {
        let track: SlimTrack = match self.tracks.get(track_id) {
            Some(t) => *t,
            None => {
                return Err(PublishError::TrackNotFound);
            },
        };
        if track.broadcast_id != broadcast_id {
            return Err(PublishError::TrackNotFound);
        }
        if !track.open {
            return Err(PublishError::NoActiveGroup);
        }
        if !out.request(Action::WriteFrame { track: track.track, data: slice_to_vec(data) }) {
            return Err(PublishError::Refused);
        }
        Ok(())
    }

    /// Leaves the groups of a track.
    fn reap_groups_of(&mut self, track: Id)
        ensures
            final(self)@ == (PublishView {
                groups: without_track(old(self)@.groups, track),
                ..old(self)@
            }),
    {
        let mut i: usize = 0;
        while i < self.groups.entries.len()
            invariant
                i <= self.groups.entries@.len(),
                self.groups.entries@.len() == old(self).groups.entries@.len(),
                self@ == (PublishView { groups: self@.groups, ..old(self)@ }),
                forall|j: int|
                    0 <= j < i ==> (#[trigger] self@.groups[j]) == without_track(
                        old(self)@.groups,
                        track,
                    )[j],
                forall|j: int|
                    i <= j < self.groups.entries@.len() ==> (#[trigger] self@.groups[j])
                        == old(self)@.groups[j],
            decreases self.groups.entries@.len() - i,
        {
            let owned = match &self.groups.entries[i] {
                Some(g) => g.track_id == track,
                None => false,
            };
            if owned {
                self.groups.entries.set(i, None);
            }
            i = i + 1;
        }
        assert(self@.groups =~= without_track(old(self)@.groups, track));
    }

    /// Close a slim track. Finishes the group that all tracks of the broadcast started (if any)
    /// and reaps any other groups still open against this track.
    pub fn track_close(&mut self, broadcast_id: Id, track_id: Id, out: &mut Outbox) -> (res: Result<
        (),
        PublishError,
    >)
        ensures
            (final(self)@, final(out)@, done(res)) == old(self)@.track_close(
                old(out)@,
                broadcast_id,
                track_id,
            ),
    {
        let track: SlimTrack = match self.tracks.get(track_id) {
            Some(t) => *t,
            None => {
                return Err(PublishError::TrackNotFound);
            },
        };
        if track.broadcast_id != broadcast_id {
            return Err(PublishError::TrackNotFound);
        }
        self.tracks.remove(track_id);
        if track.open && !out.request(Action::FinishGroup { track: track.track }) {
            return Err(PublishError::Refused);
        }
        self.reap_groups_of(track_id);
        if !out.request(Action::FinishTrack { track: track.track }) {
            return Err(PublishError::Refused);
        }
        Ok(())
    }

    /// Open a group on a slim track, whose groups are then opened one by one.
    pub fn group_open(&mut self, track_id: Id, sequence: u64, out: &mut Outbox) -> (res: Result<
        Id,
        PublishError,
    >)
        ensures
            group_opened(
                old(self)@,
                old(out)@,
                track_id,
                sequence,
                final(self)@,
                final(out)@,
                done(res),
            ),
    {
        let mut track: SlimTrack = match self.tracks.get(track_id) {
            Some(t) => *t,
            None => {
                return Err(PublishError::TrackNotFound);
            },
        };
        if matches!(track.mode, Some(GroupMode::Broadcast)) {
            return Err(PublishError::ModeConflict);
        }
        let group: usize = self.next_group;
        if group == usize::MAX {
            return Err(PublishError::NoIndex);
        }
        if !out.request(Action::OpenGroup { track: track.track, group, sequence }) {
            return Err(PublishError::Refused);
        }
        self.next_group = group + 1;
        track.mode = Some(GroupMode::PerTrack);
        self.tracks.replace(track_id, track);
        match self.groups.insert(SlimGroup { group, track_id }) {
            Some(id) => Ok(id),
            None => Err(PublishError::NoIndex),
        }
    }

    /// Append a frame to a group that was opened by itself.
    pub fn group_write(&self, group_id: Id, data: &[u8], out: &mut Outbox) -> (res: Result<
        (),
        PublishError,
    >)
        ensures
            (final(out)@, done(res)) == self@.group_write(old(out)@, group_id, data@),
    {
        let group: usize = match self.groups.get(group_id) {
            Some(g) => g.group,
            None => {
                return Err(PublishError::GroupNotFound);
            },
        };
        if !out.request(Action::WriteGroup { group, data: slice_to_vec(data) }) {
            return Err(PublishError::Refused);
        }
        Ok(())
    }

    /// Finish a group that was opened by itself, and free its handle.
    pub fn group_close(&mut self, group_id: Id, out: &mut Outbox) -> (res: Result<
        (),
        PublishError,
    >)
        ensures
            (final(self)@, final(out)@, done(res)) == old(self)@.group_close(old(out)@, group_id),
    {
        let group: usize = match self.groups.remove(group_id) {
            Some(g) => g.group,
            None => {
                return Err(PublishError::GroupNotFound);
            },
        };
        if !out.request(Action::CloseGroup { group }) {
            return Err(PublishError::Refused);
        }
        Ok(())
    }
}

} // verus!
