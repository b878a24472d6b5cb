//! Publishing fragmented MP4 as it is: every fragment of a track becomes a frame.

use crate::mux::catalog::{AudioConfig, VideoConfig};
use crate::mux::config::{audio_config, init_audio, init_video, video_config};
use crate::mux::fragment::{Fragment, FragmentView, SampleInfo};
use crate::mux::mp4::{Moov, MoovView};
use crate::mux::outbox::{Action, ActionView, Outbox, OutboxView};
use crate::mux::parser::{
    decode_all, imported, Fmp4Parser, Fmp4Sink, ImportError, ImportErrorView, ParserView,
};
use crate::mux::types::{MuxError, MuxErrorView, TrackKind};
use vstd::prelude::*;

verus! {

/// The largest time that can be counted, in microseconds: 62 bits.
pub const MAX_TIME: u64 = 0x3fff_ffff_ffff_ffff;

/// A track.
#[derive(Debug, Clone, Copy, PartialEq, Eq, Structural)]
pub struct Fmp4Track {
    /// Its identifier in the file.
    pub id: u32,
    pub kind: TrackKind,
    /// The number by which the transport knows it.
    pub track: usize,
    /// Whether a group is open.
    pub open: bool,
    /// The minimum buffer required for the track, in microseconds.
    pub jitter: Option<u64>,
    /// The last timestamp seen for this track, in microseconds.
    pub last_timestamp: Option<u64>,
    /// The minimum duration between frames for this track, in microseconds.
    pub min_duration: Option<u64>,
}

/// How a track is described.
#[derive(Debug, Clone)]
pub enum Config {
    Video(VideoConfig),
    Audio(AudioConfig),
}

/// What the description says.
pub enum ConfigView {
    Video(VideoConfig<Seq<char>, Seq<u8>>),
    Audio(AudioConfig<Seq<char>, Seq<u8>>),
}

impl View for Config {
    type V = ConfigView;

    open spec fn view(&self) -> ConfigView {
        match self {
            Config::Video(c) => ConfigView::Video(c@),
            Config::Audio(c) => ConfigView::Audio(c@),
        }
    }
}

impl ConfigView {
    /// The description with another jitter, in milliseconds.
    pub open spec fn with_jitter(self, ms: u64) -> ConfigView {
        match self {
            ConfigView::Video(c) => ConfigView::Video(VideoConfig { jitter: Some(ms), ..c }),
            ConfigView::Audio(c) => ConfigView::Audio(AudioConfig { jitter: Some(ms), ..c }),
        }
    }
}

/// A track in the catalog, by its number.
#[derive(Debug, Clone)]
pub struct Listed {
    pub track: usize,
    pub config: Config,
}

/// What such a track is.
pub struct ListedView {
    pub track: usize,
    pub config: ConfigView,
}

impl View for Listed {
    type V = ListedView;

    open spec fn view(&self) -> ListedView {
        ListedView { track: self.track, config: self.config@ }
    }
}

/// Where the tracks of a file are published.
#[derive(Debug, Clone)]
pub struct Fmp4Inner {
    /// The tracks, each identifier once.
    pub tracks: Vec<Fmp4Track>,
    /// The catalog.
    pub catalog: Vec<Listed>,
    /// The number of the next track.
    pub next_track: usize,
    /// Whether the caller assigns the groups.
    pub explicit_groups: bool,
}

/// What the tracks of a file are.
pub struct Fmp4View {
    pub tracks: Seq<Fmp4Track>,
    pub catalog: Seq<ListedView>,
    pub next_track: usize,
    pub explicit_groups: bool,
}

/// A time in microseconds; none if time is not counted or 62 bits do not hold it.
pub open spec fn from_scale(pts: u64, timescale: u64) -> Option<u64> {
    if timescale == 0 {
        None
    } else {
        let t = pts as nat * 1_000_000 / timescale as nat;
        if t <= MAX_TIME {
            Some(t as u64)
        } else {
            None
        }
    }
}

/// A time in microseconds.
pub fn timestamp(pts: u64, timescale: u64) -> (t: Option<u64>)
    ensures
        t == from_scale(pts, timescale),
{
    if timescale == 0 {
        return None;
    }
    assert(pts as nat * 1_000_000 / timescale as nat <= pts as nat * 1_000_000) by (nonlinear_arith)
        requires
            timescale > 0,
    ;
    let t: u128 = pts as u128 * 1_000_000 / timescale as u128;
    if t <= MAX_TIME as u128 {
        Some(t as u64)
    } else {
        None
    }
}

/// The times of the samples of a fragment, so far.
pub struct Times {
    pub track: Fmp4Track,
    pub min: Option<u64>,
    pub max: Option<u64>,
}

impl Times {
    /// A sample is seen at a time: the earliest and the latest, and the least distance from one
    /// sample to the next where it is not earlier.
    pub open spec fn see(self, t: u64) -> Times {
        let d = match self.track.last_timestamp {
            Some(last) => if last <= t {
                Some((t - last) as u64)
            } else {
                None
            },
            None => None,
        };
        let least = match self.track.min_duration {
            Some(m) => m,
            None => MAX_TIME,
        };
        Times {
            track: Fmp4Track {
                last_timestamp: Some(t),
                min_duration: match d {
                    Some(d) => if d < least {
                        Some(d)
                    } else {
                        self.track.min_duration
                    },
                    None => self.track.min_duration,
                },
                ..self.track
            },
            min: match self.min {
                Some(m) => if t <= m {
                    Some(t)
                } else {
                    Some(m)
                },
                None => Some(t),
            },
            max: match self.max {
                Some(m) => if t >= m {
                    Some(t)
                } else {
                    Some(m)
                },
                None => Some(t),
            },
        }
    }

    /// From sample `i` on, the samples are seen, until a time cannot be counted.
    pub open spec fn see_all(self, samples: Seq<SampleInfo>, i: nat) -> (Times, bool)
        decreases samples.len() - i,
    {
        if i >= samples.len() {
            (self, true)
        } else {
            match from_scale(samples[i as int].pts, samples[i as int].timescale) {
                None => (self, false),
                Some(t) => self.see(t).see_all(samples, i + 1),
            }
        }
    }
}

/// The buffer that a fragment requires: what lies between its samples, and one more; none if it
/// has no samples or no distance is known yet.
pub open spec fn required(times: Times) -> Option<nat> {
    match (times.min, times.max, times.track.min_duration) {
        (Some(min), Some(max), Some(d)) => Some((max - min + d) as nat),
        _ => None,
    }
}

/// A frame is written: to a new group at a keyframe, to the open one otherwise, and to the one
/// that the caller started where the caller assigns the groups. If the transport refuses, no group
/// stays open.
pub open spec fn write_frame(
    t: Fmp4Track,
    out: OutboxView,
    explicit: bool,
    keyframe: bool,
    data: Seq<u8>,
) -> (Fmp4Track, OutboxView, Result<(), ImportErrorView>) {
    let closed = Fmp4Track { open: false, ..t };
    let refused = Err(ImportErrorView::Mux(MuxErrorView::Refused));
    let finish = ActionView::FinishGroup { track: t.track };
    let append = ActionView::AppendGroup { track: t.track };
    let write = ActionView::WriteFrame { track: t.track, data };
    if explicit || !keyframe {
        if !t.open {
            (
                t,
                out,
                Err(
                    if explicit {
                        ImportErrorView::NoActiveGroup
                    } else {
                        ImportErrorView::NoKeyframe
                    },
                ),
            )
        } else if out.refuses() {
            (closed, out.with(write), refused)
        } else {
            (t, out.with(write), Ok(()))
        }
    } else if t.open && out.refuses() {
        (closed, out.with(finish), refused)
    } else {
        let o1 = if t.open {
            out.with(finish)
        } else {
            out
        };
        let o2 = o1.with(append);
        if o1.refuses() {
            (closed, o2, refused)
        } else if o2.refuses() {
            (closed, o2.with(write), refused)
        } else {
            (Fmp4Track { open: true, ..t }, o2.with(write), Ok(()))
        }
    }
}

/// The place of the track with an identifier, from place `i` on.
pub open spec fn place_of(tracks: Seq<Fmp4Track>, id: u32, i: nat) -> Option<nat>
    decreases tracks.len() - i,
{
    if i >= tracks.len() {
        None
    } else if tracks[i as int].id == id {
        Some(i)
    } else {
        place_of(tracks, id, i + 1)
    }
}

/// The place of a track in the catalog, from place `i` on.
pub open spec fn listed_at(catalog: Seq<ListedView>, track: usize, i: nat) -> Option<nat>
    decreases catalog.len() - i,
{
    if i >= catalog.len() {
        None
    } else if catalog[i as int].track == track {
        Some(i)
    } else {
        listed_at(catalog, track, i + 1)
    }
}

impl Fmp4View {
    /// A track is there: it takes the place of one with the same identifier.
    pub open spec fn with_track(self, t: Fmp4Track) -> Fmp4View {
        Fmp4View {
            tracks: match place_of(self.tracks, t.id, 0) {
                Some(i) => self.tracks.update(i as int, t),
                None => self.tracks.push(t),
            },
            ..self
        }
    }

    /// A track is announced: it is created under a name of its own, described in the catalog, and
    /// has no group yet.
    pub open spec fn init(
        self,
        out: OutboxView,
        kind: TrackKind,
        raw: Seq<u8>,
        moov: MoovView,
        index: nat,
    ) -> (Fmp4View, OutboxView, Result<(), ImportErrorView>) {
        let track = self.next_track;
        let asked = out.with(ActionView::UniqueTrack { track, suffix: ".m4s"@ });
        if track == usize::MAX {
            (self, out, Err(ImportErrorView::TooManyTracks))
        } else if out.refuses() {
            (self, asked, Err(ImportErrorView::Mux(MuxErrorView::Refused)))
        } else {
            let created = Fmp4View { next_track: (track + 1) as usize, ..self };
            let config = match kind {
                TrackKind::Video => match video_config(raw, moov, index) {
                    Ok(c) => Ok(ConfigView::Video(c)),
                    Err(e) => Err(e),
                },
                TrackKind::Audio => match audio_config(raw, moov, index) {
                    Ok(c) => Ok(ConfigView::Audio(c)),
                    Err(e) => Err(e),
                },
            };
            match config {
                Err(e) => (created, asked, Err(e)),
                Ok(config) => (
                    Fmp4View {
                        catalog: self.catalog.push(ListedView { track, config }),
                        ..created
                    }.with_track(
                        Fmp4Track {
                            id: moov.trak[index as int].track_id,
                            kind,
                            track,
                            open: false,
                            jitter: None,
                            last_timestamp: None,
                            min_duration: None,
                        },
                    ),
                    asked,
                    Ok(()),
                ),
            }
        }
    }

    /// The jitter of a track, and of its description, is lowered to what a fragment requires.
    pub open spec fn lower_jitter(self, i: int, jitter: nat) -> (
        Fmp4View,
        Result<(), ImportErrorView>,
    ) {
        let t = self.tracks[i];
        let lower = match t.jitter {
            Some(j) => jitter < j,
            None => jitter < MAX_TIME,
        };
        if jitter > MAX_TIME {
            (self, Err(ImportErrorView::TimeOverflow))
        } else if !lower {
            (self, Ok(()))
        } else {
            let lowered = Fmp4View {
                tracks: self.tracks.update(i, Fmp4Track { jitter: Some(jitter as u64), ..t }),
                ..self
            };
            match listed_at(self.catalog, t.track, 0) {
                None => (lowered, Err(ImportErrorView::MissingConfig(t.kind))),
                Some(k) => (
                    Fmp4View {
                        catalog: self.catalog.update(
                            k as int,
                            ListedView {
                                config: self.catalog[k as int].config.with_jitter(
                                    (jitter / 1000) as u64,
                                ),
                                ..self.catalog[k as int]
                            },
                        ),
                        ..lowered
                    },
                    Ok(()),
                ),
            }
        }
    }

    /// A fragment is published: its times are noted, it is written as one frame, and the jitter is
    /// lowered.
    pub open spec fn fragment(self, out: OutboxView, f: FragmentView) -> (
        Fmp4View,
        OutboxView,
        Result<(), ImportErrorView>,
    ) {
        match place_of(self.tracks, f.track_id, 0) {
            None => (self, out, Err(ImportErrorView::UnknownTrack)),
            Some(p) => {
                let i = p as int;
                let (times, counted) = Times {
                    track: self.tracks[i],
                    min: None,
                    max: None,
                }.see_all(f.samples, 0);
                let seen = Fmp4View { tracks: self.tracks.update(i, times.track), ..self };
                if !counted {
                    (seen, out, Err(ImportErrorView::TimeOverflow))
                } else {
                    let (t, o, res) = write_frame(
                        times.track,
                        out,
                        self.explicit_groups,
                        f.keyframe,
                        f.data,
                    );
                    let wrote = Fmp4View { tracks: self.tracks.update(i, t), ..self };
                    if res is Err {
                        (wrote, o, res)
                    } else {
                        match required(times) {
                            None => (wrote, o, Ok(())),
                            Some(jitter) => {
                                let (next, res) = wrote.lower_jitter(i, jitter);
                                (next, o, res)
                            },
                        }
                    }
                }
            },
        }
    }

    /// From track `i` on, every track gets a new group with a sequence number, until one is
    /// refused.
    pub open spec fn start_groups(self, out: OutboxView, sequence: u64, i: nat) -> (
        Fmp4View,
        OutboxView,
        Result<(), ImportErrorView>,
    )
        decreases self.tracks.len() - i,
    {
        if i >= self.tracks.len() {
            (self, out, Ok(()))
        } else {
            let t = self.tracks[i as int];
            let refused = Err(ImportErrorView::Mux(MuxErrorView::Refused));
            let closed = Fmp4View {
                tracks: self.tracks.update(i as int, Fmp4Track { open: false, ..t }),
                ..self
            };
            let o1 = if t.open {
                out.with(ActionView::FinishGroup { track: t.track })
            } else {
                out
            };
            let o2 = o1.with(ActionView::CreateGroup { track: t.track, sequence });
            if t.open && out.refuses() {
                (closed, o1, refused)
            } else if o1.refuses() {
                (closed, o2, refused)
            } else {
                Fmp4View {
                    tracks: self.tracks.update(i as int, Fmp4Track { open: true, ..t }),
                    ..self
                }.start_groups(o2, sequence, i + 1)
            }
        }
    }

    /// From track `i` on, every track is finished, with the group that is open, until one is
    /// refused.
    pub open spec fn finish(self, out: OutboxView, i: nat) -> (
        Fmp4View,
        OutboxView,
        Result<(), ImportErrorView>,
    )
        decreases self.tracks.len() - i,
    {
        if i >= self.tracks.len() {
            (self, out, Ok(()))
        } else {
            let t = self.tracks[i as int];
            let refused = Err(ImportErrorView::Mux(MuxErrorView::Refused));
            let closed = Fmp4View {
                tracks: self.tracks.update(i as int, Fmp4Track { open: false, ..t }),
                ..self
            };
            let o1 = if t.open {
                out.with(ActionView::FinishGroup { track: t.track })
            } else {
                out
            };
            let o2 = o1.with(ActionView::FinishTrack { track: t.track });
            if t.open && out.refuses() {
                (closed, o1, refused)
            } else if o1.refuses() {
                (closed, o2, refused)
            } else {
                closed.finish(o2, i + 1)
            }
        }
    }
}

impl Fmp4Inner {
    /// What the tracks are.
    pub open spec fn view(&self) -> Fmp4View {
        Fmp4View {
            tracks: self.tracks@,
            catalog: self.catalog@.map_values(|l: Listed| l@),
            next_track: self.next_track,
            explicit_groups: self.explicit_groups,
        }
    }

    /// No track yet.
    pub fn new(explicit_groups: bool) -> (inner: Self)
        ensures
            inner@ == (Fmp4View {
                tracks: Seq::empty(),
                catalog: Seq::empty(),
                next_track: 0,
                explicit_groups,
            }),
    {
        let inner = Fmp4Inner {
            tracks: Vec::new(),
            catalog: Vec::new(),
            next_track: 0,
            explicit_groups,
        };
        assert(inner@.catalog =~= Seq::empty());
        inner
    }

    /// Finds the place of a track.
    fn place(&self, id: u32) -> (place: Option<usize>)
        ensures
            match place {
                Some(i) => place_of(self@.tracks, id, 0) == Some(i as nat) && i < self@.tracks.len(),
                None => place_of(self@.tracks, id, 0) is None,
            },
    {
        let mut i: usize = 0;
        while i < self.tracks.len()
            invariant
                i <= self.tracks@.len(),
                place_of(self@.tracks, id, 0) == place_of(self@.tracks, id, i as nat),
            decreases self.tracks@.len() - i,
        {
            if self.tracks[i].id == id {
                return Some(i);
            }
            i = i + 1;
        }
        None
    }

    /// Lowers the jitter of a description.
    fn lower_jitter(&mut self, i: usize, jitter: u128) -> (res: Result<(), ImportError>)
        requires
            i < old(self)@.tracks.len(),
        ensures
            (final(self)@, imported(res)) == old(self)@.lower_jitter(i as int, jitter as nat),
    {
        if jitter > MAX_TIME as u128 {
            return Err(ImportError::TimeOverflow);
        }
        let micros: u64 = jitter as u64;
        let track: usize = self.tracks[i].track;
        let lower = micros < self.tracks[i].jitter.unwrap_or(MAX_TIME);
        if !lower {
            return Ok(());
        }
        let mut t: Fmp4Track = self.tracks[i];
        t.jitter = Some(micros);
        self.tracks.set(i, t);
        let mut k: usize = 0;
        let ghost before = self@;
        while k < self.catalog.len()
            invariant
                k <= self.catalog@.len(),
                self@ == before,
                i < old(self)@.tracks.len(),
                t == (Fmp4Track { jitter: Some(micros), ..old(self)@.tracks[i as int] }),
                track == t.track,
                before == (Fmp4View {
                    tracks: old(self)@.tracks.update(i as int, t),
                    ..old(self)@
                }),
                micros <= MAX_TIME,
                micros == jitter,
                lower,
                lower == match old(self)@.tracks[i as int].jitter {
                    Some(j) => micros < j,
                    None => micros < MAX_TIME,
                },
                listed_at(before.catalog, track, 0) == listed_at(before.catalog, track, k as nat),
            decreases self.catalog@.len() - k,
        {
            if self.catalog[k].track == track {
                let ghost had = self.catalog@;
                let ms: u64 = micros / 1000;
                let mut listed = self.catalog.remove(k);
                let ghost one = listed@;
                listed.config = match listed.config {
                    Config::Video(c) => Config::Video(
                        VideoConfig {
                            codec: c.codec,
                            description: c.description,
                            coded_width: c.coded_width,
                            coded_height: c.coded_height,
                            bitrate: c.bitrate,
                            framerate: c.framerate,
                            container: c.container,
                            jitter: Some(ms),
                        },
                    ),
                    Config::Audio(c) => Config::Audio(
                        AudioConfig {
                            codec: c.codec,
                            description: c.description,
                            sample_rate: c.sample_rate,
                            channel_count: c.channel_count,
                            bitrate: c.bitrate,
                            container: c.container,
                            jitter: Some(ms),
                        },
                    ),
                };
                self.catalog.insert(k, listed);
                assert(listed@ == (ListedView { config: one.config.with_jitter(ms), ..one }));
                assert(self.catalog@ =~= had.update(k as int, listed));
                assert(self@.catalog =~= before.catalog.update(k as int, listed@));
                return Ok(());
            }
            k = k + 1;
        }
        Err(ImportError::MissingConfig(t.kind))
    }
}

/// Whether a track has the number.
pub open spec fn numbered(tracks: Seq<Fmp4Track>, track: usize) -> bool {
    exists|i: int| 0 <= i < tracks.len() && (#[trigger] tracks[i]).track == track
}

impl Fmp4View {
    /// The tracks are gone from the catalog.
    pub open spec fn unlist(self) -> Fmp4View {
        Fmp4View {
            catalog: self.catalog.filter(|l: ListedView| !numbered(self.tracks, l.track)),
            ..self
        }
    }

    /// A new group on every track, where the caller assigns the groups and there are tracks.
    pub open spec fn start_group(self, out: OutboxView, sequence: u64) -> (
        Fmp4View,
        OutboxView,
        Result<(), ImportErrorView>,
    ) {
        if !self.explicit_groups {
            (self, out, Err(ImportErrorView::NotExplicit))
        } else if self.tracks.len() == 0 {
            (self, out, Err(ImportErrorView::NoTracks))
        } else {
            self.start_groups(out, sequence, 0)
        }
    }
}

impl Fmp4Track {
    /// Finishes the group that is open.
    fn finish_group(&mut self, out: &mut Outbox) -> (res: Result<(), ImportError>)
        ensures
            *final(self) == (Fmp4Track { open: false, ..*old(self) }),
            final(out)@ == if old(self).open {
                old(out)@.with(ActionView::FinishGroup { track: old(self).track })
            } else {
                old(out)@
            },
            imported(res) == if old(self).open && old(out)@.refuses() {
                Err::<(), _>(ImportErrorView::Mux(MuxErrorView::Refused))
            } else {
                Ok(())
            },
    {
        if self.open {
            self.open = false;
            if !out.request(Action::FinishGroup { track: self.track }) {
                return Err(ImportError::Mux(MuxError::Refused));
            }
        }
        Ok(())
    }

    /// Writes a frame.
    fn write(&mut self, explicit: bool, keyframe: bool, data: Vec<u8>, out: &mut Outbox) -> (res:
        Result<(), ImportError>)
        ensures
            (*final(self), final(out)@, imported(res)) == write_frame(
                *old(self),
                old(out)@,
                explicit,
                keyframe,
                data@,
            ),
    {
        if !explicit && keyframe {
            self.finish_group(out)?;
            if !out.request(Action::AppendGroup { track: self.track }) {
                return Err(ImportError::Mux(MuxError::Refused));
            }
        } else if !self.open {
            return Err(
                if explicit {
                    ImportError::NoActiveGroup
                } else {
                    ImportError::NoKeyframe
                },
            );
        }
        self.open = false;
        if !out.request(Action::WriteFrame { track: self.track, data }) {
            return Err(ImportError::Mux(MuxError::Refused));
        }
        self.open = true;
        Ok(())
    }
}

/// The earliest and the latest time of a fragment.
#[derive(Debug, Clone, Copy)]
struct Span {
    min: Option<u64>,
    max: Option<u64>,
}

impl Span {
    closed spec fn times(self, track: Fmp4Track) -> Times {
        Times { track, min: self.min, max: self.max }
    }
}

/// Whether the earliest time is not after the latest, and neither is too large.
pub open spec fn in_order(t: Times) -> bool {
    &&& t.min is Some <==> t.max is Some
    &&& t.min is Some ==> t.min->Some_0 <= t.max->Some_0 <= MAX_TIME
}

impl Fmp4Inner {
    /// Sees the samples of a fragment.
    fn see_all(track: &mut Fmp4Track, samples: &Vec<SampleInfo>) -> (res: (Span, bool))
        ensures
            (res.0.times(*final(track)), res.1) == (Times {
                track: *old(track),
                min: None,
                max: None,
            }).see_all(samples@, 0),
            in_order(res.0.times(*final(track))),
    {
        let mut span = Span { min: None, max: None };
        let ghost start = Times { track: *track, min: None, max: None };
        let mut i: usize = 0;
        while i < samples.len()
            invariant
                i <= samples@.len(),
                start == (Times { track: *old(track), min: None, max: None }),
                start.see_all(samples@, 0) == span.times(*track).see_all(samples@, i as nat),
                in_order(span.times(*track)),
            decreases samples@.len() - i,
        {
            let t: u64 = match timestamp(samples[i].pts, samples[i].timescale) {
                Some(t) => t,
                None => {
                    return (span, false);
                },
            };
            let ghost seen = span.times(*track).see(t);
            span.max = match span.max {
                Some(m) => if t >= m {
                    Some(t)
                } else {
                    Some(m)
                },
                None => Some(t),
            };
            span.min = match span.min {
                Some(m) => if t <= m {
                    Some(t)
                } else {
                    Some(m)
                },
                None => Some(t),
            };
            if let Some(last) = track.last_timestamp {
                if last <= t && t - last < track.min_duration.unwrap_or(MAX_TIME) {
                    track.min_duration = Some(t - last);
                }
            }
            track.last_timestamp = Some(t);
            assert(span.times(*track) == seen);
            i = i + 1;
        }
        (span, true)
    }
}

impl Fmp4Sink for Fmp4Inner {
    type State = Fmp4View;

    open spec fn state(self) -> Fmp4View {
        self@
    }

    open spec fn inits(
        s: Fmp4View,
        out: OutboxView,
        kind: TrackKind,
        raw: Seq<u8>,
        moov: MoovView,
        index: nat,
    ) -> (Fmp4View, OutboxView, Result<(), ImportErrorView>) {
        s.init(out, kind, raw, moov, index)
    }

    open spec fn fragments(s: Fmp4View, out: OutboxView, fragment: FragmentView) -> (
        Fmp4View,
        OutboxView,
        Result<(), ImportErrorView>,
    ) {
        s.fragment(out, fragment)
    }

    fn on_init(
        &mut self,
        kind: TrackKind,
        raw: &[u8],
        moov: &Moov,
        index: usize,
        out: &mut Outbox,
    ) -> (res: Result<(), ImportError>) {
        let track: usize = self.next_track;
        if track == usize::MAX {
            return Err(ImportError::TooManyTracks);
        }
        if !out.request(Action::UniqueTrack { track, suffix: ".m4s".to_owned() }) {
            return Err(ImportError::Mux(MuxError::Refused));
        }
        self.next_track = track + 1;
        let config = match kind {
            TrackKind::Video => match init_video(raw, moov, index) {
                Ok(c) => Config::Video(c),
                Err(e) => {
                    return Err(e);
                },
            },
            TrackKind::Audio => match init_audio(raw, moov, index) {
                Ok(c) => Config::Audio(c),
                Err(e) => {
                    return Err(e);
                },
            },
        };
        let listed = Listed { track, config };
        let ghost had = self@.catalog;
        self.catalog.push(listed);
        assert(self@.catalog =~= had.push(listed@));
        let t = Fmp4Track {
            id: moov.trak[index].track_id,
            kind,
            track,
            open: false,
            jitter: None,
            last_timestamp: None,
            min_duration: None,
        };
        match self.place(t.id) {
            Some(i) => self.tracks.set(i, t),
            None => self.tracks.push(t),
        }
        Ok(())
    }

    fn on_fragment(&mut self, fragment: Fragment, out: &mut Outbox) -> (res: Result<
        (),
        ImportError,
    >) {
        let i: usize = match self.place(fragment.track_id) {
            Some(i) => i,
            None => {
                return Err(ImportError::UnknownTrack);
            },
        };
        let mut track: Fmp4Track = self.tracks[i];
        let (span, counted) = Self::see_all(&mut track, &fragment.samples);
        if !counted {
            self.tracks.set(i, track);
            return Err(ImportError::TimeOverflow);
        }
        let min_duration: Option<u64> = track.min_duration;
        let res = track.write(self.explicit_groups, fragment.keyframe, fragment.data, out);
        self.tracks.set(i, track);
        res?;
        if let (Some(min), Some(max), Some(d)) = (span.min, span.max, min_duration) {
            let jitter: u128 = (max - min) as u128 + d as u128;
            return self.lower_jitter(i, jitter);
        }
        Ok(())
    }
}

/// Converts fMP4/CMAF files into MoQ broadcast streams using CMAF passthrough.
///
/// Fragmented MP4 files are taken apart by track; each fragment of a track, a moof and an mdat,
/// is a frame, as it is. Supported are H.264, H.265, VP8, VP9 and AV1, and AAC and Opus.
#[derive(Clone)]
pub struct Fmp4 {
    pub parser: Fmp4Parser<Fmp4Inner>,
}

impl Fmp4 {
    /// Whether what was read is what it says.
    pub open spec fn wf(self) -> bool {
        self.parser.wf()
    }

    /// What the tracks are.
    pub open spec fn view(&self) -> Fmp4View {
        self.parser.sink@
    }

    /// An importer that has read nothing, and starts groups by itself.
    pub fn new() -> (fmp4: Self)
        ensures
            fmp4.wf(),
            fmp4.parser.parser() == (ParserView { moov: None, moof: None }),
            fmp4@ == (Fmp4View {
                tracks: Seq::empty(),
                catalog: Seq::empty(),
                next_track: 0,
                explicit_groups: false,
            }),
    {
        Fmp4 { parser: Fmp4Parser::new(Fmp4Inner::new(false)) }
    }

    /// The importer, but that groups are assigned by the caller.
    pub fn with_explicit_groups(self) -> (fmp4: Self)
        requires
            self.wf(),
        ensures
            fmp4.wf(),
            fmp4.parser.parser() == self.parser.parser(),
            fmp4@ == (Fmp4View { explicit_groups: true, ..self@ }),
    {
        let mut fmp4 = self;
        fmp4.parser.sink.explicit_groups = true;
        fmp4
    }

    /// Decodes a buffer of bytes: how many of them were used.
    pub fn decode(&mut self, data: &[u8], out: &mut Outbox) -> (res: Result<usize, ImportError>)
        requires
            old(self).wf(),
        ensures
            final(self).wf(),
            ({
                let (p, s, o, r) = decode_all::<Fmp4Inner>(
                    old(self).parser.parser(),
                    old(self)@,
                    old(out)@,
                    data@,
                );
                &&& final(self).parser.parser() == p
                &&& final(self)@ == s
                &&& final(out)@ == o
                &&& match r {
                    Ok(rest) => res matches Ok(n) && n <= data@.len() && rest == data@.skip(
                        n as int,
                    ),
                    Err(e) => res matches Err(f) && f@ == e,
                }
            }),
    {
        self.parser.decode(data, out)
    }

    /// Whether the moov was read.
    pub fn is_initialized(&self) -> (b: bool)
        ensures
            b == (self.parser.parser().moov is Some),
    {
        self.parser.is_initialized()
    }

    /// Starts a group with a sequence number on every track, and finishes those that were open.
    pub fn start_group(&mut self, sequence: u64, out: &mut Outbox) -> (res: Result<(), ImportError>)
        requires
            old(self).wf(),
        ensures
            final(self).wf(),
            final(self).parser.parser() == old(self).parser.parser(),
            (final(self)@, final(out)@, imported(res)) == old(self)@.start_group(
                old(out)@,
                sequence,
            ),
    {
        self.parser.sink.start_group(sequence, out)
    }

    /// Finish all tracks, flushing current groups.
    pub fn finish(&mut self, out: &mut Outbox) -> (res: Result<(), ImportError>)
        requires
            old(self).wf(),
        ensures
            final(self).wf(),
            final(self).parser.parser() == old(self).parser.parser(),
            (final(self)@, final(out)@, imported(res)) == old(self)@.finish(old(out)@, 0),
    {
        self.parser.sink.finish(out)
    }

    /// Takes the tracks out of the catalog, as when the importer goes.
    pub fn unlist(&mut self)
        requires
            old(self).wf(),
        ensures
            final(self).wf(),
            final(self).parser.parser() == old(self).parser.parser(),
            final(self)@ == old(self)@.unlist(),
    {
        self.parser.sink.unlist()
    }
}

impl Fmp4Inner {
    fn start_group(&mut self, sequence: u64, out: &mut Outbox) -> (res: Result<(), ImportError>)
        ensures
            (final(self)@, final(out)@, imported(res)) == old(self)@.start_group(
                old(out)@,
                sequence,
            ),
    {
        if !self.explicit_groups {
            return Err(ImportError::NotExplicit);
        }
        if self.tracks.len() == 0 {
            return Err(ImportError::NoTracks);
        }
        let mut i: usize = 0;
        while i < self.tracks.len()
            invariant
                i <= self.tracks@.len(),
                old(self)@.start_groups(old(out)@, sequence, 0) == self@.start_groups(
                    out@,
                    sequence,
                    i as nat,
                ),
                old(self)@.start_group(old(out)@, sequence) == old(self)@.start_groups(
                    old(out)@,
                    sequence,
                    0,
                ),
            decreases self.tracks@.len() - i,
        {
            let ghost before = self@;
            let mut t: Fmp4Track = self.tracks[i];
            let res = t.finish_group(out);
            self.tracks.set(i, t);
            res?;
            if !out.request(Action::CreateGroup { track: t.track, sequence }) {
                return Err(ImportError::Mux(MuxError::Refused));
            }
            t.open = true;
            self.tracks.set(i, t);
            assert(self@.tracks =~= before.tracks.update(i as int, t));
            i = i + 1;
        }
        Ok(())
    }

    fn finish(&mut self, out: &mut Outbox) -> (res: Result<(), ImportError>)
        ensures
            (final(self)@, final(out)@, imported(res)) == old(self)@.finish(old(out)@, 0),
    {
        let mut i: usize = 0;
        while i < self.tracks.len()
            invariant
                i <= self.tracks@.len(),
                old(self)@.finish(old(out)@, 0) == self@.finish(out@, i as nat),
            decreases self.tracks@.len() - i,
        {
            let mut t: Fmp4Track = self.tracks[i];
            let res = t.finish_group(out);
            self.tracks.set(i, t);
            res?;
            if !out.request(Action::FinishTrack { track: t.track }) {
                return Err(ImportError::Mux(MuxError::Refused));
            }
            i = i + 1;
        }
        Ok(())
    }

    fn is_numbered(&self, track: usize) -> (b: bool)
        ensures
            b == numbered(self@.tracks, track),
    {
        let mut i: usize = 0;
        while i < self.tracks.len()
            invariant
                i <= self.tracks@.len(),
                forall|j: int| 0 <= j < i ==> (#[trigger] self.tracks@[j]).track != track,
            decreases self.tracks@.len() - i,
        {
            if self.tracks[i].track == track {
                assert(self@.tracks[i as int].track == track);
                return true;
            }
            i = i + 1;
        }
        false
    }

    fn unlist(&mut self)
        ensures
            final(self)@ == old(self)@.unlist(),
    {
        let ghost all = self@.catalog;
        let ghost keep = |l: ListedView| !numbered(old(self)@.tracks, l.track);
        let mut kept: Vec<Listed> = Vec::new();
        let ghost mut seen: int = 0;
        assert(kept@.map_values(|l: Listed| l@) =~= all.take(0).filter(keep)) by {
            reveal(Seq::filter);
        }
        assert(self@.catalog =~= all.skip(0));
        while self.catalog.len() > 0
            invariant
                0 <= seen <= all.len(),
                self@ == (Fmp4View { catalog: all.skip(seen), ..old(self)@ }),
                keep == (|l: ListedView| !numbered(old(self)@.tracks, l.track)),
                kept@.map_values(|l: Listed| l@) == all.take(seen).filter(keep),
            decreases self.catalog@.len(),
        {
            let ghost had = self.catalog@;
            assert(self@.catalog == all.skip(seen));
            assert(had.len() == self@.catalog.len());
            let ghost kept_before = kept@;
            let listed = self.catalog.remove(0);
            proof {
                let before = had.map_values(|l: Listed| l@);
                assert forall|j: int| 0 <= j < self.catalog@.len() implies #[trigger] self@.catalog[j]
                    == all.skip(seen + 1)[j] by {
                    assert(before[j + 1] == all.skip(seen)[j + 1]);
                }
                assert(self@.catalog =~= all.skip(seen + 1));
                assert(had[0]@ == all.skip(seen)[0]);
                assert(all.take(seen + 1).drop_last() =~= all.take(seen));
                assert(all.take(seen + 1).last() == listed@);
                reveal(Seq::filter);
                seen = seen + 1;
            }
            if !self.is_numbered(listed.track) {
                kept.push(listed);
                assert(kept@.map_values(|l: Listed| l@) =~= kept_before.map_values(
                    |l: Listed| l@,
                ).push(listed@));
            }
        }
        assert(self@.catalog == all.skip(seen));
        assert(self.catalog@.len() == self@.catalog.len());
        assert(all.take(seen) =~= all);
        self.catalog = kept;
    }
}

} // verus!
