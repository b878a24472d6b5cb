use moq::libmoq::publish::{
    classify_codec, GroupMode, ParsedCodec, Publish, PublishError, TrackConfig, AUDIO_MESSAGE,
};
use moq::libmoq::slab::{Id, NonZeroSlab};
use moq::mux::catalog::{Container, Rendition};
use moq::mux::codec::{AudioCodec, H264, VideoCodec};
use moq::mux::outbox::{Action, Outbox};

fn out() -> Outbox {
    Outbox::new(vec![], None)
}

fn config(name: &str, codec: &str) -> TrackConfig {
    TrackConfig {
        name: name.to_string(),
        codec: codec.to_string(),
        init_data: None,
        width: None,
        height: None,
        framerate: None,
        sample_rate: None,
        channel_count: None,
        bitrate: None,
    }
}

fn parsed() -> ParsedCodec {
    ParsedCodec {
        video: Ok(VideoCodec::H264(H264 { profile: 100, constraints: 0, level: 31, inline: false })),
        audio: Ok(AudioCodec::Opus),
    }
}

fn track(p: &mut Publish, broadcast: Id, name: &str) -> Id {
    p.track_create(broadcast, &config(name, "avc1.64001f"), parsed(), &mut out()).unwrap()
}

#[test]
fn handles_are_never_zero_and_are_reused() {
    let mut slab: NonZeroSlab<&str> = NonZeroSlab::new();
    let a = slab.insert("a").unwrap();
    let b = slab.insert("b").unwrap();
    assert!(a.0 != 0 && b.0 != 0 && a != b);
    assert_eq!(slab.get(a), Some(&"a"));
    assert_eq!(slab.get(Id(0)), None);
    assert_eq!(slab.get(Id(99)), None);
    assert_eq!(slab.remove(a), Some("a"));
    assert_eq!(slab.remove(a), None);
    let c = slab.insert("c").unwrap();
    assert_ne!(c, b);
    slab.replace(b, "B");
    assert_eq!(slab.get(b), Some(&"B"));
}

#[test]
fn codecs_are_classified() {
    for codec in ["avc1.64001f", "avc3.64001f", "hvc1.1", "hev1.1", "vp8", "vp09.00", "av01.0"] {
        assert_eq!(classify_codec(codec), Some(true));
    }
    for codec in ["mp4a.40.2", "opus"] {
        assert_eq!(classify_codec(codec), Some(false));
    }
    for codec in ["avc1", "vp80", "mp4a.41", "opus2", "flac", ""] {
        assert_eq!(classify_codec(codec), None);
    }
}

#[test]
fn unknown_codecs_are_told_by_their_fields() {
    let mut c = config("x", "flac");
    assert_eq!(c.is_video(), None);
    c.sample_rate = Some(1);
    assert_eq!(c.is_video(), Some(false));
    c.width = Some(1);
    assert_eq!(c.is_video(), None);
    c.sample_rate = None;
    assert_eq!(c.is_video(), Some(true));
}

#[test]
fn a_track_is_listed() {
    let mut p = Publish::new();
    let b = p.create(Ok(())).unwrap();
    let mut c = config("cam", "avc1.64001f");
    c.width = Some(640);
    c.init_data = Some(vec![1, 2]);
    let mut o = out();
    let t = p.track_create(b, &c, parsed(), &mut o).unwrap();
    assert_eq!(p.tracks.get(t).unwrap().broadcast_id, b);
    assert!(matches!(&o.sent[0], Action::CreateTrackOn { track: 0, name, .. } if name == "cam"));
    match &p.get(b).unwrap().renditions[0] {
        Rendition::Video(name, v) => {
            assert_eq!(name, "cam");
            assert_eq!(v.coded_width, Some(640));
            assert!(matches!(&v.container, Container::Cmaf { init } if *init == vec![1, 2]));
        }
        _ => panic!("must be video"),
    }
    let mut a = config("mic", "opus");
    a.sample_rate = Some(48000);
    a.channel_count = Some(2);
    a.init_data = Some(vec![]);
    p.track_create(b, &a, parsed(), &mut o).unwrap();
    match &p.get(b).unwrap().renditions[1] {
        Rendition::Audio(_, a) => assert!(matches!(a.container, Container::Legacy)),
        _ => panic!("must be audio"),
    }
    // The same name takes the place of the entry before it.
    p.track_create(b, &c, parsed(), &mut o).unwrap();
    assert_eq!(p.get(b).unwrap().renditions.len(), 2);
}

#[test]
fn what_a_track_is_refused_for() {
    let mut p = Publish::new();
    let b = p.create(Ok(())).unwrap();
    let res = p.track_create(b, &config("x", "flac"), parsed(), &mut out());
    assert!(matches!(res, Err(PublishError::UnknownFormat(c)) if c == "flac"));
    let res = p.track_create(b, &config("x", "opus"), parsed(), &mut out());
    assert!(matches!(res, Err(PublishError::InitFailed(m)) if m == AUDIO_MESSAGE));
    let bad = ParsedCodec { video: Err("bad".to_string()), audio: Ok(AudioCodec::Opus) };
    let res = p.track_create(b, &config("x", "avc1.zz"), bad, &mut out());
    assert!(matches!(res, Err(PublishError::Codec(m)) if m == "bad"));
    let res = p.track_create(Id(9), &config("x", "vp8"), parsed(), &mut out());
    assert!(matches!(res, Err(PublishError::BroadcastNotFound)));
    let mut o = Outbox::new(vec![true], None);
    let res = p.track_create(b, &config("x", "vp8"), parsed(), &mut o);
    assert!(matches!(res, Err(PublishError::Refused)));
    assert!(p.get(b).unwrap().renditions.is_empty());
    assert!(matches!(p.create(Err("down".to_string())), Err(PublishError::Moq(m)) if m == "down"));
}

#[test]
fn aligned_groups() {
    let mut p = Publish::new();
    let b = p.create(Ok(())).unwrap();
    let other = p.create(Ok(())).unwrap();
    let (t0, t1) = (track(&mut p, b, "a"), track(&mut p, b, "b"));
    let far = track(&mut p, other, "c");
    assert!(matches!(p.broadcast_write(b, t0, b"x", &mut out()), Err(PublishError::NoActiveGroup)));
    let mut o = out();
    p.broadcast_start_group(b, 5, &mut o).unwrap();
    assert_eq!(o.sent.len(), 2);
    assert!(matches!(o.sent[0], Action::CreateGroup { track: 0, sequence: 5 }));
    assert_eq!(p.tracks.get(t1).unwrap().mode, Some(GroupMode::Broadcast));
    assert_eq!(p.tracks.get(far).unwrap().mode, None);
    let mut o = out();
    p.broadcast_write(b, t1, b"frame", &mut o).unwrap();
    assert!(matches!(&o.sent[0], Action::WriteFrame { track: 1, data } if data == b"frame"));
    assert!(matches!(p.broadcast_write(other, t1, b"x", &mut out()), Err(PublishError::TrackNotFound)));
    let mut o = out();
    p.broadcast_start_group(b, 6, &mut o).unwrap();
    assert!(matches!(o.sent[0], Action::FinishGroup { track: 0 }));
    assert!(matches!(p.group_open(t0, 1, &mut out()), Err(PublishError::ModeConflict)));
    assert!(matches!(p.broadcast_start_group(Id(77), 6, &mut out()), Err(PublishError::BroadcastNotFound)));
}

#[test]
fn groups_of_a_track() {
    let mut p = Publish::new();
    let b = p.create(Ok(())).unwrap();
    let (t0, t1) = (track(&mut p, b, "a"), track(&mut p, b, "b"));
    let mut o = out();
    let g0 = p.group_open(t0, 10, &mut o).unwrap();
    let g1 = p.group_open(t0, 11, &mut o).unwrap();
    assert_ne!(g0, g1);
    p.group_write(g1, b"late", &mut o).unwrap();
    assert!(matches!(&o.sent[2], Action::WriteGroup { group: 1, data } if data == b"late"));
    // One track with groups of its own keeps all from starting together, and nothing happens.
    let mut o = out();
    assert!(matches!(p.broadcast_start_group(b, 1, &mut o), Err(PublishError::ModeConflict)));
    assert!(o.sent.is_empty());
    assert_eq!(p.tracks.get(t1).unwrap().mode, None);
    p.group_close(g0, &mut o).unwrap();
    assert!(matches!(o.sent[0], Action::CloseGroup { group: 0 }));
    assert!(matches!(p.group_close(g0, &mut out()), Err(PublishError::GroupNotFound)));
    assert!(matches!(p.group_write(g0, b"", &mut out()), Err(PublishError::GroupNotFound)));
    // Closing the track takes its groups.
    p.track_close(b, t0, &mut out()).unwrap();
    assert!(matches!(p.group_write(g1, b"", &mut out()), Err(PublishError::GroupNotFound)));
    assert!(matches!(p.track_close(b, t0, &mut out()), Err(PublishError::TrackNotFound)));
}

#[test]
fn closing_a_broadcast_takes_its_own() {
    let mut p = Publish::new();
    let (b, other) = (p.create(Ok(())).unwrap(), p.create(Ok(())).unwrap());
    let (t, far) = (track(&mut p, b, "a"), track(&mut p, other, "b"));
    let (g, far_g) = (p.group_open(t, 1, &mut out()).unwrap(), p.group_open(far, 1, &mut out()).unwrap());
    p.close(b).unwrap();
    assert!(matches!(p.close(b), Err(PublishError::BroadcastNotFound)));
    assert!(p.tracks.get(t).is_none() && p.groups.get(g).is_none());
    assert!(p.tracks.get(far).is_some() && p.groups.get(far_g).is_some());
    assert!(matches!(p.get(b), Err(PublishError::BroadcastNotFound)));
}

#[test]
fn a_track_whose_group_cannot_finish_is_gone() {
    let mut p = Publish::new();
    let b = p.create(Ok(())).unwrap();
    let t = track(&mut p, b, "a");
    p.broadcast_start_group(b, 1, &mut out()).unwrap();
    let mut o = Outbox::new(vec![true], None);
    assert!(matches!(p.track_close(b, t, &mut o), Err(PublishError::Refused)));
    assert!(p.tracks.get(t).is_none());
    assert_eq!(o.sent.len(), 1);
}

#[test]
fn media_decoders() {
    let mut p = Publish::new();
    let b = p.create(Ok(())).unwrap();
    assert!(matches!(p.media_ordered(Id(5), "avc3", true, Ok(())), Err(PublishError::BroadcastNotFound)));
    assert!(matches!(p.media_ordered(b, "gif", false, Ok(())), Err(PublishError::UnknownFormat(f)) if f == "gif"));
    let res = p.media_ordered(b, "avc3", true, Err("no sps".to_string()));
    assert!(matches!(res, Err(PublishError::InitFailed(m)) if m == "no sps"));
    let m = p.media_ordered(b, "avc3", true, Ok(())).unwrap();
    assert!(p.media_frame(m, Ok(0)).is_ok());
    assert!(matches!(p.media_frame(m, Ok(3)), Err(PublishError::DecodeFailed(e)) if e == "buffer was not fully consumed"));
    assert!(matches!(p.media_frame(m, Err("nal".to_string())), Err(PublishError::DecodeFailed(e)) if e == "nal"));
    assert!(matches!(p.media_frame(Id(44), Ok(0)), Err(PublishError::MediaNotFound)));
    assert!(matches!(p.media_close(m, Err("end".to_string())), Err(PublishError::DecodeFailed(e)) if e == "end"));
    assert!(matches!(p.media_close(m, Ok(())), Err(PublishError::MediaNotFound)));
}
