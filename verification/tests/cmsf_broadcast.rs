use base64::Engine;
use moq::mux::broadcast::CmsfBroadcastProducer;
use moq::mux::catalog::{Framerate, Packaging, Role};
use moq::mux::codec::{AudioCodec, H264, VideoCodec};
use moq::mux::outbox::{Action, Outbox};
use moq::mux::types::{
    CmsfAudioTrack, CmsfConfig, CmsfObject, CmsfTrackConfig, CmsfVideoTrack, MuxError, SapType,
    TrackId, TrackKind,
};
use mp4_atom::Encode;

fn outbox() -> Outbox {
    Outbox::new(vec![], Some(1_700_000_000_000))
}

/// The name under which a track was created.
fn name_of(out: &Outbox, wanted: usize) -> &str {
    for action in &out.sent {
        if let Action::CreateTrack { track, name } = action {
            if *track == wanted {
                return name;
            }
        }
    }
    panic!("no such track");
}

fn make_producer(config: CmsfConfig) -> CmsfBroadcastProducer {
    CmsfBroadcastProducer::new(config, &mut outbox()).unwrap()
}

fn build_moof_mdat(dts: u64, duration: u32, flags: u32) -> Vec<u8> {
    let moof = mp4_atom::Moof {
        mfhd: mp4_atom::Mfhd { sequence_number: 1 },
        traf: vec![mp4_atom::Traf {
            tfhd: mp4_atom::Tfhd {
                track_id: 1,
                ..Default::default()
            },
            tfdt: Some(mp4_atom::Tfdt {
                base_media_decode_time: dts,
            }),
            trun: vec![mp4_atom::Trun {
                data_offset: Some(0),
                entries: vec![mp4_atom::TrunEntry {
                    size: Some(4),
                    duration: Some(duration),
                    flags: Some(flags),
                    ..Default::default()
                }],
            }],
            ..Default::default()
        }],
    };
    let mdat = mp4_atom::Mdat { data: vec![0; 4] };
    let mut buf = Vec::new();
    moof.encode(&mut buf).unwrap();
    mdat.encode(&mut buf).unwrap();
    buf
}

fn video_track() -> CmsfVideoTrack {
    CmsfVideoTrack {
        codec: VideoCodec::H264(H264 {
            profile: 100,
            constraints: 0,
            level: 31,
            inline: false,
        }),
        description: None,
        width: Some(1280),
        height: Some(720),
        bitrate: Some(6_000_000),
        framerate: Some(Framerate(30.0f64.to_bits())),
        init_segment: b"video-init".to_vec(),
        alt_group: Some(1),
        timescale: 90000,
    }
}

fn audio_track() -> CmsfAudioTrack {
    CmsfAudioTrack {
        codec: AudioCodec::Opus,
        description: None,
        sample_rate: 48000,
        channel_count: 2,
        bitrate: Some(128_000),
        init_segment: b"audio-init".to_vec(),
        alt_group: Some(2),
        timescale: 48000,
    }
}

// --- Constructor tests ---

#[test]
fn test_constructor_creates_msf_track() {
    let mut out = outbox();
    let p = CmsfBroadcastProducer::new(CmsfConfig::default(), &mut out).unwrap();
    assert_eq!(name_of(&out, p.msf_track), "catalog");
}

#[test]
fn test_constructor_hang_creates_both() {
    let config = CmsfConfig { publish_hang: true };
    let mut out = outbox();
    let p = CmsfBroadcastProducer::new(config, &mut out).unwrap();
    assert!(p.hang_track.is_some());
    assert_eq!(name_of(&out, p.hang_track.unwrap()), "catalog.json");
}

#[test]
fn test_constructor_no_hang_by_default() {
    let p = make_producer(CmsfConfig::default());
    assert!(p.hang_track.is_none());
}

// --- Track addition tests ---

#[test]
fn test_add_video_track_sequential_ids() {
    let mut p = make_producer(CmsfConfig::default());
    let id0 = p.add_video_track(video_track(), &mut outbox()).unwrap();
    let id1 = p.add_video_track(video_track(), &mut outbox()).unwrap();
    assert_eq!(id0, TrackId(0));
    assert_eq!(id1, TrackId(1));
}

#[test]
fn test_add_audio_track() {
    let mut p = make_producer(CmsfConfig::default());
    let id = p.add_audio_track(audio_track(), &mut outbox()).unwrap();
    assert_eq!(id, TrackId(0));
    assert_eq!(p.tracks[0].kind, TrackKind::Audio);
}

#[test]
fn test_track_naming() {
    let mut p = make_producer(CmsfConfig::default());
    p.add_video_track(video_track(), &mut outbox()).unwrap();
    p.add_video_track(video_track(), &mut outbox()).unwrap();
    p.add_audio_track(audio_track(), &mut outbox()).unwrap();
    assert_eq!(p.tracks[0].name, "video0.m4s");
    assert_eq!(p.tracks[1].name, "video1.m4s");
    assert_eq!(p.tracks[2].name, "audio0.m4s");
}

#[test]
fn test_add_video_base64_init_data() {
    let mut p = make_producer(CmsfConfig::default());
    p.add_video_track(video_track(), &mut outbox()).unwrap();
    match &p.tracks[0].config {
        CmsfTrackConfig::Video { init_data, .. } => {
            let decoded = base64::engine::general_purpose::STANDARD.decode(init_data).unwrap();
            assert_eq!(decoded, b"video-init");
        }
        _ => panic!("expected Video config"),
    }
}

// --- MSF catalog tests ---

#[test]
fn test_msf_catalog_empty() {
    let p = make_producer(CmsfConfig::default());
    let msf = p.msf_catalog(Some(1_700_000_000_000));
    assert_eq!(msf.version, 1);
    assert!(msf.generated_at.is_some());
    assert!(msf.tracks.is_empty());
}

#[test]
fn test_msf_catalog_video_track() {
    let mut p = make_producer(CmsfConfig::default());
    p.add_video_track(video_track(), &mut outbox()).unwrap();
    let msf = p.msf_catalog(Some(1_700_000_000_000));

    assert_eq!(msf.tracks.len(), 1);
    let t = &msf.tracks[0];
    assert_eq!(t.name, "video0.m4s");
    assert_eq!(t.packaging, Packaging::Cmaf);
    assert!(t.is_live);
    assert_eq!(t.role, Some(Role::Video));
    assert_eq!(t.width, Some(1280));
    assert_eq!(t.height, Some(720));
    assert_eq!(t.framerate, Some(Framerate(30.0f64.to_bits())));
    assert_eq!(t.bitrate, Some(6_000_000));
    assert_eq!(t.render_group, Some(1));
    assert_eq!(t.alt_group, Some(1));
    let decoded = base64::engine::general_purpose::STANDARD
        .decode(t.init_data.as_ref().unwrap())
        .unwrap();
    assert_eq!(decoded, b"video-init");
}

#[test]
fn test_msf_catalog_audio_track() {
    let mut p = make_producer(CmsfConfig::default());
    p.add_audio_track(audio_track(), &mut outbox()).unwrap();
    let msf = p.msf_catalog(Some(1_700_000_000_000));

    let t = &msf.tracks[0];
    assert_eq!(t.name, "audio0.m4s");
    assert_eq!(t.role, Some(Role::Audio));
    assert_eq!(t.samplerate, Some(48000));
    assert_eq!(t.channel_config, Some("2".to_string()));
    assert_eq!(t.bitrate, Some(128_000));
    assert_eq!(t.alt_group, Some(2));
}

#[test]
fn test_msf_catalog_sap_before_chunks() {
    let mut p = make_producer(CmsfConfig::default());
    p.add_video_track(video_track(), &mut outbox()).unwrap();
    let msf = p.msf_catalog(Some(1_700_000_000_000));
    let t = &msf.tracks[0];
    assert_eq!(t.max_grp_sap_starting_type, None);
    assert_eq!(t.max_obj_sap_starting_type, None);
}

#[test]
fn test_msf_catalog_sap_after_chunks() {
    let mut p = make_producer(CmsfConfig::default());
    let id = p.add_video_track(video_track(), &mut outbox()).unwrap();
    p.write(id, cmsf_obj(0, 3003, KF_FLAGS, None), &mut outbox()).unwrap();
    let msf = p.msf_catalog(Some(1_700_000_000_000));
    let t = &msf.tracks[0];
    assert_eq!(t.max_grp_sap_starting_type, Some(1));
    assert_eq!(t.max_obj_sap_starting_type, Some(1));
}

// --- Finish test ---

#[test]
fn cmsf_broadcast_test_finish() {
    let mut p = make_producer(CmsfConfig::default());
    p.add_video_track(video_track(), &mut outbox()).unwrap();
    p.finish(&mut outbox()).unwrap();
}

// --- write() method tests ---

const KF_FLAGS: u32 = 0x0200_0000;
const NON_KF_FLAGS: u32 = 0x0001_0000;

fn cmsf_obj(dts: u64, duration: u32, flags: u32, group_id: Option<u64>) -> CmsfObject {
    CmsfObject {
        data: build_moof_mdat(dts, duration, flags),
        group_id,
    }
}

#[test]
fn test_write_keyframe_starts_group() {
    let mut p = make_producer(CmsfConfig::default());
    let id = p.add_video_track(video_track(), &mut outbox()).unwrap();
    p.write(id, cmsf_obj(0, 3003, KF_FLAGS, None), &mut outbox()).unwrap();
    assert!(p.tracks[0].group.is_some());
}

#[test]
fn test_write_non_keyframe_continues() {
    let mut p = make_producer(CmsfConfig::default());
    let id = p.add_video_track(video_track(), &mut outbox()).unwrap();
    p.write(id, cmsf_obj(0, 3003, KF_FLAGS, None), &mut outbox()).unwrap();
    p.write(id, cmsf_obj(3003, 3003, NON_KF_FLAGS, None), &mut outbox()).unwrap();
}

#[test]
fn test_write_non_keyframe_first_fails() {
    let mut p = make_producer(CmsfConfig::default());
    let id = p.add_video_track(video_track(), &mut outbox()).unwrap();
    let err = p.write(id, cmsf_obj(0, 3003, NON_KF_FLAGS, None), &mut outbox()).unwrap_err();
    assert!(err.message().contains("keyframe"));
}

#[test]
fn test_write_audio_buffered_before_video_keyframe() {
    let mut p = make_producer(CmsfConfig::default());
    p.add_video_track(video_track(), &mut outbox()).unwrap();
    let aid = p
        .add_audio_track(CmsfAudioTrack {
            alt_group: None,
            ..audio_track()
        }, &mut outbox())
        .unwrap();
    p.write(aid, cmsf_obj(0, 1024, KF_FLAGS, None), &mut outbox()).unwrap();
    assert!(p.tracks[aid.0].group.is_none());
    assert_eq!(p.audio_buffer.len(), 1);
}

#[test]
fn test_write_audio_flushed_on_video_keyframe() {
    let mut p = make_producer(CmsfConfig::default());
    let vid = p.add_video_track(video_track(), &mut outbox()).unwrap();
    let aid = p
        .add_audio_track(CmsfAudioTrack {
            alt_group: None,
            ..audio_track()
        }, &mut outbox())
        .unwrap();
    p.write(aid, cmsf_obj(0, 1024, KF_FLAGS, None), &mut outbox()).unwrap();
    p.write(vid, cmsf_obj(0, 3003, KF_FLAGS, None), &mut outbox()).unwrap();
    assert!(p.audio_buffer.is_empty());
    assert!(p.tracks[aid.0].group.is_some());
}

#[test]
fn test_write_explicit_audio_bypasses_buffer() {
    let mut p = make_producer(CmsfConfig::default());
    p.add_video_track(video_track(), &mut outbox()).unwrap();
    let aid = p
        .add_audio_track(CmsfAudioTrack {
            alt_group: None,
            ..audio_track()
        }, &mut outbox())
        .unwrap();
    p.write(aid, cmsf_obj(0, 1024, KF_FLAGS, Some(1)), &mut outbox()).unwrap();
    assert!(p.audio_buffer.is_empty());
    assert!(p.tracks[aid.0].group.is_some());
    assert!(p.tracks[aid.0].explicit_groups);
}

#[test]
fn test_write_explicit_audio_not_rotated_on_video_keyframe() {
    let mut p = make_producer(CmsfConfig::default());
    let vid = p.add_video_track(video_track(), &mut outbox()).unwrap();
    let aid = p
        .add_audio_track(CmsfAudioTrack {
            alt_group: None,
            ..audio_track()
        }, &mut outbox())
        .unwrap();
    // Explicit audio write
    p.write(aid, cmsf_obj(0, 1024, KF_FLAGS, Some(1)), &mut outbox()).unwrap();
    // First video keyframe
    p.write(vid, cmsf_obj(0, 3003, KF_FLAGS, None), &mut outbox()).unwrap();
    // Second video keyframe — should NOT rotate explicit audio
    p.write(vid, cmsf_obj(90000, 3003, KF_FLAGS, None), &mut outbox()).unwrap();
    // Audio group_id should still be 1 (not auto-rotated)
    assert_eq!(p.tracks[aid.0].last_explicit_group_id, Some(1));
}

#[test]
fn test_write_malformed_data_returns_error() {
    let mut p = make_producer(CmsfConfig::default());
    let id = p.add_video_track(video_track(), &mut outbox()).unwrap();
    let result = p.write(
        id,
        CmsfObject {
            data: b"garbage".to_vec(),
            group_id: None,
        },
        &mut outbox(),
    );
    assert!(result.is_err());
}

#[test]
fn test_write_jitter_from_parsed_pts() {
    let mut p = make_producer(CmsfConfig::default());
    let id = p.add_video_track(video_track(), &mut outbox()).unwrap();
    p.write(id, cmsf_obj(0, 3003, KF_FLAGS, None), &mut outbox()).unwrap();
    p.write(id, cmsf_obj(3003, 3003, NON_KF_FLAGS, None), &mut outbox()).unwrap();
    p.write(id, cmsf_obj(6006, 3003, NON_KF_FLAGS, None), &mut outbox()).unwrap();
    assert_eq!(p.tracks[0].jitter, Some(3003));
}

// --- Explicit group_id edge case tests ---

#[test]
fn test_write_sequential_explicit_groups() {
    let mut p = make_producer(CmsfConfig::default());
    let id = p.add_video_track(video_track(), &mut outbox()).unwrap();
    p.write(id, cmsf_obj(0, 3003, KF_FLAGS, Some(1)), &mut outbox()).unwrap();
    p.write(id, cmsf_obj(90000, 3003, KF_FLAGS, Some(2)), &mut outbox()).unwrap();
    assert_eq!(p.tracks[0].last_explicit_group_id, Some(2));
    assert!(p.tracks[0].explicit_groups);
}

#[test]
fn test_write_same_group_id_no_new_group() {
    let mut p = make_producer(CmsfConfig::default());
    let id = p.add_video_track(video_track(), &mut outbox()).unwrap();
    p.write(id, cmsf_obj(0, 3003, KF_FLAGS, Some(1)), &mut outbox()).unwrap();
    // Same group_id, non-keyframe — continues current group
    p.write(id, cmsf_obj(3003, 3003, NON_KF_FLAGS, Some(1)), &mut outbox()).unwrap();
    assert_eq!(p.tracks[0].last_explicit_group_id, Some(1));
}

#[test]
fn test_write_none_after_latch_continues_group() {
    let mut p = make_producer(CmsfConfig::default());
    let id = p.add_video_track(video_track(), &mut outbox()).unwrap();
    p.write(id, cmsf_obj(0, 3003, KF_FLAGS, Some(5)), &mut outbox()).unwrap();
    // None in explicit mode = continue current group
    p.write(id, cmsf_obj(3003, 3003, NON_KF_FLAGS, None), &mut outbox()).unwrap();
    // Then a new explicit group
    p.write(id, cmsf_obj(90000, 3003, KF_FLAGS, Some(7)), &mut outbox()).unwrap();
    assert_eq!(p.tracks[0].last_explicit_group_id, Some(7));
}

#[test]
fn test_write_non_monotonic_group_id_errors() {
    let mut p = make_producer(CmsfConfig::default());
    let id = p.add_video_track(video_track(), &mut outbox()).unwrap();
    p.write(id, cmsf_obj(0, 3003, KF_FLAGS, Some(5)), &mut outbox()).unwrap();
    let err = p.write(id, cmsf_obj(90000, 3003, KF_FLAGS, Some(3)), &mut outbox()).unwrap_err();
    assert!(err.message().contains("non-monotonic"));
}

#[test]
fn a_keyframe_without_assignment_goes_on_in_explicit_mode() {
    let mut p = make_producer(CmsfConfig::default());
    let id = p.add_video_track(video_track(), &mut outbox()).unwrap();
    p.write(id, cmsf_obj(0, 3003, KF_FLAGS, Some(5)), &mut outbox()).unwrap();
    let mut out = outbox();
    p.write(id, cmsf_obj(90000, 3003, KF_FLAGS, None), &mut out).unwrap();
    assert!(matches!(out.sent[0], Action::WriteFrame { track: 1, .. }));
    assert!(!out.sent.iter().any(|a| matches!(a, Action::AppendGroup { track: 1 })));
    assert_eq!(p.tracks[0].media_group_id, Some(5));
}

#[test]
fn a_group_starts_where_the_assignment_changes() {
    let mut p = make_producer(CmsfConfig::default());
    let id = p.add_video_track(video_track(), &mut outbox()).unwrap();
    p.write(id, cmsf_obj(0, 3003, KF_FLAGS, Some(5)), &mut outbox()).unwrap();
    let mut out = outbox();
    let err = p.write(id, cmsf_obj(3003, 3003, NON_KF_FLAGS, Some(4)), &mut out).unwrap_err();
    assert!(matches!(err, MuxError::NonMonotonic { id: 4, last: 5 }));
    assert!(out.sent.is_empty());
    // No group can start at an object that is no keyframe.
    let err = p.write(id, cmsf_obj(3003, 3003, NON_KF_FLAGS, Some(6)), &mut out).unwrap_err();
    assert!(matches!(err, MuxError::InvalidGroupStart(SapType::NoSap)));
    assert!(err.message().contains("§3.4"));
    assert!(out.sent.is_empty());
    assert_eq!(p.tracks[0].media_group_id, Some(5));
    p.write(id, cmsf_obj(6006, 3003, KF_FLAGS, Some(6)), &mut out).unwrap();
    assert!(matches!(out.sent[0], Action::FinishGroup { track: 1 }));
    assert!(matches!(out.sent[1], Action::CreateGroup { track: 1, sequence: 6 }));
    assert!(matches!(out.sent[2], Action::WriteFrame { track: 1, .. }));
    assert_eq!(p.tracks[0].media_group_id, Some(6));
}

#[test]
fn audio_with_an_assignment_starts_groups_at_access_points() {
    let mut p = make_producer(CmsfConfig::default());
    let id = p
        .add_audio_track(CmsfAudioTrack { alt_group: None, ..audio_track() }, &mut outbox())
        .unwrap();
    p.write(id, cmsf_obj(0, 1024, KF_FLAGS, Some(1)), &mut outbox()).unwrap();
    let mut out = outbox();
    let err = p.write(id, cmsf_obj(1024, 1024, NON_KF_FLAGS, Some(2)), &mut out).unwrap_err();
    assert!(matches!(err, MuxError::InvalidGroupStart(SapType::NoSap)));
    assert!(out.sent.is_empty());
}

#[test]
fn audio_in_explicit_mode_does_not_wait_for_the_video() {
    let mut p = make_producer(CmsfConfig::default());
    let vid = p.add_video_track(video_track(), &mut outbox()).unwrap();
    let aid = p
        .add_audio_track(CmsfAudioTrack { alt_group: None, ..audio_track() }, &mut outbox())
        .unwrap();
    p.write(aid, cmsf_obj(0, 1024, KF_FLAGS, Some(1)), &mut outbox()).unwrap();
    let mut out = outbox();
    p.write(aid, cmsf_obj(1024, 1024, KF_FLAGS, None), &mut out).unwrap();
    assert!(p.audio_buffer.is_empty());
    assert!(matches!(out.sent[0], Action::WriteFrame { track: 2, .. }));
    assert_eq!(out.sent.len(), 1);
    p.write(vid, cmsf_obj(0, 3003, KF_FLAGS, None), &mut outbox()).unwrap();
    assert_eq!(p.tracks[aid.0].media_group_id, Some(1));
}
