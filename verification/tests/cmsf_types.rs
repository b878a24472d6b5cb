use moq::mux::codec::{AV1, H264, H265, VP9, VideoCodec};
use moq::mux::outbox::Outbox;
use moq::mux::types::{
    CmsfConfig, CmsfObject, CmsfTrackConfig, CmsfTrackProducer, SapType, TrackId, TrackKind,
};
use std::collections::HashMap;

#[test]
fn test_sap_type_ordering() {
    assert!(SapType::NoSap < SapType::Type1);
    assert!(SapType::Type1 < SapType::Type2);
    assert!(SapType::Type2 < SapType::Type3);
}

#[test]
fn test_sap_type_is_keyframe() {
    assert!(!SapType::NoSap.is_keyframe());
    assert!(SapType::Type1.is_keyframe());
    assert!(SapType::Type2.is_keyframe());
    assert!(!SapType::Type3.is_keyframe());
}

#[test]
fn test_sap_type_is_valid_group_start() {
    assert!(!SapType::NoSap.is_valid_group_start());
    assert!(SapType::Type1.is_valid_group_start());
    assert!(SapType::Type2.is_valid_group_start());
    assert!(!SapType::Type3.is_valid_group_start());
}

#[test]
fn test_sap_type_monotonic_max() {
    let mut max = SapType::NoSap;
    max = max.max(SapType::Type1);
    assert_eq!(max, SapType::Type1);
    max = max.max(SapType::Type1);
    assert_eq!(max, SapType::Type1);
    max = max.max(SapType::Type2);
    assert_eq!(max, SapType::Type2);
    max = max.max(SapType::NoSap);
    assert_eq!(max, SapType::Type2);
}

#[test]
fn test_sap_type_to_msf_value() {
    assert_eq!(SapType::NoSap.to_msf_value(), None);
    assert_eq!(SapType::Type1.to_msf_value(), Some(1));
    assert_eq!(SapType::Type2.to_msf_value(), Some(2));
    assert_eq!(SapType::Type3.to_msf_value(), Some(3));
}

#[test]
fn test_cmsf_object_construction() {
    let obj = CmsfObject {
        data: b"test".to_vec(),
        group_id: Some(42),
    };
    assert_eq!(obj.data, b"test".to_vec());
    assert_eq!(obj.group_id, Some(42));
}

#[test]
fn test_track_id_equality_and_hashing() {
    let a = TrackId(0);
    let b = TrackId(0);
    let c = TrackId(1);
    assert_eq!(a, b);
    assert_ne!(a, c);

    let mut map = HashMap::new();
    map.insert(a, "first");
    assert_eq!(map.get(&b), Some(&"first"));
    assert_eq!(map.get(&c), None);
}

fn make_track_producer(kind: TrackKind) -> CmsfTrackProducer {
    make_track_producer_with_timescale(kind, 90000)
}

fn make_track_producer_with_timescale(kind: TrackKind, timescale: u64) -> CmsfTrackProducer {
    let config = CmsfTrackConfig::Video {
        codec: VideoCodec::H264(H264 {
            profile: 100,
            constraints: 0,
            level: 31,
            inline: false,
        }),
        description: None,
        width: None,
        height: None,
        bitrate: None,
        framerate: None,
        init_data: String::new(),
    };
    CmsfTrackProducer::new(kind, 0, "test".to_string(), None, config, timescale)
}

#[test]
fn test_track_producer_start_group() {
    let mut out = Outbox::new(vec![], None);
    let mut tp = make_track_producer(TrackKind::Video);
    assert!(tp.group.is_none());
    tp.start_group(Some(0), &mut out).unwrap();
    assert!(tp.group.is_some());
    assert_eq!(tp.media_group_id, Some(0));
}

#[test]
fn test_track_producer_start_group_finishes_previous() {
    let mut out = Outbox::new(vec![], None);
    let mut tp = make_track_producer(TrackKind::Video);
    tp.start_group(Some(0), &mut out).unwrap();
    tp.write_fragment(b"frame1".to_vec(), &mut out).unwrap();
    tp.start_group(Some(1), &mut out).unwrap();
    assert_eq!(tp.media_group_id, Some(1));
}

#[test]
fn test_track_producer_write_fragment() {
    let mut out = Outbox::new(vec![], None);
    let mut tp = make_track_producer(TrackKind::Video);
    tp.start_group(None, &mut out).unwrap();
    tp.write_fragment(b"data".to_vec(), &mut out).unwrap();
}

#[test]
fn test_track_producer_write_fragment_no_group() {
    let mut out = Outbox::new(vec![], None);
    let mut tp = make_track_producer(TrackKind::Video);
    let err = tp.write_fragment(b"data".to_vec(), &mut out).unwrap_err();
    assert!(err.message().contains("no open group"));
}

#[test]
fn test_track_producer_validate_group_sap_accepts() {
    let mut tp = make_track_producer(TrackKind::Video);
    tp.validate_group_sap(SapType::Type1).unwrap();
    assert_eq!(tp.max_grp_sap, SapType::Type1);
    tp.validate_group_sap(SapType::Type2).unwrap();
    assert_eq!(tp.max_grp_sap, SapType::Type2);
}

#[test]
fn test_track_producer_validate_group_sap_rejects() {
    let mut tp = make_track_producer(TrackKind::Video);
    let err = tp.validate_group_sap(SapType::NoSap).unwrap_err();
    assert!(err.message().contains("§3.4"));
    let err = tp.validate_group_sap(SapType::Type3).unwrap_err();
    assert!(err.message().contains("§3.4"));
}

#[test]
fn test_track_producer_sap_monotonic() {
    let mut tp = make_track_producer(TrackKind::Video);
    tp.validate_group_sap(SapType::Type1).unwrap();
    tp.validate_group_sap(SapType::Type2).unwrap();
    tp.validate_group_sap(SapType::Type1).unwrap();
    assert_eq!(tp.max_grp_sap, SapType::Type2);
}

#[test]
fn test_track_producer_object_sap() {
    let mut tp = make_track_producer(TrackKind::Video);
    tp.track_object_sap(SapType::Type1);
    assert_eq!(tp.max_obj_sap, SapType::Type1);
    tp.track_object_sap(SapType::Type2);
    assert_eq!(tp.max_obj_sap, SapType::Type2);
    tp.track_object_sap(SapType::NoSap);
    assert_eq!(tp.max_obj_sap, SapType::Type2);
}

#[test]
fn test_track_producer_sap_changed() {
    let mut tp = make_track_producer(TrackKind::Video);
    assert!(!tp.sap_changed());
    tp.validate_group_sap(SapType::Type1).unwrap();
    assert!(tp.sap_changed());
    assert!(!tp.sap_changed());
    tp.track_object_sap(SapType::Type2);
    assert!(tp.sap_changed());
    assert!(!tp.sap_changed());
}

#[test]
fn test_track_producer_update_jitter() {
    // 90kHz timescale, 29.97fps → 3003 ticks per frame
    let mut tp = make_track_producer(TrackKind::Video);
    assert!(!tp.update_jitter(0, None)); // first PTS, no previous
    assert!(tp.update_jitter(3003, None)); // first jitter computed
    assert_eq!(tp.jitter, Some(3003));
    assert!(!tp.update_jitter(6006, None)); // same interval, no change
    assert_eq!(tp.jitter, Some(3003));
}

#[test]
fn test_jitter_as_time_90khz() {
    let mut tp = make_track_producer_with_timescale(TrackKind::Video, 90000);
    tp.update_jitter(0, None);
    tp.update_jitter(3003, None);
    // 3003 * 1000 / 90000 = 33ms
    let time = tp.jitter_as_time().unwrap();
    assert_eq!(time, 33);
}

#[test]
fn test_jitter_as_time_48khz() {
    let mut tp = make_track_producer_with_timescale(TrackKind::Audio, 48000);
    tp.update_jitter(0, None);
    tp.update_jitter(1024, None);
    // 1024 * 1000 / 48000 = 21ms
    let time = tp.jitter_as_time().unwrap();
    assert_eq!(time, 21);
}

#[test]
fn test_jitter_as_time_none_when_no_jitter() {
    let tp = make_track_producer(TrackKind::Video);
    assert_eq!(tp.jitter_as_time(), None);
}

#[test]
fn test_track_producer_finish() {
    let mut out = Outbox::new(vec![], None);
    let mut tp = make_track_producer(TrackKind::Video);
    tp.start_group(None, &mut out).unwrap();
    tp.write_fragment(b"data".to_vec(), &mut out).unwrap();
    tp.finish(&mut out).unwrap();
    assert!(tp.group.is_none());
}

#[test]
fn test_cmsf_config_default() {
    let config = CmsfConfig::default();
    assert!(!config.publish_hang);
}

#[test]
fn test_precision_1000_frames_29_97fps() {
    // 29.97fps at 90kHz: frame duration = 3003 ticks (exact integer)
    let mut tp = make_track_producer_with_timescale(TrackKind::Video, 90000);
    for i in 0..1000u64 {
        tp.update_jitter(i * 3003, None);
    }
    // Jitter should be exactly 3003 — no accumulated rounding error
    assert_eq!(tp.jitter, Some(3003));
    assert_eq!(tp.jitter_as_time(), Some(33));
}

#[test]
fn test_precision_48khz_audio() {
    // 48kHz audio with 1024-sample frames
    let mut tp = make_track_producer_with_timescale(TrackKind::Audio, 48000);
    for i in 0..500u64 {
        tp.update_jitter(i * 1024, None);
    }
    assert_eq!(tp.jitter, Some(1024));
    assert_eq!(tp.jitter_as_time(), Some(21));
}

#[test]
fn test_multi_sample_duration() {
    // 4 samples at 3003-tick intervals: PTS 0, 3003, 6006, 9009
    // Duration = last.pts - first.pts = 9009 - 0 = 9009
    let first_pts: u64 = 0;
    let last_pts: u64 = 9009;
    let duration = last_pts.checked_sub(first_pts);
    assert_eq!(duration, Some(9009));
}

#[test]
fn test_jitter_catalog_output() {
    // Verify the full path: native ticks → jitter_as_time() → milliseconds
    let mut tp = make_track_producer_with_timescale(TrackKind::Video, 90000);
    tp.update_jitter(0, None);
    tp.update_jitter(3003, None);
    tp.update_jitter(6006, None);

    let time = tp.jitter_as_time().unwrap();
    // 3003 * 1000 / 90000 = 33
    assert_eq!(time, 33);

    // Verify this is the exact value that would be written to the hang catalog
    let expected_catalog_jitter: Option<u64> = Some(33);
    assert_eq!(tp.jitter_as_time(), expected_catalog_jitter);
}

// --- sap_type_for_keyframe tests ---

fn make_video_producer_with_codec(codec: VideoCodec) -> CmsfTrackProducer {
    let config = CmsfTrackConfig::Video {
        codec,
        description: None,
        width: None,
        height: None,
        bitrate: None,
        framerate: None,
        init_data: String::new(),
    };
    CmsfTrackProducer::new(TrackKind::Video, 0, "test".to_string(), None, config, 90000)
}

#[test]
fn test_sap_type_audio_always_type1() {
    let tp = make_track_producer(TrackKind::Audio);
    assert_eq!(tp.sap_type_for_keyframe(), SapType::Type1);
}

#[test]
fn test_sap_type_h264_type1() {
    let codec = H264 {
        profile: 100,
        constraints: 0,
        level: 31,
        inline: false,
    };
    let tp = make_video_producer_with_codec(VideoCodec::H264(codec));
    assert_eq!(tp.sap_type_for_keyframe(), SapType::Type1);
}

#[test]
fn test_sap_type_vp8_type1() {
    let tp = make_video_producer_with_codec(VideoCodec::VP8);
    assert_eq!(tp.sap_type_for_keyframe(), SapType::Type1);
}

#[test]
fn test_sap_type_h265_type2() {
    let codec = H265 {
        in_band: false,
        profile_space: 0,
        profile_idc: 1,
        profile_compatibility_flags: [0x60, 0, 0, 0],
        tier_flag: false,
        level_idc: 120,
        constraint_flags: [0xB0, 0, 0, 0, 0, 0],
    };
    let tp = make_video_producer_with_codec(VideoCodec::H265(codec));
    assert_eq!(tp.sap_type_for_keyframe(), SapType::Type2);
}

#[test]
fn test_sap_type_av1_type2() {
    let codec = AV1 {
        profile: 0,
        level: 8,
        bitdepth: 8,
        mono_chrome: false,
        chroma_subsampling_x: true,
        chroma_subsampling_y: true,
        chroma_sample_position: 0,
    };
    let tp = make_video_producer_with_codec(VideoCodec::AV1(codec));
    assert_eq!(tp.sap_type_for_keyframe(), SapType::Type2);
}

#[test]
fn test_sap_type_vp9_type2() {
    let codec = VP9 {
        profile: 0,
        level: 31,
        bit_depth: 8,
        chroma_subsampling: 1,
        color_primaries: 1,
        transfer_characteristics: 1,
        matrix_coefficients: 1,
        full_range: false,
    };
    let tp = make_video_producer_with_codec(VideoCodec::VP9(codec));
    assert_eq!(tp.sap_type_for_keyframe(), SapType::Type2);
}

#[test]
fn test_sap_type_unknown_type2() {
    let tp = make_video_producer_with_codec(VideoCodec::Unknown("custom.codec".to_string()));
    assert_eq!(tp.sap_type_for_keyframe(), SapType::Type2);
}
