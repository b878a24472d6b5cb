use moq::cli::publish::{Publish, PublishDecoder, PublishFormat};
use moq::cli::test_catalog::{dummy_audio, dummy_video, phase_catalog, second_video_flows, track_priority};
use moq::mux::aac::build_aac_audio_specific_config;
use moq::mux::catalog::{Container, Rendition};
use moq::mux::codec::VideoCodec;
use moq::mux::fmp4::{Config, Fmp4};
use moq::mux::outbox::Outbox;
use moq::mux::types::MuxError;
use mp4_atom::Encode;

fn out() -> Outbox {
    Outbox::new(vec![], None)
}

fn visual() -> mp4_atom::Visual {
    mp4_atom::Visual { width: 640, height: 360, ..Default::default() }
}

fn init(codec: mp4_atom::Codec) -> Vec<u8> {
    let moov = mp4_atom::Moov {
        mvhd: mp4_atom::Mvhd { timescale: 1000, ..Default::default() },
        trak: vec![mp4_atom::Trak {
            tkhd: mp4_atom::Tkhd { track_id: 1, ..Default::default() },
            mdia: mp4_atom::Mdia {
                mdhd: mp4_atom::Mdhd { timescale: 30, ..Default::default() },
                hdlr: mp4_atom::Hdlr { handler: b"vide".into(), name: "V".into() },
                minf: mp4_atom::Minf {
                    vmhd: Some(mp4_atom::Vmhd::default()),
                    dinf: mp4_atom::Dinf { dref: mp4_atom::Dref { urls: vec![] } },
                    stbl: mp4_atom::Stbl {
                        stsd: mp4_atom::Stsd { codecs: vec![codec] },
                        ..Default::default()
                    },
                    ..Default::default()
                },
            },
            ..Default::default()
        }],
        ..Default::default()
    };
    let mut buf = Vec::new();
    moov.encode(&mut buf).unwrap();
    buf
}

fn described(codec: mp4_atom::Codec) -> (VideoCodec, Option<Vec<u8>>) {
    let mut fmp4 = Fmp4::new();
    fmp4.decode(&init(codec), &mut out()).unwrap();
    match fmp4.parser.sink.catalog.remove(0).config {
        Config::Video(v) => {
            assert_eq!((v.coded_width, v.coded_height), (Some(640), Some(360)));
            (v.codec, v.description)
        }
        _ => panic!("must be video"),
    }
}

fn vpcc() -> mp4_atom::VpcC {
    mp4_atom::VpcC {
        profile: 2,
        level: 31,
        bit_depth: 10,
        chroma_subsampling: 1,
        video_full_range_flag: true,
        color_primaries: 9,
        transfer_characteristics: 16,
        matrix_coefficients: 8,
        codec_initialization_data: vec![],
    }
}

#[test]
fn vp9_is_described() {
    let vp09 = mp4_atom::Vp09 { visual: visual(), vpcc: vpcc(), btrt: None, colr: None, pasp: None };
    match described(mp4_atom::Codec::Vp09(vp09)) {
        (VideoCodec::VP9(c), None) => {
            assert_eq!((c.profile, c.level, c.bit_depth, c.chroma_subsampling), (2, 31, 10, 1));
            assert_eq!((c.color_primaries, c.transfer_characteristics, c.matrix_coefficients), (9, 16, 8));
            assert!(c.full_range);
        }
        other => panic!("{:?}", other),
    }
}

#[test]
fn vp8_is_described() {
    let vp08 = mp4_atom::Vp08 { visual: visual(), vpcc: vpcc(), btrt: None, colr: None, pasp: None };
    assert!(matches!(described(mp4_atom::Codec::Vp08(vp08)), (VideoCodec::VP8, None)));
}

fn av1c(seq_tier_0: bool, high_bitdepth: bool) -> mp4_atom::Av1c {
    mp4_atom::Av1c {
        seq_profile: 0,
        seq_level_idx_0: 8,
        seq_tier_0,
        high_bitdepth,
        twelve_bit: false,
        monochrome: false,
        chroma_subsampling_x: true,
        chroma_subsampling_y: false,
        chroma_sample_position: 2,
        initial_presentation_delay: None,
        config_obus: vec![],
    }
}

#[test]
fn av1_depth_follows_tier_and_high_depth() {
    for (tier, high, depth) in [(false, false, 8), (false, true, 10), (true, false, 10), (true, true, 12)] {
        let av01 = mp4_atom::Av01 {
            visual: visual(),
            av1c: av1c(tier, high),
            btrt: None,
            colr: None,
            pasp: None,
            taic: None,
        };
        match described(mp4_atom::Codec::Av01(av01)) {
            (VideoCodec::AV1(c), None) => {
                assert_eq!((c.level, c.bitdepth, c.chroma_sample_position), (8, depth, 2));
                assert!(c.chroma_subsampling_x && !c.chroma_subsampling_y && !c.mono_chrome);
            }
            other => panic!("{:?}", other),
        }
    }
}

fn hvcc() -> mp4_atom::Hvcc {
    mp4_atom::Hvcc {
        configuration_version: 1,
        general_profile_idc: 1,
        general_profile_compatibility_flags: [0x60, 0, 0, 0],
        general_constraint_indicator_flags: [0xb0, 0, 0, 0, 0, 0],
        general_level_idc: 120,
        ..Default::default()
    }
}

#[test]
fn h265_tells_where_its_parameters_are() {
    let hev1 = mp4_atom::Hev1 {
        visual: visual(),
        hvcc: hvcc(),
        btrt: None,
        colr: None,
        pasp: None,
        taic: None,
        fiel: None,
    };
    let hvc1 = mp4_atom::Hvc1 {
        visual: visual(),
        hvcc: hvcc(),
        btrt: None,
        colr: None,
        pasp: None,
        taic: None,
        fiel: None,
        ccst: None,
    };
    for (codec, in_band) in [(mp4_atom::Codec::Hev1(hev1), true), (mp4_atom::Codec::Hvc1(hvc1), false)] {
        match described(codec) {
            (VideoCodec::H265(c), Some(record)) => {
                assert_eq!(c.in_band, in_band);
                assert_eq!((c.profile_idc, c.level_idc), (1, 120));
                assert_eq!(c.profile_compatibility_flags, [0x60, 0, 0, 0]);
                assert_eq!(c.constraint_flags, [0xb0, 0, 0, 0, 0, 0]);
                assert_eq!(record[..3], [1, 1, 0x60]);
            }
            other => panic!("{:?}", other),
        }
    }
}

#[test]
fn aac_configurations() {
    assert_eq!(build_aac_audio_specific_config(2, 44100, 2), vec![0x12, 0x10]);
    assert_eq!(build_aac_audio_specific_config(2, 48000, 2), vec![0x11, 0x90]);
    assert_eq!(build_aac_audio_specific_config(2, 7350, 1), vec![0x16, 0x08]);
    // 96 kHz is the first of the table.
    assert_eq!(build_aac_audio_specific_config(5, 96000, 6), vec![0x28, 0x30]);
    // A rate that is not in the table is written out in 24 bits.
    assert_eq!(build_aac_audio_specific_config(2, 44000, 2), vec![0x17, 0x80, 0x55, 0xf0, 0x10]);
    // Only five bits of the profile and four of the channels are kept.
    assert_eq!(build_aac_audio_specific_config(34, 44100, 18), vec![0x12, 0x10]);
}

#[test]
fn formats_have_their_decoders() {
    let mut o = out();
    assert!(matches!(Publish::new(&PublishFormat::Avc3, &mut o).unwrap().decoder, PublishDecoder::Avc3));
    assert!(matches!(Publish::new(&PublishFormat::Fmp4, &mut o).unwrap().decoder, PublishDecoder::Fmp4(_)));
    let hls = PublishFormat::Hls { playlist: "x.m3u8".to_string() };
    assert!(matches!(Publish::new(&hls, &mut o).unwrap().decoder, PublishDecoder::Hls));
    assert!(o.sent.is_empty());
    let mut cmsf = Publish::new(&PublishFormat::Cmsf, &mut o).unwrap();
    assert!(matches!(cmsf.decoder, PublishDecoder::Cmsf(_)));
    assert_eq!(o.sent.len(), 1);
    cmsf.decoder.finish(&mut o).unwrap();
    assert_eq!(o.sent.len(), 2);
    let mut refused = Outbox::new(vec![true], None);
    assert!(matches!(Publish::new(&PublishFormat::Cmsf, &mut refused).err(), Some(MuxError::Refused)));
}

#[test]
fn what_is_not_used_is_kept() {
    let mut p = Publish::new(&PublishFormat::Fmp4, &mut out()).unwrap();
    let data = init(mp4_atom::Codec::Vp08(mp4_atom::Vp08 {
        visual: visual(),
        vpcc: vpcc(),
        btrt: None,
        colr: None,
        pasp: None,
    }));
    assert_eq!(p.feed(&data[..20], &mut out()).unwrap(), Some(0));
    assert_eq!(p.buffer.len(), 20);
    assert_eq!(p.feed(&data[20..], &mut out()).unwrap(), Some(data.len()));
    assert!(p.buffer.is_empty());
    let mut avc3 = Publish::new(&PublishFormat::Avc3, &mut out()).unwrap();
    assert_eq!(avc3.feed(b"nal", &mut out()).unwrap(), None);
    assert_eq!(avc3.buffer, b"nal");
}

#[test]
fn the_catalog_changes_from_phase_to_phase() {
    let names = |phase| -> Vec<String> {
        phase_catalog(phase)
            .renditions
            .into_iter()
            .map(|r| match r {
                Rendition::Video(name, _) => name,
                Rendition::Audio(name, _) => name,
            })
            .collect()
    };
    assert_eq!(names(1), ["video0.hang", "audio0.hang"]);
    assert_eq!(names(2), ["video0.hang", "audio0.hang", "video1.hang"]);
    assert_eq!(names(3), ["video0.hang", "audio0.hang"]);
    assert!(!second_video_flows(1) && second_video_flows(2) && second_video_flows(3) && !second_video_flows(4));
    let priorities: Vec<Option<u8>> = names(2).iter().map(|n| track_priority(n)).collect();
    assert_eq!(priorities, [Some(2), Some(1), Some(3)]);
    assert_eq!(track_priority("video2.hang"), None);
    let video = dummy_video(1280, 720);
    assert_eq!(video.framerate.map(|f| f64::from_bits(f.0)), Some(30.0));
    assert_eq!(video.bitrate, Some(2_000_000));
    assert!(matches!(video.container, Container::Legacy));
    assert_eq!(dummy_audio().sample_rate, 48_000);
}
