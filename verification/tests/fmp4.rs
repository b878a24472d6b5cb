use moq::mux::catalog::Container;
use moq::mux::cmsf_fmp4::CmsfFmp4Importer;
use moq::mux::codec::{AudioCodec, VideoCodec};
use moq::mux::fmp4::{timestamp, Config, Fmp4};
use moq::mux::fragment::ParseError;
use moq::mux::outbox::{Action, Outbox};
use moq::mux::parser::{CodecError, ImportError};
use moq::mux::types::{CmsfConfig, MuxError, TrackKind};
use mp4_atom::{Decode, Encode};

const KEY: u32 = 0x0200_0000;
const DELTA: u32 = 0x0001_0000;

fn outbox() -> Outbox {
    Outbox::new(vec![], Some(1_700_000_000_000))
}

fn avc1() -> mp4_atom::Codec {
    mp4_atom::Codec::Avc1(mp4_atom::Avc1 {
        visual: mp4_atom::Visual { width: 1280, height: 720, ..Default::default() },
        avcc: mp4_atom::Avcc {
            configuration_version: 1,
            avc_profile_indication: 100,
            profile_compatibility: 0,
            avc_level_indication: 31,
            length_size: 4,
            sequence_parameter_sets: vec![vec![0x67, 1, 2, 3]],
            picture_parameter_sets: vec![vec![0x68, 9]],
            ext: None,
        },
        btrt: None,
        colr: None,
        pasp: None,
        taic: None,
        fiel: None,
    })
}

fn mp4a(object_type_indication: u8) -> mp4_atom::Codec {
    mp4_atom::Codec::Mp4a(mp4_atom::Mp4a {
        audio: mp4_atom::Audio {
            data_reference_index: 1,
            channel_count: 2,
            sample_size: 16,
            sample_rate: mp4_atom::FixedPoint::new(44100, 0),
        },
        esds: mp4_atom::Esds {
            es_desc: mp4_atom::esds::EsDescriptor {
                es_id: 1,
                dec_config: mp4_atom::esds::DecoderConfig {
                    object_type_indication,
                    stream_type: 5,
                    up_stream: 0,
                    buffer_size_db: Default::default(),
                    max_bitrate: 125_000,
                    avg_bitrate: 120_000,
                    dec_specific: mp4_atom::esds::DecoderSpecific { profile: 2, freq_index: 4, chan_conf: 2 },
                },
                sl_config: Default::default(),
            },
        },
        btrt: None,
        taic: None,
    })
}

fn opus() -> mp4_atom::Codec {
    mp4_atom::Codec::Opus(mp4_atom::Opus {
        audio: mp4_atom::Audio {
            data_reference_index: 1,
            channel_count: 1,
            sample_size: 16,
            sample_rate: mp4_atom::FixedPoint::new(48000, 0),
        },
        dops: mp4_atom::Dops {
            output_channel_count: 1,
            pre_skip: 0,
            input_sample_rate: 48000,
            output_gain: 0,
        },
        btrt: None,
    })
}

fn trak(track_id: u32, handler: &[u8; 4], timescale: u32, codecs: Vec<mp4_atom::Codec>) -> mp4_atom::Trak {
    mp4_atom::Trak {
        tkhd: mp4_atom::Tkhd { track_id, ..Default::default() },
        mdia: mp4_atom::Mdia {
            mdhd: mp4_atom::Mdhd { timescale, ..Default::default() },
            hdlr: mp4_atom::Hdlr { handler: handler.into(), name: "h".into() },
            minf: mp4_atom::Minf {
                vmhd: Some(mp4_atom::Vmhd::default()),
                dinf: mp4_atom::Dinf { dref: mp4_atom::Dref { urls: vec![] } },
                stbl: mp4_atom::Stbl { stsd: mp4_atom::Stsd { codecs }, ..Default::default() },
                ..Default::default()
            },
        },
        ..Default::default()
    }
}

fn init(traks: Vec<mp4_atom::Trak>) -> Vec<u8> {
    let ftyp = mp4_atom::Ftyp {
        major_brand: b"isom".into(),
        minor_version: 0x200,
        compatible_brands: vec![b"isom".into()],
    };
    let trex = traks
        .iter()
        .map(|t| mp4_atom::Trex {
            track_id: t.tkhd.track_id,
            default_sample_description_index: 1,
            default_sample_duration: 7,
            default_sample_size: 0,
            default_sample_flags: 0,
        })
        .collect();
    let moov = mp4_atom::Moov {
        mvhd: mp4_atom::Mvhd { timescale: 1000, ..Default::default() },
        trak: traks,
        mvex: Some(mp4_atom::Mvex { mehd: None, trex }),
        ..Default::default()
    };
    let mut buf = Vec::new();
    ftyp.encode(&mut buf).unwrap();
    moov.encode(&mut buf).unwrap();
    buf
}

fn standard_init() -> Vec<u8> {
    init(vec![
        trak(1, b"vide", 90000, vec![avc1()]),
        trak(2, b"soun", 44100, vec![mp4a(0x40)]),
    ])
}

struct Sample {
    data: Vec<u8>,
    duration: u32,
    flags: u32,
}

fn sample(data: &[u8], duration: u32, flags: u32) -> Sample {
    Sample { data: data.to_vec(), duration, flags }
}

/// A moof with one run of samples for each track, and their mdat.
fn fragment(tracks: &[(u32, u64, Vec<Sample>)]) -> Vec<u8> {
    let build = |moof_size: usize| {
        let mut payload = Vec::new();
        let mut traf = Vec::new();
        for (track_id, time, samples) in tracks {
            let offset = moof_size + 8 + payload.len();
            for s in samples {
                payload.extend_from_slice(&s.data);
            }
            traf.push(mp4_atom::Traf {
                tfhd: mp4_atom::Tfhd { track_id: *track_id, ..Default::default() },
                tfdt: Some(mp4_atom::Tfdt { base_media_decode_time: *time }),
                trun: vec![mp4_atom::Trun {
                    data_offset: Some(offset as i32),
                    entries: samples
                        .iter()
                        .map(|s| mp4_atom::TrunEntry {
                            size: Some(s.data.len() as u32),
                            duration: Some(s.duration),
                            flags: Some(s.flags),
                            ..Default::default()
                        })
                        .collect(),
                }],
                ..Default::default()
            });
        }
        let mut moof = Vec::new();
        mp4_atom::Moof { mfhd: mp4_atom::Mfhd { sequence_number: 1 }, traf }.encode(&mut moof).unwrap();
        (moof, payload)
    };
    let size = build(0).0.len();
    let (mut buf, payload) = build(size);
    mp4_atom::Mdat { data: payload }.encode(&mut buf).unwrap();
    buf
}

fn two_track_fragment(time: u64, flags: u32) -> Vec<u8> {
    fragment(&[
        (1, time, vec![sample(b"VIDEO0", 3000, flags), sample(b"V1", 3000, DELTA)]),
        (2, time / 2, vec![sample(b"aud", 1024, KEY)]),
    ])
}

fn frames(out: &Outbox, wanted: usize) -> Vec<&Vec<u8>> {
    out.sent
        .iter()
        .filter_map(|a| match a {
            Action::WriteFrame { track, data } if *track == wanted => Some(data),
            _ => None,
        })
        .collect()
}

#[test]
fn test_start_group_without_explicit_mode_errors() {
    let mut fmp4 = Fmp4::new();

    let err = fmp4.start_group(5, &mut outbox()).expect_err("auto mode should reject start_group");
    assert!(
        err.message().contains("explicit group mode"),
        "unexpected error: {}",
        err.message()
    );
}

#[test]
fn test_start_group_before_moov_errors() {
    let mut fmp4 = Fmp4::new().with_explicit_groups();

    let err = fmp4.start_group(5, &mut outbox()).expect_err("start_group before moov should error");
    assert!(err.message().contains("no tracks"), "unexpected error: {}", err.message());
}

#[test]
fn tracks_are_announced_and_described() {
    let mut fmp4 = Fmp4::new();
    let mut out = outbox();
    assert!(!fmp4.is_initialized());
    let data = standard_init();
    assert_eq!(fmp4.decode(&data, &mut out).unwrap(), data.len());
    assert!(fmp4.is_initialized());
    assert_eq!(out.sent.len(), 2);
    assert!(matches!(&out.sent[1], Action::UniqueTrack { track: 1, suffix } if suffix == ".m4s"));

    let sink = &fmp4.parser.sink;
    assert_eq!(sink.tracks.len(), 2);
    assert_eq!((sink.tracks[0].id, sink.tracks[0].kind), (1, TrackKind::Video));
    match &sink.catalog[0].config {
        Config::Video(v) => {
            assert!(matches!(&v.codec, VideoCodec::H264(c) if c.profile == 100 && c.level == 31 && !c.inline));
            assert_eq!((v.coded_width, v.coded_height), (Some(1280), Some(720)));
            assert_eq!(v.description.as_ref().unwrap()[..4], [1, 100, 0, 31]);
            match &v.container {
                Container::Cmaf { init } => {
                    let mut buf = &init[..];
                    mp4_atom::Ftyp::decode(&mut buf).unwrap();
                    let moov = mp4_atom::Moov::decode(&mut buf).unwrap();
                    assert_eq!(moov.trak.len(), 1);
                    assert_eq!(moov.trak[0].tkhd.track_id, 1);
                    assert_eq!(moov.mvex.unwrap().trex.len(), 1);
                }
                _ => panic!("must be CMAF"),
            }
        }
        _ => panic!("must be video"),
    }
    match &sink.catalog[1].config {
        Config::Audio(a) => {
            assert!(matches!(&a.codec, AudioCodec::AAC(c) if c.profile == 2));
            assert_eq!((a.sample_rate, a.channel_count), (44100, 2));
            assert_eq!(a.bitrate, Some(125_000));
            assert_eq!(a.description, Some(vec![0x12, 0x10]));
        }
        _ => panic!("must be audio"),
    }
}

#[test]
fn a_fragment_is_taken_apart_by_track() {
    let mut fmp4 = Fmp4::new();
    let mut out = outbox();
    fmp4.decode(&standard_init(), &mut out).unwrap();
    fmp4.decode(&two_track_fragment(9000, KEY), &mut out).unwrap();
    for (track, id, payload) in [(0, 1, b"VIDEO0V1".to_vec()), (1, 2, b"aud".to_vec())] {
        let data = frames(&out, track)[0];
        let mut buf = &data[..];
        let moof = mp4_atom::Moof::decode(&mut buf).unwrap();
        let moof_size = data.len() - buf.len();
        let mdat = mp4_atom::Mdat::decode(&mut buf).unwrap();
        assert!(buf.is_empty());
        assert_eq!(mdat.data, payload);
        assert_eq!(moof.traf.len(), 1);
        assert_eq!(moof.traf[0].tfhd.track_id, id);
        // The offset leads to the samples.
        let offset = moof.traf[0].trun[0].data_offset.unwrap() as usize;
        assert_eq!(offset, moof_size + 8);
        assert_eq!(data[offset..], payload[..]);
    }
}

#[test]
fn media_is_unchanged_however_the_length_is_told() {
    let payload: Vec<u8> = (0..=255).collect();
    let mut moof = Vec::new();
    let traf = mp4_atom::Traf {
        tfhd: mp4_atom::Tfhd { track_id: 1, ..Default::default() },
        tfdt: Some(mp4_atom::Tfdt { base_media_decode_time: 9000 }),
        trun: vec![mp4_atom::Trun {
            data_offset: None,
            entries: vec![mp4_atom::TrunEntry {
                size: Some(200),
                duration: Some(3000),
                flags: Some(KEY),
                ..Default::default()
            }],
        }],
        ..Default::default()
    };
    mp4_atom::Moof { mfhd: mp4_atom::Mfhd { sequence_number: 1 }, traf: vec![traf] }
        .encode(&mut moof)
        .unwrap();
    let short = [&264u32.to_be_bytes()[..], b"mdat"].concat();
    let long = [&1u32.to_be_bytes()[..], b"mdat", &272u64.to_be_bytes()].concat();
    let open = [&0u32.to_be_bytes()[..], b"mdat"].concat();
    for header in [short, long, open] {
        let mut fmp4 = Fmp4::new();
        let mut out = outbox();
        fmp4.decode(&standard_init(), &mut out).unwrap();
        let data = [&moof[..], &header, &payload].concat();
        assert_eq!(fmp4.decode(&data, &mut out).unwrap(), data.len());
        let frame = frames(&out, 0)[0];
        let at = frame.len() - 200;
        assert_eq!(frame[at..], payload[..200]);
        assert_eq!(frame[at - 8..at], *[&208u32.to_be_bytes()[..], b"mdat"].concat());
    }
}

#[test]
fn groups_follow_keyframes() {
    let mut fmp4 = Fmp4::new();
    let mut out = outbox();
    fmp4.decode(&standard_init(), &mut out).unwrap();
    let err = fmp4.decode(&two_track_fragment(0, DELTA), &mut out).unwrap_err();
    assert!(matches!(err, ImportError::NoKeyframe));
    assert_eq!(err.message(), "no keyframe at start");

    let mut fmp4 = Fmp4::new();
    let mut out = outbox();
    fmp4.decode(&standard_init(), &mut out).unwrap();
    for (time, flags) in [(0, KEY), (6000, DELTA), (12000, KEY)] {
        fmp4.decode(&two_track_fragment(time, flags), &mut out).unwrap();
    }
    let video: Vec<&str> = out
        .sent
        .iter()
        .filter_map(|a| match a {
            Action::AppendGroup { track: 0 } => Some("open"),
            Action::WriteFrame { track: 0, .. } => Some("write"),
            Action::FinishGroup { track: 0 } => Some("finish"),
            _ => None,
        })
        .collect();
    assert_eq!(video, ["open", "write", "write", "finish", "open", "write"]);
    fmp4.finish(&mut out).unwrap();
    assert!(matches!(out.sent.last(), Some(Action::FinishTrack { track: 1 })));
    assert!(fmp4.parser.sink.tracks.iter().all(|t| !t.open));
}

#[test]
fn explicit_groups_take_the_fragments() {
    let mut fmp4 = Fmp4::new().with_explicit_groups();
    let mut out = outbox();
    fmp4.decode(&standard_init(), &mut out).unwrap();
    let err = fmp4.decode(&two_track_fragment(0, KEY), &mut out).unwrap_err();
    assert!(matches!(err, ImportError::NoActiveGroup));

    let mut out = outbox();
    fmp4.start_group(42, &mut out).unwrap();
    assert!(matches!(out.sent[0], Action::CreateGroup { track: 0, sequence: 42 }));
    assert!(matches!(out.sent[1], Action::CreateGroup { track: 1, sequence: 42 }));
    fmp4.decode(&two_track_fragment(6000, DELTA), &mut out).unwrap();
    fmp4.decode(&two_track_fragment(12000, KEY), &mut out).unwrap();
    assert_eq!(frames(&out, 0).len(), 2);
    assert!(!out.sent.iter().any(|a| matches!(a, Action::AppendGroup { .. })));
    let mut out = outbox();
    fmp4.start_group(43, &mut out).unwrap();
    assert!(matches!(out.sent[0], Action::FinishGroup { track: 0 }));
    assert!(matches!(out.sent[1], Action::CreateGroup { track: 0, sequence: 43 }));
}

#[test]
fn jitter_falls_to_the_distance_of_frames() {
    let mut fmp4 = Fmp4::new();
    let mut out = outbox();
    fmp4.decode(&standard_init(), &mut out).unwrap();
    fmp4.decode(&two_track_fragment(0, KEY), &mut out).unwrap();
    // Two samples 3000 ticks of 90 kHz apart: from the first to one after the last.
    let t = &fmp4.parser.sink.tracks[0];
    assert_eq!(t.min_duration, Some(33_333));
    assert_eq!(t.jitter, Some(66_666));
    match &fmp4.parser.sink.catalog[0].config {
        Config::Video(v) => assert_eq!(v.jitter, Some(66)),
        _ => panic!("must be video"),
    }
    let one = fragment(&[(1, 6000, vec![sample(b"x", 3000, DELTA)])]);
    fmp4.decode(&one, &mut out).unwrap();
    assert_eq!(fmp4.parser.sink.tracks[0].jitter, Some(33_333));
    fmp4.decode(&two_track_fragment(9000, DELTA), &mut out).unwrap();
    assert_eq!(fmp4.parser.sink.tracks[0].jitter, Some(33_333));
}

#[test]
fn times_are_counted_in_62_bits() {
    assert_eq!(timestamp(90_000, 90_000), Some(1_000_000));
    assert_eq!(timestamp(1, 3), Some(333_333));
    assert_eq!(timestamp(5, 0), None);
    assert_eq!(timestamp(u64::MAX, 1), None);
}

#[test]
fn bytes_may_come_in_pieces() {
    let mut data = standard_init();
    data.extend(two_track_fragment(0, KEY));
    let mut whole = outbox();
    let mut fmp4 = Fmp4::new();
    assert_eq!(fmp4.decode(&data, &mut whole).unwrap(), data.len());

    let mut pieces = outbox();
    let mut fmp4 = Fmp4::new();
    let mut buffer: Vec<u8> = Vec::new();
    for chunk in data.chunks(37) {
        buffer.extend_from_slice(chunk);
        let n = fmp4.decode(&buffer, &mut pieces).unwrap();
        buffer.drain(..n);
    }
    assert!(buffer.is_empty());
    assert_eq!(frames(&whole, 0), frames(&pieces, 0));
    assert_eq!(frames(&whole, 1), frames(&pieces, 1));
}

#[test]
fn a_track_that_goes_leaves_the_catalog() {
    let mut fmp4 = Fmp4::new();
    fmp4.decode(&standard_init(), &mut outbox()).unwrap();
    assert_eq!(fmp4.parser.sink.catalog.len(), 2);
    // Announced once more, the tracks replace those before them, which stay listed.
    fmp4.decode(&standard_init(), &mut outbox()).unwrap();
    assert_eq!(fmp4.parser.sink.tracks.len(), 2);
    assert_eq!(fmp4.parser.sink.catalog.len(), 4);
    fmp4.unlist();
    assert_eq!(fmp4.parser.sink.catalog.len(), 2);
}

#[test]
fn a_refused_track_is_not_announced() {
    let mut fmp4 = Fmp4::new();
    let mut out = Outbox::new(vec![false, true], None);
    let err = fmp4.decode(&standard_init(), &mut out).unwrap_err();
    assert!(matches!(err, ImportError::Mux(MuxError::Refused)));
    assert!(!fmp4.is_initialized());
    assert_eq!(fmp4.parser.sink.tracks.len(), 1);
}

#[test]
fn a_refused_frame_closes_the_group() {
    let mut fmp4 = Fmp4::new();
    fmp4.decode(&standard_init(), &mut outbox()).unwrap();
    // The group is opened, and the frame is refused.
    let mut out = Outbox::new(vec![false, true], None);
    assert!(fmp4.decode(&two_track_fragment(0, KEY), &mut out).is_err());
    assert!(!fmp4.parser.sink.tracks[0].open);
}

#[test]
fn what_cannot_be_described() {
    for (traks, error, message) in [
        (vec![trak(1, b"vide", 1, vec![])], CodecError::Missing, "missing codec"),
        (vec![trak(1, b"vide", 1, vec![avc1(), avc1()])], CodecError::Multiple, "multiple codecs"),
        (vec![trak(1, b"soun", 1, vec![mp4a(0x67)])], CodecError::Mpeg2, "unsupported codec: MPEG2"),
    ] {
        let err = Fmp4::new().decode(&init(traks), &mut outbox()).unwrap_err();
        assert!(matches!(&err, ImportError::Codec(e) if *e == error), "{:?}", err);
        assert_eq!(err.message(), message);
    }
    for (handler, entry) in [(b"vide", opus()), (b"soun", avc1())] {
        let said = format!("unsupported codec: {:?}", entry);
        let err = Fmp4::new().decode(&init(vec![trak(1, handler, 1, vec![entry])]), &mut outbox()).unwrap_err();
        assert!(matches!(err, ImportError::UnsupportedCodec(_)));
        assert_eq!(err.message(), said);
    }
    let err = Fmp4::new().decode(&init(vec![trak(1, b"sbtl", 1, vec![])]), &mut outbox()).unwrap_err();
    assert!(matches!(err, ImportError::Parse(ParseError::Subtitles)));
    let err = Fmp4::new().decode(&init(vec![trak(1, b"meta", 1, vec![])]), &mut outbox()).unwrap_err();
    assert!(matches!(err, ImportError::Parse(ParseError::UnknownHandler(0x6d65_7461))));
    assert_eq!(err.message(), "unknown track type: [109, 101, 116, 97]");
}

#[test]
fn a_codec_that_is_not_known() {
    // The entry of the one track is named otherwise.
    let mut data = init(vec![trak(1, b"vide", 1, vec![avc1()])]);
    let at = data.windows(4).position(|w| w == b"avc1").unwrap();
    data[at..at + 4].copy_from_slice(b"xyzw");
    let err = Fmp4::new().decode(&data, &mut outbox()).unwrap_err();
    assert!(matches!(&err, ImportError::UnknownCodec(kind) if kind == "xyzw"));
    assert_eq!(err.message(), "unknown codec: xyzw");
}

#[test]
fn what_the_other_errors_say() {
    let err = ImportError::Parse(ParseError::UnexpectedHandler(0x6869_6e74));
    assert_eq!(err.message(), "unexpected track handler in traf: [104, 105, 110, 116]");
    let err = ImportError::Parse(ParseError::OutOfRange { start: 3, end: 2, len: 9 });
    assert_eq!(err.message(), "track sample range 3..2 is out of bounds of mdat (len 9)");
    assert_eq!(ImportError::MissingConfig(TrackKind::Audio).message(), "missing audio config");
}

#[test]
fn fragments_out_of_place() {
    let f = two_track_fragment(0, KEY);
    let err = Fmp4::new().decode(&f, &mut outbox()).unwrap_err();
    assert!(matches!(err, ImportError::Parse(ParseError::MissingMoov)));

    let mdat_at = {
        let mut buf = &f[..];
        mp4_atom::Moof::decode(&mut buf).unwrap();
        f.len() - buf.len()
    };
    let mut fmp4 = Fmp4::new();
    fmp4.decode(&standard_init(), &mut outbox()).unwrap();
    let err = fmp4.decode(&f[mdat_at..], &mut outbox()).unwrap_err();
    assert!(matches!(err, ImportError::Parse(ParseError::MissingMoof)));

    fmp4.decode(&f[..mdat_at], &mut outbox()).unwrap();
    let err = fmp4.decode(&f[..mdat_at], &mut outbox()).unwrap_err();
    assert!(matches!(err, ImportError::Parse(ParseError::DuplicateMoof)));

    let mut fmp4 = Fmp4::new();
    fmp4.decode(&standard_init(), &mut outbox()).unwrap();
    let strange = fragment(&[(9, 0, vec![sample(b"x", 1, KEY)])]);
    let err = fmp4.decode(&strange, &mut outbox()).unwrap_err();
    assert!(matches!(err, ImportError::Parse(ParseError::UnknownTrack)));
}

#[test]
fn cmsf_tracks_are_named_and_grouped() {
    let mut out = outbox();
    let mut importer = CmsfFmp4Importer::new(CmsfConfig::default(), &mut out).unwrap();
    assert!(!importer.is_initialized());
    importer
        .decode(
            &init(vec![
                trak(7, b"vide", 90000, vec![avc1()]),
                trak(8, b"soun", 48000, vec![opus()]),
            ]),
            &mut out,
        )
        .unwrap();
    assert!(importer.is_initialized());
    let catalog = importer.msf_catalog(Some(5));
    assert_eq!(catalog.generated_at, Some(5));
    assert_eq!(catalog.tracks[0].name, "video0.m4s");
    assert_eq!(catalog.tracks[0].alt_group, Some(1));
    assert_eq!(catalog.tracks[1].name, "audio0.m4s");
    assert_eq!(catalog.tracks[1].alt_group, Some(2));
    assert_eq!(catalog.tracks[1].samplerate, Some(48000));
    assert_eq!(catalog.tracks[1].channel_config.as_deref(), Some("1"));

    let mut out = outbox();
    let f = |time, flags| {
        fragment(&[(7, time, vec![sample(b"vv", 3000, flags)]), (8, time, vec![sample(b"a", 960, KEY)])])
    };
    importer.decode(&f(0, KEY), &mut out).unwrap();
    importer.decode(&f(3000, DELTA), &mut out).unwrap();
    importer.decode(&f(6000, KEY), &mut out).unwrap();
    assert_eq!(frames(&out, 1).len(), 3);
    let opened = out.sent.iter().filter(|a| matches!(a, Action::AppendGroup { track: 1 })).count();
    assert_eq!(opened, 2);
    let t = &importer.msf_catalog(None).tracks[0];
    assert_eq!(t.max_grp_sap_starting_type, Some(1));
    importer.finish(&mut out).unwrap();
}

#[test]
fn cmsf_needs_its_catalog_track() {
    let mut out = Outbox::new(vec![true], None);
    let res = CmsfFmp4Importer::new(CmsfConfig::default(), &mut out);
    assert!(matches!(res.err(), Some(MuxError::Refused)));
    let mut out = outbox();
    CmsfFmp4Importer::new(CmsfConfig { publish_hang: true }, &mut out).unwrap();
    assert_eq!(out.sent.len(), 2);
}

/// An object that is published, and the catalog track that describes it, of a fragment whose
/// samples take their flags from the track.
fn published(flags: u32) -> (Vec<u8>, moq::mux::catalog::MsfTrack) {
    let mut traks = vec![trak(7, b"vide", 90000, vec![avc1()])];
    let mut moov = mp4_atom::Moov {
        mvhd: mp4_atom::Mvhd { timescale: 1000, ..Default::default() },
        trak: vec![traks.remove(0)],
        ..Default::default()
    };
    moov.mvex = Some(mp4_atom::Mvex {
        mehd: None,
        trex: vec![mp4_atom::Trex {
            track_id: 7,
            default_sample_description_index: 1,
            default_sample_duration: 3000,
            default_sample_size: 4,
            default_sample_flags: flags,
        }],
    });
    let run = |data_offset: i32| mp4_atom::Trun {
        data_offset: Some(data_offset),
        entries: vec![
            mp4_atom::TrunEntry { duration: Some(3000), cts: Some(1500), ..Default::default() },
            mp4_atom::TrunEntry { duration: Some(3001), cts: Some(-20), ..Default::default() },
        ],
    };
    let moof = |data_offset: i32| mp4_atom::Moof {
        mfhd: mp4_atom::Mfhd { sequence_number: 9 },
        traf: vec![mp4_atom::Traf {
            tfhd: mp4_atom::Tfhd { track_id: 7, ..Default::default() },
            tfdt: Some(mp4_atom::Tfdt { base_media_decode_time: 90_000 }),
            trun: vec![run(data_offset)],
            ..Default::default()
        }],
    };
    let mut measured = Vec::new();
    moof(0).encode(&mut measured).unwrap();
    let mut data = Vec::new();
    moov.encode(&mut data).unwrap();
    moof(measured.len() as i32 + 8).encode(&mut data).unwrap();
    mp4_atom::Mdat { data: b"abcdefgh".to_vec() }.encode(&mut data).unwrap();

    let mut out = outbox();
    let mut importer = CmsfFmp4Importer::new(CmsfConfig { publish_hang: false }, &mut out).unwrap();
    let res = importer.decode(&data, &mut out);
    let frame = out.sent.iter().find_map(|a| match a {
        Action::WriteFrame { data, .. } => Some(data.clone()),
        _ => None,
    });
    let catalog = importer.msf_catalog(None);
    assert_eq!(res.is_ok(), frame.is_some());
    (frame.unwrap_or_default(), catalog.tracks[0].clone())
}

#[test]
fn an_object_says_what_its_first_sample_said() {
    let (object, _) = published(KEY);
    let meta = moq::mux::cmsf::parse_cmsf_metadata(&object).unwrap();
    assert_eq!(meta.pts, 91_500);
    assert_eq!(meta.duration, 6001);
    assert!(meta.is_keyframe);

    // Every sample has its flags, and the samples follow the moof and the header of the mdat.
    let moof = mp4_atom::Moof::decode(&mut &object[..]).unwrap();
    let run = &moof.traf[0].trun[0];
    assert_eq!(run.entries[1].flags, Some(KEY));
    assert_eq!(run.entries[1].cts, Some(-20));
    let at = run.data_offset.unwrap() as usize;
    assert_eq!(&object[at..], b"abcdefgh");
}

#[test]
fn an_object_that_is_no_keyframe_is_refused_first() {
    let (object, _) = published(DELTA);
    assert!(object.is_empty());
}

#[test]
fn a_subscriber_reads_the_init_segment_that_was_published() {
    let (_, track) = published(KEY);
    let consumer = moq::mux::consumer::TrackConsumer::new("video0".to_string());
    let demuxer = moq::mux::demux::CmsfTrackDemuxer::from_msf_track(consumer, &track).unwrap();
    assert_eq!(demuxer.timescale, 90000);
    assert_eq!(moq::mux::cmsf::parse_timescale(demuxer.init_data()).unwrap(), 90000);

    // Merged with another one, the tracks are numbered from one on, with their defaults.
    let inits = vec![demuxer.init_data().clone(), demuxer.init_data().clone()];
    let merged = moq::mux::init::build_merged_init(&inits).unwrap();
    let mut rest = &merged[..];
    mp4_atom::Ftyp::decode(&mut rest).unwrap();
    let moov = mp4_atom::Moov::decode(&mut rest).unwrap();
    let ids: Vec<u32> = moov.trak.iter().map(|t| t.tkhd.track_id).collect();
    assert_eq!(ids, vec![1, 2]);
    let defaults = moov.mvex.unwrap().trex;
    assert_eq!(defaults[1].track_id, 2);
    assert_eq!(defaults[1].default_sample_duration, 3000);
}
