use moq::mux::cmsf::{parse_cmsf_metadata, parse_timescale, CmsfError};
use mp4_atom::Encode;

/// Build a minimal valid moof+mdat with the given DTS, sample duration, and flags.
fn build_moof_mdat(dts: u64, duration: u32, flags: u32) -> Vec<u8> {
    let moof = mp4_atom::Moof {
        mfhd: mp4_atom::Mfhd { sequence_number: 1 },
        traf: vec![mp4_atom::Traf {
            tfhd: mp4_atom::Tfhd {
                track_id: 1,
                ..Default::default()
            },
            tfdt: Some(mp4_atom::Tfdt {
                base_media_decode_time: dts,
            }),
            trun: vec![mp4_atom::Trun {
                data_offset: Some(0),
                entries: vec![mp4_atom::TrunEntry {
                    size: Some(4),
                    duration: Some(duration),
                    flags: Some(flags),
                    ..Default::default()
                }],
            }],
            ..Default::default()
        }],
    };
    let mdat = mp4_atom::Mdat { data: vec![0; 4] };
    let mut buf = Vec::new();
    moof.encode(&mut buf).unwrap();
    mdat.encode(&mut buf).unwrap();
    buf
}

/// Build a minimal valid init segment (ftyp+moov) with the given timescale.
fn build_init_segment(timescale: u32) -> Vec<u8> {
    let ftyp = mp4_atom::Ftyp {
        major_brand: b"isom".into(),
        minor_version: 0x200,
        compatible_brands: vec![b"isom".into()],
    };
    let moov = mp4_atom::Moov {
        mvhd: mp4_atom::Mvhd {
            timescale,
            ..Default::default()
        },
        trak: vec![mp4_atom::Trak {
            tkhd: mp4_atom::Tkhd {
                track_id: 1,
                ..Default::default()
            },
            mdia: mp4_atom::Mdia {
                mdhd: mp4_atom::Mdhd {
                    timescale,
                    ..Default::default()
                },
                hdlr: mp4_atom::Hdlr {
                    handler: b"vide".into(),
                    name: "V".into(),
                },
                minf: mp4_atom::Minf {
                    vmhd: Some(mp4_atom::Vmhd::default()),
                    dinf: mp4_atom::Dinf {
                        dref: mp4_atom::Dref { urls: vec![] },
                    },
                    stbl: mp4_atom::Stbl {
                        stsd: mp4_atom::Stsd { codecs: vec![] },
                        ..Default::default()
                    },
                    ..Default::default()
                },
            },
            ..Default::default()
        }],
        ..Default::default()
    };
    let mut buf = Vec::new();
    ftyp.encode(&mut buf).unwrap();
    moov.encode(&mut buf).unwrap();
    buf
}

#[test]
fn parse_keyframe() {
    let data = build_moof_mdat(90000, 3000, 0x0200_0000);
    let meta = parse_cmsf_metadata(&data).unwrap();
    assert_eq!(meta.pts, 90000);
    assert_eq!(meta.duration, 3000);
    assert!(meta.is_keyframe);
}

#[test]
fn parse_non_keyframe() {
    let data = build_moof_mdat(93000, 3000, 0x0001_0000);
    let meta = parse_cmsf_metadata(&data).unwrap();
    assert_eq!(meta.pts, 93000);
    assert!(!meta.is_keyframe);
}

#[test]
fn parse_empty_input() {
    assert!(matches!(parse_cmsf_metadata(&[]), Err(CmsfError::NoMoof)));
}

#[test]
fn input_that_ends_before_an_atom_does() {
    let data = build_moof_mdat(90000, 3000, 0x0200_0000);
    for n in [1, 7, 8, 20] {
        assert!(matches!(parse_cmsf_metadata(&data[..n]), Err(CmsfError::NoMoof)));
        assert!(matches!(parse_timescale(&data[..n]), Err(CmsfError::NoMoov)));
    }
    // A length of eight bytes that is not there, and one that is more than there is.
    for long in [&[0, 0, 0, 1, b'm', b'o', b'o', b'f', 0, 0][..], &[0, 0, 0, 1, b'm', b'o', b'o', b'f', 0, 0, 0, 0, 0, 0, 0, 17]] {
        assert!(matches!(parse_cmsf_metadata(long), Err(CmsfError::NoMoof)));
    }
}

#[test]
fn a_length_that_is_less_than_its_header() {
    for n in 2..8 {
        let err = parse_cmsf_metadata(&[0, 0, 0, n, b'm', b'o', b'o', b'f']).unwrap_err();
        assert!(matches!(err, CmsfError::Mp4(m) if m == "invalid size"));
    }
    let mut long = vec![0, 0, 0, 1, b'm', b'o', b'o', b'f'];
    long.extend_from_slice(&15u64.to_be_bytes());
    assert!(matches!(parse_cmsf_metadata(&long), Err(CmsfError::Mp4(m)) if m == "invalid size"));
}

#[test]
fn parse_no_tfdt() {
    let moof = mp4_atom::Moof {
        mfhd: mp4_atom::Mfhd { sequence_number: 1 },
        traf: vec![mp4_atom::Traf {
            tfhd: mp4_atom::Tfhd {
                track_id: 1,
                ..Default::default()
            },
            tfdt: None,
            trun: vec![mp4_atom::Trun {
                data_offset: Some(0),
                entries: vec![mp4_atom::TrunEntry {
                    size: Some(4),
                    duration: Some(1000),
                    flags: Some(0x0200_0000),
                    ..Default::default()
                }],
            }],
            ..Default::default()
        }],
    };
    let mut buf = Vec::new();
    moof.encode(&mut buf).unwrap();
    assert!(matches!(parse_cmsf_metadata(&buf), Err(CmsfError::NoTfdt)));
}

#[test]
fn parse_no_trun() {
    let moof = mp4_atom::Moof {
        mfhd: mp4_atom::Mfhd { sequence_number: 1 },
        traf: vec![mp4_atom::Traf {
            tfhd: mp4_atom::Tfhd {
                track_id: 1,
                ..Default::default()
            },
            tfdt: Some(mp4_atom::Tfdt {
                base_media_decode_time: 0,
            }),
            trun: vec![],
            ..Default::default()
        }],
    };
    let mut buf = Vec::new();
    moof.encode(&mut buf).unwrap();
    assert!(matches!(parse_cmsf_metadata(&buf), Err(CmsfError::NoTrun)));
}

#[test]
fn parse_timescale_valid() {
    let init = build_init_segment(48000);
    assert_eq!(parse_timescale(&init).unwrap(), 48000);
}

#[test]
fn parse_timescale_no_moov() {
    assert!(matches!(parse_timescale(&[]), Err(CmsfError::NoMoov)));
}

#[test]
fn parse_multi_sample_duration() {
    let entries: Vec<mp4_atom::TrunEntry> = (0..4)
        .map(|i| mp4_atom::TrunEntry {
            size: Some(4),
            duration: Some(1000),
            flags: Some(if i == 0 { 0x0200_0000 } else { 0x0001_0000 }),
            ..Default::default()
        })
        .collect();
    let moof = mp4_atom::Moof {
        mfhd: mp4_atom::Mfhd { sequence_number: 1 },
        traf: vec![mp4_atom::Traf {
            tfhd: mp4_atom::Tfhd {
                track_id: 1,
                ..Default::default()
            },
            tfdt: Some(mp4_atom::Tfdt {
                base_media_decode_time: 0,
            }),
            trun: vec![mp4_atom::Trun {
                data_offset: Some(0),
                entries,
            }],
            ..Default::default()
        }],
    };
    let mdat = mp4_atom::Mdat { data: vec![0; 16] };
    let mut buf = Vec::new();
    moof.encode(&mut buf).unwrap();
    mdat.encode(&mut buf).unwrap();
    let meta = parse_cmsf_metadata(&buf).unwrap();
    assert_eq!(meta.duration, 4000);
    assert!(meta.is_keyframe);
}

#[test]
fn parse_default_duration_fallback() {
    let moof = mp4_atom::Moof {
        mfhd: mp4_atom::Mfhd { sequence_number: 1 },
        traf: vec![mp4_atom::Traf {
            tfhd: mp4_atom::Tfhd {
                track_id: 1,
                default_sample_duration: Some(512),
                default_sample_flags: Some(0x0200_0000),
                ..Default::default()
            },
            tfdt: Some(mp4_atom::Tfdt {
                base_media_decode_time: 0,
            }),
            trun: vec![mp4_atom::Trun {
                data_offset: Some(0),
                entries: vec![
                    mp4_atom::TrunEntry {
                        size: Some(4),
                        ..Default::default()
                    },
                    mp4_atom::TrunEntry {
                        size: Some(4),
                        ..Default::default()
                    },
                    mp4_atom::TrunEntry {
                        size: Some(4),
                        ..Default::default()
                    },
                ],
            }],
            ..Default::default()
        }],
    };
    let mdat = mp4_atom::Mdat { data: vec![0; 12] };
    let mut buf = Vec::new();
    moof.encode(&mut buf).unwrap();
    mdat.encode(&mut buf).unwrap();
    let meta = parse_cmsf_metadata(&buf).unwrap();
    assert_eq!(meta.duration, 512 * 3);
    assert!(meta.is_keyframe);
}
