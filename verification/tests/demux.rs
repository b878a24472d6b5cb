use base64::Engine;
use moq::cli::subscribe::{Subscribe, SubscribeArgs, SubscribeError, SubscribeFormat};
use moq::error::Error;
use moq::mux::broadcast_demux::{CatalogFrame, CmsfBroadcastDemuxer};
use moq::mux::catalog::{MsfCatalog, MsfTrack, Packaging};
use moq::mux::cmsf::CmsfError;
use moq::mux::consumer::{GroupConsumer, Polled, TrackConsumer};
use moq::mux::demux::{CmsfSegment, CmsfTrackDemuxer, EndReason};
use moq::mux::init::build_merged_init;
use moq::mux::outbox::{Action, Outbox};
use moq::time::Duration;
use mp4_atom::{Decode, Encode};

fn segment(dts: u64, flags: u32) -> Vec<u8> {
    let moof = mp4_atom::Moof {
        mfhd: mp4_atom::Mfhd { sequence_number: 1 },
        traf: vec![mp4_atom::Traf {
            tfhd: mp4_atom::Tfhd { track_id: 1, ..Default::default() },
            tfdt: Some(mp4_atom::Tfdt { base_media_decode_time: dts }),
            trun: vec![mp4_atom::Trun {
                data_offset: Some(0),
                entries: vec![mp4_atom::TrunEntry {
                    size: Some(4),
                    duration: Some(3000),
                    flags: Some(flags),
                    ..Default::default()
                }],
            }],
            ..Default::default()
        }],
    };
    let mut buf = Vec::new();
    moof.encode(&mut buf).unwrap();
    mp4_atom::Mdat { data: vec![0; 4] }.encode(&mut buf).unwrap();
    buf
}

fn init(track_ids: &[u32], timescale: u32, duration: Option<u32>) -> Vec<u8> {
    let ftyp = mp4_atom::Ftyp {
        major_brand: b"isom".into(),
        minor_version: 0x200,
        compatible_brands: vec![b"isom".into()],
    };
    let moov = mp4_atom::Moov {
        mvhd: mp4_atom::Mvhd { timescale, ..Default::default() },
        trak: track_ids
            .iter()
            .map(|id| mp4_atom::Trak {
                tkhd: mp4_atom::Tkhd { track_id: *id, ..Default::default() },
                mdia: mp4_atom::Mdia {
                    mdhd: mp4_atom::Mdhd { timescale, ..Default::default() },
                    hdlr: mp4_atom::Hdlr { handler: b"vide".into(), name: "V".into() },
                    minf: mp4_atom::Minf {
                        vmhd: Some(mp4_atom::Vmhd::default()),
                        dinf: mp4_atom::Dinf { dref: mp4_atom::Dref { urls: vec![] } },
                        stbl: mp4_atom::Stbl {
                            stsd: mp4_atom::Stsd { codecs: vec![] },
                            ..Default::default()
                        },
                        ..Default::default()
                    },
                },
                ..Default::default()
            })
            .collect(),
        mvex: duration.map(|d| mp4_atom::Mvex {
            mehd: None,
            trex: track_ids
                .iter()
                .map(|id| mp4_atom::Trex {
                    track_id: *id,
                    default_sample_description_index: 1,
                    default_sample_duration: d,
                    default_sample_size: 0,
                    default_sample_flags: 0,
                })
                .collect(),
        }),
        ..Default::default()
    };
    let mut buf = Vec::new();
    ftyp.encode(&mut buf).unwrap();
    moov.encode(&mut buf).unwrap();
    buf
}

fn text(data: &[u8]) -> String {
    base64::engine::general_purpose::STANDARD.encode(data)
}

fn listed(name: &str, packaging: Packaging, init_data: Option<String>) -> MsfTrack {
    MsfTrack {
        name: name.to_string(),
        packaging,
        is_live: true,
        role: None,
        codec: None,
        width: None,
        height: None,
        framerate: None,
        samplerate: None,
        channel_config: None,
        bitrate: None,
        init_data,
        render_group: None,
        alt_group: None,
        max_grp_sap_starting_type: None,
        max_obj_sap_starting_type: None,
    }
}

fn catalog(tracks: Vec<MsfTrack>) -> MsfCatalog {
    MsfCatalog { version: 1, generated_at: None, tracks }
}

fn cmaf(name: &str) -> MsfTrack {
    listed(name, Packaging::Cmaf, Some(text(&init(&[1], 90000, Some(5)))))
}

fn group<T>(sequence: u64, frames: Vec<Result<Option<T>, Error>>) -> Result<Option<GroupConsumer<T>>, Error> {
    Ok(Some(GroupConsumer { sequence, frames }))
}

fn out() -> Outbox {
    Outbox::new(vec![], None)
}

fn demuxer(groups: Vec<Result<Option<GroupConsumer<Vec<u8>>>, Error>>) -> CmsfTrackDemuxer {
    CmsfTrackDemuxer::new(TrackConsumer { name: "video0.m4s".to_string(), groups }, vec![7], 90000)
}

fn ready(res: Polled<Result<Option<CmsfSegment>, CmsfError>>) -> Option<CmsfSegment> {
    match res {
        Polled::Ready(r) => r.unwrap(),
        Polled::Pending => panic!("pending"),
    }
}

#[test]
fn segments_come_frame_by_frame_and_group_by_group() {
    let mut d = demuxer(vec![
        group(4, vec![Ok(Some(segment(90000, 0x0200_0000))), Ok(Some(segment(93000, 0x0001_0000))), Ok(None)]),
        group(5, vec![Err(Error::Cancel)]),
        group(6, vec![Ok(Some(segment(96000, 0x0200_0000)))]),
    ]);
    let s = ready(d.poll_next()).unwrap();
    assert_eq!((s.track_name.as_str(), s.group_id, s.pts, s.duration), ("video0.m4s", 4, 90000, 3000));
    assert_eq!(s.timescale, 90000);
    assert!(s.is_keyframe);
    assert_eq!(s.media_data, segment(90000, 0x0200_0000));
    let s = ready(d.poll_next()).unwrap();
    assert!(!s.is_keyframe);
    assert_eq!(ready(d.poll_next()).unwrap().group_id, 6);
    assert!(matches!(d.poll_next(), Polled::Pending));
    assert!(d.end_reason().is_none());
    assert_eq!(*d.init_data(), vec![7]);
}

#[test]
fn a_track_ends_or_fails() {
    let mut d = demuxer(vec![Ok(None)]);
    assert!(ready(d.poll_next()).is_none());
    assert!(matches!(d.end_reason(), Some(EndReason::TrackFinished)));
    let mut d = demuxer(vec![Err(Error::NotFound)]);
    assert!(ready(d.poll_next()).is_none());
    assert!(matches!(d.end_reason(), Some(EndReason::TrackError(Error::NotFound))));
}

#[test]
fn the_end_of_a_track_is_told_again() {
    let mut d = demuxer(vec![group(1, vec![Ok(Some(segment(0, 0x0200_0000))), Ok(None)]), Ok(None)]);
    assert!(ready(d.poll_next()).is_some());
    for _ in 0..3 {
        assert!(ready(d.poll_next()).is_none());
        assert!(matches!(d.end_reason(), Some(EndReason::TrackFinished)));
    }
    let mut d = demuxer(vec![Err(Error::NotFound)]);
    for _ in 0..3 {
        assert!(ready(d.poll_next()).is_none());
        assert!(matches!(d.end_reason(), Some(EndReason::TrackError(Error::NotFound))));
    }
}

#[test]
fn the_end_of_the_catalog_comes_with_its_last_group() {
    let mut d = broadcast(vec![catalog(vec![])]);
    d.catalog_track.groups.push(Ok(None));
    assert!(matches!(d.poll_next(&mut out()), Polled::Pending));
    assert!(!d.catalog_closed);
    assert!(matches!(d.poll_next(&mut out()), Polled::Ready(Ok(None))));
    assert!(d.catalog_closed);
    // With a track, its segments come before the end.
    let mut d = broadcast(vec![catalog(vec![cmaf("a")])]);
    d.catalog_track.groups.push(Ok(None));
    assert!(matches!(d.poll_next(&mut out()), Polled::Pending));
    d.tracks[0].demuxer.track.groups.push(group(1, vec![Ok(Some(segment(0, 0x0200_0000))), Ok(None)]));
    d.tracks[0].demuxer.track.groups.push(Ok(None));
    assert!(matches!(d.poll_next(&mut out()), Polled::Ready(Ok(Some(_)))));
    assert!(matches!(d.poll_next(&mut out()), Polled::Ready(Ok(None))));
    assert!(matches!(d.poll_next(&mut out()), Polled::Ready(Ok(None))));
}

fn garbage(n: usize) -> Vec<Result<Option<Vec<u8>>, Error>> {
    (0..n).map(|_| Ok(Some(b"garbage".to_vec()))).collect()
}

#[test]
fn ninety_nine_malformed_segments_are_skipped() {
    let mut frames = garbage(99);
    frames.push(Ok(Some(segment(0, 0x0200_0000))));
    frames.extend(garbage(99));
    let mut d = demuxer(vec![group(1, frames)]);
    assert!(ready(d.poll_next()).is_some());
    assert_eq!(d.malformed_count, 0);
    assert!(matches!(d.poll_next(), Polled::Pending));
    assert_eq!(d.malformed_count, 99);
}

#[test]
fn a_hundred_malformed_segments_close_the_track() {
    let mut d = demuxer(vec![group(1, garbage(60)), Ok(Some(GroupConsumer { sequence: 2, frames: garbage(50) }))]);
    assert!(matches!(d.poll_next(), Polled::Pending));
    // The first group goes on; it ends, and the next one brings the rest.
    d.current_group.as_mut().unwrap().frames.push(Ok(None));
    assert!(ready(d.poll_next()).is_none());
    assert!(matches!(d.end_reason(), Some(EndReason::TrackFinished)));
    assert_eq!(d.malformed_count, 100);
}

#[test]
fn the_polls_give_the_frames_that_can_be_read() {
    let mut frames = garbage(2);
    frames.push(Ok(Some(segment(0, 0x0200_0000))));
    frames.extend(garbage(50));
    frames.push(Ok(None));
    let mut more = garbage(49);
    more.push(Ok(Some(segment(3000, 0x0001_0000))));
    more.extend(garbage(60));
    more.push(Err(Error::Cancel));
    let mut last = garbage(40);
    last.push(Ok(Some(segment(6000, 0x0001_0000))));
    let mut d = demuxer(vec![group(1, frames), group(2, more), group(3, last), Ok(None)]);
    for (group_id, pts, is_keyframe) in [(1, 0, true), (2, 3000, false)] {
        let s = ready(d.poll_next()).unwrap();
        assert_eq!((s.group_id, s.pts, s.is_keyframe), (group_id, pts, is_keyframe));
        assert_eq!(s.media_data, segment(pts, if is_keyframe { 0x0200_0000 } else { 0x0001_0000 }));
        assert!(d.end_reason().is_none());
    }
    // A hundred malformed frames in a row, over two groups, end the track before the last frame.
    assert!(ready(d.poll_next()).is_none());
    assert!(matches!(d.end_reason(), Some(EndReason::TrackFinished)));
}

#[test]
fn a_catalog_track_must_have_an_init_segment() {
    let track = || TrackConsumer { name: "x".to_string(), groups: vec![] };
    let d = CmsfTrackDemuxer::from_msf_track(track(), &cmaf("x")).unwrap();
    assert_eq!(d.timescale, 90000);
    assert_eq!(d.init_data, init(&[1], 90000, Some(5)));
    let missing = listed("x", Packaging::Cmaf, None);
    assert!(matches!(CmsfTrackDemuxer::from_msf_track(track(), &missing), Err(CmsfError::MissingInitData)));
    let bad = listed("x", Packaging::Cmaf, Some("!".to_string()));
    assert!(matches!(CmsfTrackDemuxer::from_msf_track(track(), &bad), Err(CmsfError::Base64(_))));
    let empty = listed("x", Packaging::Cmaf, Some(String::new()));
    assert!(matches!(CmsfTrackDemuxer::from_msf_track(track(), &empty), Err(CmsfError::NoMoov)));
}

fn broadcast(catalogs: Vec<MsfCatalog>) -> CmsfBroadcastDemuxer {
    let mut d = CmsfBroadcastDemuxer::new(Ok(())).unwrap();
    assert_eq!(d.catalog_track.name, "catalog");
    for (i, c) in catalogs.into_iter().enumerate() {
        let frames: Vec<Result<Option<CatalogFrame>, Error>> = vec![Ok(Some(Ok(c)))];
        d.catalog_track.groups.push(group(i as u64, frames));
    }
    d
}

#[test]
fn the_catalog_must_be_subscribed_to() {
    let res = CmsfBroadcastDemuxer::new(Err(Error::NotFound));
    assert!(matches!(res, Err(CmsfError::Moq(Error::NotFound))));
}

#[test]
fn ready_once_tracks_are_subscribed() {
    let mut d = broadcast(vec![]);
    assert!(matches!(d.poll_ready(&mut out()), Polled::Pending));
    let mut d = broadcast(vec![catalog(vec![
        cmaf("a"),
        listed("b", Packaging::Other, Some(text(&init(&[1], 1, None)))),
        listed("c", Packaging::Cmaf, None),
        listed("d", Packaging::Cmaf, Some("!".to_string())),
        cmaf("e"),
        cmaf("e"),
    ])]);
    let mut o = out();
    assert!(matches!(d.poll_ready(&mut o), Polled::Ready(Ok(()))));
    assert_eq!(d.active_tracks(), ["a", "e"]);
    assert_eq!(o.sent.len(), 2);
    assert!(matches!(&o.sent[1], Action::Subscribe { name } if name == "e"));
    assert_eq!(d.init_segments(), vec![init(&[1], 90000, Some(5)); 2]);
    assert!(matches!(d.poll_ready(&mut out()), Polled::Ready(Ok(()))));
}

#[test]
fn no_tracks_is_an_error() {
    let mut d = broadcast(vec![catalog(vec![])]);
    assert!(matches!(d.poll_ready(&mut out()), Polled::Ready(Err(CmsfError::NoTracks))));
    let mut d = broadcast(vec![]);
    d.catalog_track.groups.push(Ok(None));
    assert!(matches!(d.poll_ready(&mut out()), Polled::Ready(Err(CmsfError::NoTracks))));
    assert!(d.catalog_closed);
    let mut d = broadcast(vec![]);
    d.catalog_track.groups.push(Err(Error::Closed));
    assert!(matches!(d.poll_ready(&mut out()), Polled::Ready(Err(CmsfError::Moq(Error::Closed)))));
    let mut d = broadcast(vec![]);
    d.catalog_track.groups.push(group(0, vec![Ok(Some(Err("no json".to_string())))]));
    assert!(matches!(d.poll_ready(&mut out()), Polled::Ready(Err(CmsfError::CatalogParse(m))) if m == "no json"));
    // A refused subscription is left out.
    let mut d = broadcast(vec![catalog(vec![cmaf("a")])]);
    let mut o = Outbox::new(vec![true], None);
    assert!(matches!(d.poll_ready(&mut o), Polled::Ready(Err(CmsfError::NoTracks))));
}

#[test]
fn the_latest_catalog_is_read() {
    let mut d = broadcast(vec![catalog(vec![cmaf("first")]), catalog(vec![cmaf("second")])]);
    d.poll_ready(&mut out());
    assert_eq!(d.active_tracks(), ["second"]);
}

#[test]
fn tracks_come_and_go_with_the_catalog() {
    let mut d = broadcast(vec![catalog(vec![cmaf("a"), cmaf("b")])]);
    d.poll_ready(&mut out());
    d.tracks[0].demuxer.malformed_count = 9;
    d.tracks[1].demuxer.malformed_count = 9;
    let mut o = out();
    d.apply_catalog(&catalog(vec![cmaf("c"), cmaf("a")]), &mut o);
    assert_eq!(d.active_tracks(), ["a", "c"]);
    assert_eq!(o.sent.len(), 1);
    assert_eq!(d.tracks[0].demuxer.malformed_count, 9);
    // One that comes back starts afresh.
    d.apply_catalog(&catalog(vec![cmaf("a"), cmaf("b")]), &mut out());
    assert_eq!(d.active_tracks(), ["a", "b"]);
    assert_eq!(d.tracks[1].demuxer.malformed_count, 0);
}

#[test]
fn a_broadcast_ends_with_its_catalog_and_its_tracks() {
    let mut d = broadcast(vec![catalog(vec![cmaf("a"), cmaf("b")])]);
    d.poll_ready(&mut out());
    d.tracks[1].demuxer.track.groups.push(group(3, vec![Ok(Some(segment(5, 0x0200_0000)))]));
    let s = ready(d.poll_next(&mut out())).unwrap();
    assert_eq!((s.track_name.as_str(), s.group_id, s.pts), ("b", 3, 5));
    assert!(matches!(d.poll_next(&mut out()), Polled::Pending));
    d.tracks[0].demuxer.track.groups.push(Ok(None));
    assert!(matches!(d.poll_next(&mut out()), Polled::Pending));
    assert_eq!(d.active_tracks(), ["b"]);
    d.tracks[1].demuxer.current_group = None;
    d.tracks[1].demuxer.track.groups.push(Ok(None));
    assert!(matches!(d.poll_next(&mut out()), Polled::Pending));
    d.catalog_track.groups.push(Ok(None));
    assert!(ready(d.poll_next(&mut out())).is_none());
}

#[test]
fn merged_tracks_are_renumbered_with_their_defaults() {
    let merged = build_merged_init(&vec![init(&[1], 90000, Some(11)), init(&[1, 2], 48000, Some(22))]).unwrap();
    let mut buf = &merged[..];
    let ftyp = mp4_atom::Ftyp::decode(&mut buf).unwrap();
    assert_eq!(ftyp.minor_version, 0x200);
    let moov = mp4_atom::Moov::decode(&mut buf).unwrap();
    assert!(buf.is_empty());
    assert_eq!(moov.mvhd.timescale, 1000);
    let ids: Vec<u32> = moov.trak.iter().map(|t| t.tkhd.track_id).collect();
    assert_eq!(ids, [1, 2, 3]);
    assert_eq!(moov.trak[1].mdia.mdhd.timescale, 48000);
    let trex: Vec<(u32, u32)> =
        moov.mvex.unwrap().trex.iter().map(|t| (t.track_id, t.default_sample_duration)).collect();
    assert_eq!(trex, [(1, 11), (2, 22), (3, 22)]);
}

#[test]
fn merging_needs_an_ftyp() {
    assert!(matches!(build_merged_init(&vec![]), Err(CmsfError::NoMoov)));
    let merged = build_merged_init(&vec![init(&[5], 90000, None)]).unwrap();
    let mut buf = &merged[..];
    mp4_atom::Ftyp::decode(&mut buf).unwrap();
    assert!(mp4_atom::Moov::decode(&mut buf).unwrap().mvex.is_none());
}

#[test]
fn a_merged_init_starts_with_the_first_ftyp() {
    let body = b"dash\x00\x00\x00\x07dashmsdhcmfc";
    let plain = [&28u32.to_be_bytes()[..], b"ftyp", body].concat();
    let long = [&1u32.to_be_bytes()[..], b"ftyp", &36u64.to_be_bytes(), body].concat();
    let whole = init(&[5], 90000, None);
    let size = u32::from_be_bytes([whole[0], whole[1], whole[2], whole[3]]) as usize;
    for ftyp in [&plain, &long] {
        let first = [&ftyp[..], &whole[size..]].concat();
        let merged = build_merged_init(&vec![first, init(&[1], 48000, None)]).unwrap();
        assert_eq!(merged[..28], plain[..]);
        assert_eq!(&merged[32..36], b"moov");
    }
    // A brand that is cut off is no ftyp.
    let cut = [&26u32.to_be_bytes()[..], b"ftyp", &body[..18]].concat();
    assert!(matches!(build_merged_init(&vec![cut]), Err(CmsfError::NoMoov)));
}

#[test]
fn what_is_subscribed_to_is_written() {
    let args = SubscribeArgs {
        format: SubscribeFormat::CmsfFmp4,
        max_latency: Duration::from_millis(500),
    };
    let mut d = broadcast(vec![catalog(vec![cmaf("a")])]);
    let mut s = Subscribe::new(args);
    match s.next_chunk(&mut d, &mut out()) {
        Polled::Ready(Ok(Some(chunk))) => {
            assert_eq!(chunk, build_merged_init(&vec![init(&[1], 90000, Some(5))]).unwrap());
        }
        _ => panic!("must be the init segment"),
    }
    assert!(matches!(s.next_chunk(&mut d, &mut out()), Polled::Pending));
    d.tracks[0].demuxer.track.groups.push(group(3, vec![Ok(Some(segment(5, 0x0200_0000)))]));
    match s.next_chunk(&mut d, &mut out()) {
        Polled::Ready(Ok(Some(chunk))) => assert_eq!(chunk, segment(5, 0x0200_0000)),
        _ => panic!("must be the segment"),
    }
    let late = SubscribeArgs { max_latency: Duration::from_millis(501), ..args };
    let res = Subscribe::new(late).next_chunk(&mut d, &mut out());
    assert!(matches!(res, Polled::Ready(Err(SubscribeError::Latency))));
    let mut d = broadcast(vec![catalog(vec![])]);
    let res = Subscribe::new(args).next_chunk(&mut d, &mut out());
    assert!(matches!(res, Polled::Ready(Err(SubscribeError::Catalog(CmsfError::NoTracks)))));
}

#[test]
fn cmsf_error_messages() {
    assert_eq!(CmsfError::NoMoof.message(), "no moof box found");
    assert_eq!(CmsfError::Moq(Error::NotFound).message(), "moq error: not found");
    assert_eq!(CmsfError::CatalogParse("x".to_string()).message(), "catalog parse error: x");
    assert_eq!(CmsfError::EncodeFailed.message(), "mp4 encode error");
}
