//! What holds of every description of a track.

use crate::mux::aac::{audio_specific_config, frequency_index};
use crate::mux::cmsf::{
    all_entries, is_sync, meta_of, meta_of_first, total_duration, CmsfErrorView, CmsfMetadata,
};
use crate::mux::config::{aac_of, audio_config, audio_of, video_config, video_of, VideoEntry};
use crate::mux::fragment::{trex_of, ParseErrorView};
use crate::mux::fragment_laws::{law_defaults_are_found, time_before};
use crate::mux::init::{init_segment, track_trex};
use crate::mux::mp4::{MoovView, TrafView, TrunEntry, TrunView};
use crate::mux::parser::{kind_of, CodecError, ImportErrorView};
use crate::mux::sample_entry::{
    av1_at, avcc_at, avcc_record, entry_kinds, entry_text, hvcc_at, hvcc_record, mp4a_at, opus_at,
    visual_at, vp9_at, EntryKind, Mp4a,
};
use crate::mux::types::TrackKind;
use vstd::prelude::*;

verus! {

/// A video track that is described has the size of its sample entry.
pub proof fn law_size_is_told(raw: Seq<u8>, trak: nat, v: VideoEntry<Seq<char>, Seq<u8>>)
    requires
        video_of(raw, trak) == Ok::<_, ImportErrorView>(v),
    ensures
        v.width == visual_at(raw, trak)->Some_0.width,
        v.height == visual_at(raw, trak)->Some_0.height,
{
}

/// H.264 is described by what its configuration record says, field by field, and the record
/// itself is the description.
pub proof fn law_avc_is_told(raw: Seq<u8>, trak: nat)
    requires
        entry_kinds(raw, trak) == seq![EntryKind::Avc1],
    ensures
        ({
            let v = video_of(raw, trak)->Ok_0;
            let h = v.codec->H264_0;
            let c = avcc_at(raw, trak)->Some_0;
            &&& v.codec is H264
            &&& h.profile == c.avc_profile_indication
            &&& h.constraints == c.profile_compatibility
            &&& h.level == c.avc_level_indication
            &&& !h.inline
            &&& v.description == Some(avcc_record(raw, trak)->Some_0)
        }),
{
}

/// H.265 is described by what its configuration record says, field by field; the parameter sets
/// lie among the samples for one kind of entry, and not for the other.
pub proof fn law_hevc_is_told(raw: Seq<u8>, trak: nat, kind: EntryKind)
    requires
        kind == EntryKind::Hev1 || kind == EntryKind::Hvc1,
        entry_kinds(raw, trak) == seq![kind],
    ensures
        ({
            let v = video_of(raw, trak)->Ok_0;
            let h = v.codec->H265_0;
            let c = hvcc_at(raw, trak)->Some_0;
            &&& v.codec is H265
            &&& h.in_band <==> kind == EntryKind::Hev1
            &&& h.profile_space == c.general_profile_space
            &&& h.profile_idc == c.general_profile_idc
            &&& h.profile_compatibility_flags == c.general_profile_compatibility_flags
            &&& h.tier_flag == c.general_tier_flag
            &&& h.level_idc == c.general_level_idc
            &&& h.constraint_flags == c.general_constraint_indicator_flags
            &&& v.description == Some(hvcc_record(raw, trak)->Some_0)
        }),
{
}

/// AV1 is described by what its configuration record says, field by field; no codec of this family
/// or of VP has a description beside it.
pub proof fn law_av1_is_told(raw: Seq<u8>, trak: nat)
    requires
        entry_kinds(raw, trak) == seq![EntryKind::Av01],
    ensures
        ({
            let v = video_of(raw, trak)->Ok_0;
            let a = v.codec->AV1_0;
            let c = av1_at(raw, trak)->Some_0;
            &&& v.codec is AV1
            &&& a.profile == c.seq_profile
            &&& a.level == c.seq_level_idx_0
            &&& a.mono_chrome == c.monochrome
            &&& a.chroma_subsampling_x == c.chroma_subsampling_x
            &&& a.chroma_subsampling_y == c.chroma_subsampling_y
            &&& a.chroma_sample_position == c.chroma_sample_position
            &&& v.description is None
        }),
{
}

/// Each of the high tier and the high bit depth adds two bits to the eight that AV1 has without
/// them.
pub proof fn law_av1_depth(raw: Seq<u8>, trak: nat)
    requires
        entry_kinds(raw, trak) == seq![EntryKind::Av01],
    ensures
        ({
            let a = video_of(raw, trak)->Ok_0.codec->AV1_0;
            let c = av1_at(raw, trak)->Some_0;
            a.bitdepth == 8 + (if c.seq_tier_0 {
                2int
            } else {
                0
            }) + (if c.high_bitdepth {
                2int
            } else {
                0
            })
        }),
{
}

/// VP8 and VP9 are described without a description; VP9 by what its configuration record says.
pub proof fn law_vp_is_told(raw: Seq<u8>, trak: nat, kind: EntryKind)
    requires
        kind == EntryKind::Vp08 || kind == EntryKind::Vp09,
        entry_kinds(raw, trak) == seq![kind],
    ensures
        ({
            let v = video_of(raw, trak)->Ok_0;
            &&& kind == EntryKind::Vp08 <==> v.codec is VP8
            &&& kind == EntryKind::Vp09 <==> v.codec is VP9
            &&& kind == EntryKind::Vp09 ==> v.codec->VP9_0 == vp9_at(raw, trak)->Some_0
            &&& v.description is None
        }),
{
}

/// MPEG-4 sound is described by what its entry says; its bit rate is neither below the average
/// nor below the maximum, and is one of the two.
pub proof fn law_aac_is_told(raw: Seq<u8>, trak: nat)
    requires
        entry_kinds(raw, trak) == seq![EntryKind::Mp4a],
        mp4a_at(raw, trak)->Some_0.object_type_indication == 0x40,
    ensures
        ({
            let a = audio_of(raw, trak)->Ok_0;
            let c = mp4a_at(raw, trak)->Some_0;
            &&& audio_of(raw, trak) is Ok
            &&& a.codec is AAC
            &&& a.codec->AAC_0.profile == c.profile
            &&& a.sample_rate == c.sample_rate
            &&& a.channel_count == c.channel_count
            &&& a.bitrate is Some
            &&& a.bitrate->Some_0 >= c.avg_bitrate
            &&& a.bitrate->Some_0 >= c.max_bitrate
            &&& a.bitrate->Some_0 == c.avg_bitrate || a.bitrate->Some_0 == c.max_bitrate
            &&& a.description == Some(
                audio_specific_config(c.profile, c.sample_rate as u32, c.channel_count as u32),
            )
        }),
{
}

/// Sound of any other object type is refused as MPEG-2.
pub proof fn law_mpeg2_is_refused(c: Mp4a)
    ensures
        aac_of(c) is Err <==> c.object_type_indication != 0x40,
        aac_of(c) is Err ==> aac_of(c)->Err_0 == CodecError::Mpeg2,
{
}

/// Opus is described by what its entry says, and by nothing else.
pub proof fn law_opus_is_told(raw: Seq<u8>, trak: nat)
    requires
        entry_kinds(raw, trak) == seq![EntryKind::Opus],
    ensures
        ({
            let a = audio_of(raw, trak)->Ok_0;
            let c = opus_at(raw, trak)->Some_0;
            &&& a.codec is Opus
            &&& a.sample_rate == c.sample_rate
            &&& a.channel_count == c.channel_count
            &&& a.bitrate is None
            &&& a.description is None
        }),
{
}

/// A track is described only by one entry: none is missing, and several are too many, for video
/// and audio alike.
pub proof fn law_one_entry_is_needed(raw: Seq<u8>, trak: nat)
    requires
        entry_kinds(raw, trak).len() != 1,
    ensures
        ({
            let e = if entry_kinds(raw, trak).len() == 0 {
                CodecError::Missing
            } else {
                CodecError::Multiple
            };
            &&& video_of(raw, trak) is Err
            &&& video_of(raw, trak)->Err_0 == ImportErrorView::Codec(e)
            &&& audio_of(raw, trak) is Err
            &&& audio_of(raw, trak)->Err_0 == ImportErrorView::Codec(e)
        }),
{
}

/// An entry that is not known is refused as that, and one of the other medium as unsupported; both
/// with what the entry says.
pub proof fn law_other_entries_are_refused(raw: Seq<u8>, trak: nat, kind: EntryKind)
    requires
        entry_kinds(raw, trak) == seq![kind],
    ensures
        kind == EntryKind::Unknown ==> {
            &&& video_of(raw, trak) is Err
            &&& video_of(raw, trak)->Err_0 == ImportErrorView::UnknownCodec(entry_text(raw, trak))
            &&& audio_of(raw, trak) is Err
            &&& audio_of(raw, trak)->Err_0 == ImportErrorView::UnknownCodec(entry_text(raw, trak))
        },
        kind == EntryKind::Other ==> {
            &&& video_of(raw, trak) is Err
            &&& video_of(raw, trak)->Err_0 == ImportErrorView::UnsupportedCodec(
                entry_text(raw, trak),
            )
            &&& audio_of(raw, trak) is Err
            &&& audio_of(raw, trak)->Err_0 == ImportErrorView::UnsupportedCodec(
                entry_text(raw, trak),
            )
        },
        kind == EntryKind::Mp4a || kind == EntryKind::Opus ==> video_of(raw, trak) is Err,
        kind != EntryKind::Mp4a && kind != EntryKind::Opus ==> audio_of(raw, trak) is Err,
{
}

/// In a catalog a video track stands as it is described, with its init segment, and without what
/// is not known of it yet.
pub proof fn law_video_entry_is_as_described(raw: Seq<u8>, moov: MoovView, trak: nat)
    ensures
        video_config(raw, moov, trak) is Ok <==> video_of(raw, trak) is Ok && init_segment(
            raw,
            moov,
            trak,
        ) is Ok,
        video_config(raw, moov, trak) is Ok ==> {
            let c = video_config(raw, moov, trak)->Ok_0;
            let v = video_of(raw, trak)->Ok_0;
            &&& c.codec == v.codec
            &&& c.description == v.description
            &&& c.coded_width == Some(v.width)
            &&& c.coded_height == Some(v.height)
            &&& c.bitrate is None
            &&& c.framerate is None
            &&& c.jitter is None
            &&& c.container is Cmaf
            &&& c.container->init == init_segment(raw, moov, trak)->Ok_0
        },
{
}

/// In a catalog an audio track stands as it is described, with its init segment.
pub proof fn law_audio_entry_is_as_described(raw: Seq<u8>, moov: MoovView, trak: nat)
    ensures
        audio_config(raw, moov, trak) is Ok <==> audio_of(raw, trak) is Ok && init_segment(
            raw,
            moov,
            trak,
        ) is Ok,
        audio_config(raw, moov, trak) is Ok ==> {
            let c = audio_config(raw, moov, trak)->Ok_0;
            let a = audio_of(raw, trak)->Ok_0;
            &&& c.codec == a.codec
            &&& c.description == a.description
            &&& c.sample_rate == a.sample_rate
            &&& c.channel_count == a.channel_count
            &&& c.bitrate == a.bitrate
            &&& c.jitter is None
            &&& c.container is Cmaf
            &&& c.container->init == init_segment(raw, moov, trak)->Ok_0
        },
{
}

/// The sample rates that have a place of their own in an AudioSpecificConfig.
pub open spec fn standard_rates() -> Seq<u32> {
    seq![
        96000u32, 88200, 64000, 48000, 44100, 32000, 24000, 22050, 16000, 12000, 11025, 8000, 7350,
    ]
}

/// A sample rate is told by its place among the standard ones, and every standard rate has one:
/// from the place the rate can be had back.
pub proof fn law_rate_has_its_place(sample_rate: u32)
    ensures
        ({
            let f = frequency_index(sample_rate);
            &&& f < 13 ==> standard_rates()[f as int] == sample_rate
            &&& f < 13 <==> standard_rates().contains(sample_rate)
            &&& f == 15 <==> !standard_rates().contains(sample_rate)
        }),
{
    let f = frequency_index(sample_rate);
    let rates = standard_rates();
    if f < 13 {
        assert(rates[f as int] == sample_rate);
    } else if rates.contains(sample_rate) {
        let i = choose|i: int| 0 <= i < rates.len() && rates[i] == sample_rate;
        assert(rates[i] == sample_rate);
    }
}

/// The handlers of video, sound and subtitles are their four letters; there is no other kind.
pub proof fn law_handlers(handler: u32)
    ensures
        kind_of(handler) == Ok::<_, ParseErrorView>(TrackKind::Video) <==> handler == 0x7669_6465,
        kind_of(handler) == Ok::<_, ParseErrorView>(TrackKind::Audio) <==> handler == 0x736f_756e,
        kind_of(handler) == Err::<TrackKind, _>(ParseErrorView::Subtitles) <==> handler
            == 0x7362_746c,
        kind_of(handler) is Err && handler != 0x7362_746c ==> kind_of(handler)->Err_0
            == ParseErrorView::UnknownHandler(handler),
{
}

/// The defaults that an init segment keeps for a track are the ones of that track: they have its
/// identifier, and are among those of the moov if any there has it.
pub proof fn law_defaults_are_of_track(moov: MoovView, id: u32)
    ensures
        track_trex(moov, id).track_id == id,
        (moov.trex is Some && exists|i: int|
            0 <= i < moov.trex->Some_0.len() && (#[trigger] moov.trex->Some_0[i]).track_id == id)
            ==> moov.trex->Some_0.contains(track_trex(moov, id)),
        (moov.trex is None || forall|i: int|
            0 <= i < moov.trex->Some_0.len() ==> (#[trigger] moov.trex->Some_0[i]).track_id != id)
            ==> {
            let t = track_trex(moov, id);
            &&& t.default_sample_description_index == 1
            &&& t.default_sample_duration == 0
            &&& t.default_sample_size == 0
            &&& t.default_sample_flags == 0
        },
{
    if moov.trex is Some {
        let trex = moov.trex->Some_0;
        law_defaults_are_found(trex, id, 0);
        if trex_of(moov, id) is Some {
            let k = choose|k: int| 0 <= k < trex.len() && #[trigger] trex[k] == trex_of(moov, id)->Some_0;
            assert(trex[k] == track_trex(moov, id));
        }
    }
}

/// The samples of several runs are those of each, one run after another.
pub proof fn law_runs_follow_each_other(a: Seq<TrunView>, b: Seq<TrunView>)
    ensures
        all_entries(a + b) == all_entries(a) + all_entries(b),
        a.len() == 0 ==> all_entries(a).len() == 0,
        a.len() == 1 ==> all_entries(a) == a[0].entries,
    decreases b.len(),
{
    reveal_with_fuel(all_entries, 2);
    if b.len() == 0 {
        assert(a + b =~= a);
        assert(all_entries(a) + all_entries(b) =~= all_entries(a));
    } else {
        law_runs_follow_each_other(a, b.drop_last());
        assert((a + b).drop_last() =~= a + b.drop_last());
        assert(all_entries(a + b) =~= all_entries(a) + all_entries(b));
    }
    if a.len() == 1 {
        assert(a.drop_last().len() == 0);
        assert(all_entries(a) =~= a[0].entries);
    }
}

proof fn lemma_total(entries: Seq<TrunEntry>, default: u32, k: nat)
    requires
        k <= entries.len(),
    ensures
        total_duration(entries.take(k as int), default) == time_before(entries, default, k),
    decreases k,
{
    if k > 0 {
        lemma_total(entries, default, (k - 1) as nat);
        let e = entries.take(k as int);
        assert(e.drop_last() =~= entries.take(k - 1));
        assert(e.last() == entries[k - 1]);
    }
}

/// An object lasts as long as all its samples together; one that does not say how long it lasts,
/// lasts as the fragment says.
pub proof fn law_object_lasts(traf: TrafView)
    requires
        meta_of(traf) is Ok,
    ensures
        ({
            let entries = all_entries(traf.trun);
            let each = match traf.default_sample_duration {
                Some(d) => d,
                None => 0u32,
            };
            let total = time_before(entries, each, entries.len());
            total <= u64::MAX ==> meta_of(traf)->Ok_0.duration == total
        }),
{
    let entries = all_entries(traf.trun);
    let each = match traf.default_sample_duration {
        Some(d) => d,
        None => 0u32,
    };
    lemma_total(entries, each, entries.len());
    assert(entries.take(entries.len() as int) =~= entries);
}

/// An object is presented when its first sample is: as far after the time of the fragment as the
/// sample says, and not before zero.
pub proof fn law_object_is_presented(traf: TrafView, dts: u64)
    requires
        traf.base_media_decode_time == Some(dts),
        meta_of(traf) is Ok,
    ensures
        ({
            let entries = all_entries(traf.trun);
            let pts = meta_of(traf)->Ok_0.pts;
            let offset = if entries.len() > 0 && entries[0].cts is Some {
                entries[0].cts->Some_0 as int
            } else {
                0
            };
            dts + offset < 0x8000_0000_0000_0000 ==> pts == if dts + offset < 0 {
                0
            } else {
                dts + offset
            }
        }),
{
}

/// An object starts with a keyframe exactly if its first sample does, by its own flags where it
/// has them, and else by those of the fragment.
pub proof fn law_object_starts(traf: TrafView)
    requires
        meta_of(traf) is Ok,
    ensures
        ({
            let entries = all_entries(traf.trun);
            let key = meta_of(traf)->Ok_0.is_keyframe;
            &&& entries.len() > 0 && entries[0].flags is Some ==> key == is_sync(
                entries[0].flags->Some_0,
            )
            &&& (entries.len() == 0 || entries[0].flags is None)
                && traf.default_sample_flags is Some ==> key == is_sync(
                traf.default_sample_flags->Some_0,
            )
            &&& (entries.len() == 0 || entries[0].flags is None)
                && traf.default_sample_flags is None ==> !key
        }),
{
}

/// An object is read exactly if its first fragment has a time and a run, and each of the reasons
/// why it is not is told.
pub proof fn law_why_an_object_is_refused(traf: Seq<TrafView>)
    ensures
        traf.len() == 0 ==> meta_of_first(traf) == Err::<CmsfMetadata, _>(CmsfErrorView::NoTraf),
        traf.len() > 0 ==> meta_of_first(traf) == meta_of(traf[0]),
        traf.len() > 0 ==> {
            let first = traf[0];
            &&& meta_of_first(traf) is Ok <==> first.base_media_decode_time is Some
                && first.trun.len() > 0
            &&& first.base_media_decode_time is None ==> meta_of_first(traf)->Err_0
                == CmsfErrorView::NoTfdt
            &&& first.base_media_decode_time is Some && first.trun.len() == 0 ==> meta_of_first(
                traf,
            )->Err_0 == CmsfErrorView::NoTrun
        },
{
}

} // verus!
