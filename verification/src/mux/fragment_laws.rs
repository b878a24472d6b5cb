//! What a track fragment that is taken out of a moof says of its samples.

use crate::mux::cmsf::{all_entries, is_sync};
use crate::mux::fragment::{
    alone, context_of, defaults, find_trak, find_trex, fragment_of, has_keyframe, samples_at, trex_of,
    Context, FragmentView, ParseErrorView, SampleInfo, Scan,
};
use crate::mux::mp4::{MoovView, TrafView, Trak, Trex, TrunEntry, TrunView};
use crate::mux::types::TrackKind;
use vstd::prelude::*;

verus! {

/// What a sample that does not say otherwise has: what its fragment says comes before what its
/// track says, and where neither does it is zero.
pub proof fn law_fragment_comes_before_track(traf: TrafView, trex: Option<Trex>)
    ensures
        ({
            let (duration, size, flags) = defaults(traf, trex);
            &&& traf.default_sample_duration matches Some(d) ==> duration == d
            &&& traf.default_sample_size matches Some(n) ==> size == n
            &&& traf.default_sample_flags matches Some(f) ==> flags == f
            &&& traf.default_sample_duration is None && trex is Some ==> duration
                == trex->Some_0.default_sample_duration
            &&& traf.default_sample_size is None && trex is Some ==> size
                == trex->Some_0.default_sample_size
            &&& traf.default_sample_flags is None && trex is Some ==> flags
                == trex->Some_0.default_sample_flags
            &&& traf.default_sample_duration is None && trex is None ==> duration == 0
            &&& traf.default_sample_size is None && trex is None ==> size == 0
            &&& traf.default_sample_flags is None && trex is None ==> flags == 0
        }),
{
}

/// The track of a fragment is the first that has its identifier; there is none exactly if no track
/// has it.
pub proof fn law_track_is_found(trak: Seq<Trak>, id: u32, i: nat)
    requires
        i <= trak.len(),
    ensures
        match find_trak(trak, id, i) {
            Some(t) => exists|k: int|
                {
                    &&& i <= k < trak.len()
                    &&& #[trigger] trak[k] == t
                    &&& t.track_id == id
                    &&& forall|j: int| i <= j < k ==> (#[trigger] trak[j]).track_id != id
                },
            None => forall|j: int| i <= j < trak.len() ==> (#[trigger] trak[j]).track_id != id,
        },
    decreases trak.len() - i,
{
    if i < trak.len() {
        if trak[i as int].track_id == id {
            assert(trak[i as int] == find_trak(trak, id, i)->Some_0);
        } else {
            law_track_is_found(trak, id, i + 1);
        }
    }
}

/// The defaults of a track are the first that have its identifier; there are none exactly if none
/// have it.
pub proof fn law_defaults_are_found(trex: Seq<Trex>, id: u32, i: nat)
    requires
        i <= trex.len(),
    ensures
        match find_trex(trex, id, i) {
            Some(t) => exists|k: int|
                {
                    &&& i <= k < trex.len()
                    &&& #[trigger] trex[k] == t
                    &&& t.track_id == id
                    &&& forall|j: int| i <= j < k ==> (#[trigger] trex[j]).track_id != id
                },
            None => forall|j: int| i <= j < trex.len() ==> (#[trigger] trex[j]).track_id != id,
        },
        forall|trak: Seq<Trak>| i == 0 ==> #[trigger] trex_of(
            MoovView { trak, trex: Some(trex) },
            id,
        ) == find_trex(trex, id, 0),
        forall|trak: Seq<Trak>| #[trigger] trex_of(MoovView { trak, trex: None }, id) is None,
    decreases trex.len() - i,
{
    if i < trex.len() {
        if trex[i as int].track_id == id {
            assert(trex[i as int] == find_trex(trex, id, i)->Some_0);
        } else {
            law_defaults_are_found(trex, id, i + 1);
        }
    }
}

/// A sample is a sync sample exactly if the two bits above the lowest three bytes of its flags say
/// that it depends on no other, and the lowest bit of the third byte is clear.
pub proof fn law_sync_bits(flags: u32)
    ensures
        is_sync(flags) <==> (flags >> 24) & 0x3 == 0x2 && (flags >> 16) & 0x1 == 0,
{
    assert((flags >> 24) & 0x3 == flags / 0x100_0000 % 4 && (flags >> 16) & 0x1 == flags / 0x1_0000
        % 2) by (bit_vector);
}

/// How long the first `k` samples last together, where one that does not say so lasts `default`.
pub open spec fn time_before(entries: Seq<TrunEntry>, default: u32, k: nat) -> nat
    decreases k,
{
    if k == 0 {
        0
    } else {
        time_before(entries, default, (k - 1) as nat) + match entries[k - 1].duration {
            Some(d) => d as nat,
            None => default as nat,
        }
    }
}

/// The size of the first `k` samples together, where one that does not say so has `default` bytes.
pub open spec fn bytes_before(entries: Seq<TrunEntry>, default: u32, k: nat) -> nat
    decreases k,
{
    if k == 0 {
        0
    } else {
        bytes_before(entries, default, (k - 1) as nat) + match entries[k - 1].size {
            Some(n) => n as nat,
            None => default as nat,
        }
    }
}

/// Only the samples themselves count.
proof fn lemma_time_of_prefix(a: Seq<TrunEntry>, b: Seq<TrunEntry>, default: u32, k: nat)
    requires
        k <= a.len(),
        k <= b.len(),
        forall|j: int| 0 <= j < k ==> #[trigger] a[j] == b[j],
    ensures
        time_before(a, default, k) == time_before(b, default, k),
        bytes_before(a, default, k) == bytes_before(b, default, k),
    decreases k,
{
    if k > 0 {
        assert(a[k - 1] == b[k - 1]);
        lemma_time_of_prefix(a, b, default, (k - 1) as nat);
    }
}

/// Whether what is known of a sample is what its entry says, with the defaults, after `before`
/// ticks.
pub open spec fn tells(
    s: SampleInfo,
    e: TrunEntry,
    ctx: Context,
    dts: u64,
    before: nat,
) -> bool {
    let cts: int = match e.cts {
        Some(c) => c as int,
        None => 0,
    };
    &&& s.duration == match e.duration {
        Some(d) => d,
        None => ctx.duration,
    }
    &&& s.flags == match e.flags {
        Some(f) => f,
        None => ctx.flags,
    }
    &&& s.timescale == ctx.timescale
    &&& s.keyframe <==> ctx.kind == TrackKind::Audio || is_sync(s.flags)
    &&& s.pts == (dts + before + cts) % 0x1_0000_0000_0000_0000
}

/// Whether the samples that were read are those of the entries, one for one.
pub open spec fn all_told(
    samples: Seq<SampleInfo>,
    entries: Seq<TrunEntry>,
    ctx: Context,
    dts: u64,
) -> bool {
    &&& samples.len() == entries.len()
    &&& forall|k: int|
        0 <= k < samples.len() ==> tells(
            #[trigger] samples[k],
            entries[k],
            ctx,
            dts,
            time_before(entries, ctx.duration, k as nat),
        )
}

spec fn scanned(ctx: Context, dts: u64, c: Scan, entries: Seq<TrunEntry>) -> bool {
    &&& all_told(c.samples, entries, ctx, dts)
    &&& c.dts == (dts + time_before(entries, ctx.duration, entries.len()))
        % 0x1_0000_0000_0000_0000
}

proof fn lemma_one_more(
    ctx: Context,
    dts: u64,
    c: Scan,
    entries: Seq<TrunEntry>,
    e: TrunEntry,
    next: Scan,
)
    requires
        scanned(ctx, dts, c, entries),
        next.samples == c.samples.push(ctx.sample(c.dts, e)),
        next.dts == (c.dts + ctx.sample(c.dts, e).duration) % 0x1_0000_0000_0000_0000,
    ensures
        scanned(ctx, dts, next, entries.push(e)),
{
    let all = entries.push(e);
    let n = entries.len();
    lemma_time_of_prefix(all, entries, ctx.duration, n);
    assert forall|k: int| 0 <= k < next.samples.len() implies tells(
        #[trigger] next.samples[k],
        all[k],
        ctx,
        dts,
        time_before(all, ctx.duration, k as nat),
    ) by {
        if k < n {
            assert(next.samples[k] == c.samples[k]);
            lemma_time_of_prefix(all, entries, ctx.duration, k as nat);
        } else {
            assert(next.samples[k] == ctx.sample(c.dts, e));
        }
    }
}

proof fn lemma_entries_told(
    ctx: Context,
    dts: u64,
    c: Scan,
    before: Seq<TrunEntry>,
    entries: Seq<TrunEntry>,
    i: nat,
)
    requires
        i <= entries.len(),
        scanned(ctx, dts, c, before + entries.take(i as int)),
        ctx.entries(c, entries, i) is Ok,
    ensures
        ({
            let d = ctx.entries(c, entries, i)->Ok_0;
            &&& scanned(ctx, dts, d, before + entries)
            &&& d.offset + bytes_before(entries, ctx.size, i) == c.offset + bytes_before(
                entries,
                ctx.size,
                entries.len(),
            )
            &&& d.start == c.start
        }),
    decreases entries.len() - i,
{
    if i >= entries.len() {
        assert(entries.take(i as int) =~= entries);
    } else {
        let e = entries[i as int];
        let sample = ctx.sample(c.dts, e);
        let size = match e.size {
            Some(n) => n,
            None => ctx.size,
        };
        let next = Scan {
            dts: ((c.dts + sample.duration) % 0x1_0000_0000_0000_0000) as u64,
            offset: (c.offset + size) as u64,
            start: c.start,
            samples: c.samples.push(sample),
        };
        assert(before + entries.take((i + 1) as int) =~= (before + entries.take(i as int)).push(e));
        lemma_one_more(ctx, dts, c, before + entries.take(i as int), e, next);
        assert(ctx.entries(c, entries, i) == ctx.entries(next, entries, i + 1));
        lemma_entries_told(ctx, dts, next, before, entries, i + 1);
    }
}

proof fn lemma_runs_told(ctx: Context, dts: u64, c: Scan, trun: Seq<TrunView>, i: nat)
    requires
        i <= trun.len(),
        scanned(ctx, dts, c, all_entries(trun.take(i as int))),
        ctx.runs(c, trun, i) is Ok,
    ensures
        scanned(ctx, dts, ctx.runs(c, trun, i)->Ok_0, all_entries(trun)),
        c.start is Some ==> ctx.runs(c, trun, i)->Ok_0.start == c.start,
        c.start is None && i < trun.len() ==> ctx.runs(c, trun, i)->Ok_0.start == Some(
            ctx.run_start(c.offset, trun[i as int].data_offset)->Ok_0,
        ),
    decreases trun.len() - i,
{
    if i >= trun.len() {
        assert(trun.take(i as int) =~= trun);
    } else {
        let offset = ctx.run_start(c.offset, trun[i as int].data_offset)->Ok_0;
        let at = Scan {
            offset,
            start: match c.start {
                Some(s) => Some(s),
                None => Some(offset),
            },
            ..c
        };
        let entries = trun[i as int].entries;
        let before = all_entries(trun.take(i as int));
        assert(before + entries.take(0) =~= before);
        lemma_entries_told(ctx, dts, at, before, entries, 0);
        assert(trun.take((i + 1) as int).drop_last() =~= trun.take(i as int));
        lemma_runs_told(ctx, dts, ctx.entries(at, entries, 0)->Ok_0, trun, i + 1);
    }
}

/// The bytes of two groups of samples are those of both.
proof fn lemma_bytes_of_both(a: Seq<TrunEntry>, b: Seq<TrunEntry>, default: u32, k: nat)
    requires
        k <= b.len(),
    ensures
        bytes_before(a + b, default, a.len() + k) == bytes_before(a, default, a.len())
            + bytes_before(b, default, k),
    decreases k,
{
    if k == 0 {
        lemma_time_of_prefix(a + b, a, default, a.len());
    } else {
        lemma_bytes_of_both(a, b, default, (k - 1) as nat);
        assert((a + b)[a.len() + k - 1] == b[k - 1]);
    }
}

/// Where runs follow one another, their samples do.
proof fn lemma_runs_follow(ctx: Context, dts: u64, c: Scan, trun: Seq<TrunView>, i: nat)
    requires
        i <= trun.len(),
        scanned(ctx, dts, c, all_entries(trun.take(i as int))),
        ctx.runs(c, trun, i) is Ok,
        forall|j: int| i <= j < trun.len() ==> (#[trigger] trun[j]).data_offset is None,
    ensures
        ctx.runs(c, trun, i)->Ok_0.offset + bytes_before(
            all_entries(trun.take(i as int)),
            ctx.size,
            all_entries(trun.take(i as int)).len(),
        ) == c.offset + bytes_before(all_entries(trun), ctx.size, all_entries(trun).len()),
    decreases trun.len() - i,
{
    if i >= trun.len() {
        assert(trun.take(i as int) =~= trun);
    } else {
        let entries = trun[i as int].entries;
        let before = all_entries(trun.take(i as int));
        let at = Scan {
            offset: c.offset,
            start: match c.start {
                Some(s) => Some(s),
                None => Some(c.offset),
            },
            ..c
        };
        assert(trun[i as int].data_offset is None);
        assert(before + entries.take(0) =~= before);
        lemma_entries_told(ctx, dts, at, before, entries, 0);
        assert(trun.take((i + 1) as int).drop_last() =~= trun.take(i as int));
        lemma_bytes_of_both(before, entries, ctx.size, entries.len());
        lemma_runs_follow(ctx, dts, ctx.entries(at, entries, 0)->Ok_0, trun, i + 1);
    }
}

/// The samples of a fragment are those of its runs, one for one and in order. Each has the
/// duration and the flags that its entry says, or else those of the fragment, or else those of the
/// track, or else none. It is decoded when the samples before it are over, and presented its
/// offset later. It is a keyframe if it is audio or its flags say so; the fragment holds a keyframe
/// if one of them is. The fragment is one of the track that it names.
pub proof fn law_samples_are_as_told(
    moov: MoovView,
    raw: Seq<u8>,
    index: nat,
    traf: TrafView,
    moof_size: u64,
    header_size: u64,
    data: Seq<u8>,
    f: FragmentView,
)
    requires
        fragment_of(moov, raw, index, traf, moof_size, header_size, data) == Ok::<
            _,
            ParseErrorView,
        >(f),
    ensures
        f.track_id == traf.track_id,
        find_trak(moov.trak, traf.track_id, 0) matches Some(trak) && {
            let trex = trex_of(moov, traf.track_id);
            let (duration, size, flags) = defaults(traf, trex);
            let ctx = context_of(moov, trak, traf, moof_size, header_size, data.len());
            &&& trak.handler == 0x7669_6465 || trak.handler == 0x736f_756e
            &&& ctx.kind == TrackKind::Video <==> trak.handler == 0x7669_6465
            &&& ctx.timescale == trak.timescale
            &&& (ctx.duration, ctx.size, ctx.flags) == (duration, size, flags)
            &&& traf.base_media_decode_time is Some
            &&& all_told(
                f.samples,
                all_entries(traf.trun),
                ctx,
                traf.base_media_decode_time->Some_0,
            )
        },
        f.keyframe <==> exists|k: int| 0 <= k < f.samples.len() && (#[trigger] f.samples[k]).keyframe,
{
    let trak = find_trak(moov.trak, traf.track_id, 0)->Some_0;
    let ctx = context_of(moov, trak, traf, moof_size, header_size, data.len());
    let dts = traf.base_media_decode_time->Some_0;
    let first = Scan { dts, offset: ctx.base, start: None, samples: Seq::empty() };
    assert(traf.trun.take(0) =~= Seq::<TrunView>::empty());
    lemma_runs_told(ctx, dts, first, traf.trun, 0);
    assert(f.keyframe == has_keyframe(f.samples));
}

/// The samples of a fragment lie in the payload from where its first run starts: behind the moof
/// and the header of the mdat, as far as the run says, counted from the base of the fragment, and
/// else at that base. Where the other runs do not say where they start, they follow, and the part
/// of the payload that is taken is as long as all samples together.
pub proof fn law_samples_lie_where_told(
    moov: MoovView,
    traf: TrafView,
    moof_size: u64,
    header_size: u64,
    len: nat,
)
    requires
        traf.trun.len() > 0,
        samples_at(moov, traf, moof_size, header_size, len) is Some,
        len <= u64::MAX,
    ensures
        ({
            let (start, end) = samples_at(moov, traf, moof_size, header_size, len)->Some_0;
            let base: int = match traf.base_data_offset {
                Some(b) => b as int,
                None => 0,
            };
            let size = defaults(traf, trex_of(moov, traf.track_id)).1;
            let all = all_entries(traf.trun);
            &&& 0 <= start <= end <= len
            &&& match traf.trun[0].data_offset {
                Some(d) => start + moof_size + header_size == base + d,
                None => start == base,
            }
            &&& (forall|j: int|
                1 <= j < traf.trun.len() ==> (#[trigger] traf.trun[j]).data_offset is None)
                ==> end - start == bytes_before(all, size, all.len())
        }),
{
    let trak = find_trak(moov.trak, traf.track_id, 0)->Some_0;
    let ctx = context_of(moov, trak, traf, moof_size, header_size, len);
    let dts = traf.base_media_decode_time->Some_0;
    let trun = traf.trun;
    let first = Scan { dts, offset: ctx.base, start: None, samples: Seq::empty() };
    assert(trun.take(0) =~= Seq::<TrunView>::empty());
    lemma_runs_told(ctx, dts, first, trun, 0);
    let offset = ctx.run_start(first.offset, trun[0].data_offset)->Ok_0;
    let at = Scan { offset, start: Some(offset), ..first };
    let entries = trun[0].entries;
    let none = Seq::<TrunEntry>::empty();
    assert(none + entries.take(0) =~= none);
    assert(none + entries =~= entries);
    lemma_entries_told(ctx, dts, at, none, entries, 0);
    let next = ctx.entries(at, entries, 0)->Ok_0;
    assert(trun.take(1).drop_last() =~= trun.take(0));
    assert(all_entries(trun.take(1)) =~= entries);
    if forall|j: int| 1 <= j < trun.len() ==> (#[trigger] trun[j]).data_offset is None {
        lemma_runs_follow(ctx, dts, next, trun, 1);
    }
}

/// Where no sample says its size, they are all of the size that the fragment says, or else the
/// track: together as many times that as there are samples.
pub proof fn law_equal_sizes(entries: Seq<TrunEntry>, size: u32, k: nat)
    requires
        k <= entries.len(),
        forall|j: int| 0 <= j < k ==> (#[trigger] entries[j]).size is None,
    ensures
        bytes_before(entries, size, k) == k * size,
    decreases k,
{
    if k == 0 {
        assert(k * size == 0) by (nonlinear_arith)
            requires
                k == 0,
        ;
    } else {
        law_equal_sizes(entries, size, (k - 1) as nat);
        assert(entries[k - 1].size is None);
        assert(k * size == ((k - 1) as nat) * size + size) by (nonlinear_arith)
            requires
                k > 0,
        ;
    }
}

/// A fragment is refused for a track that is not there, or is neither video nor audio, for a time
/// or runs that are missing, and for a place before the payload or beyond it.
pub proof fn law_why_a_fragment_is_refused(
    moov: MoovView,
    raw: Seq<u8>,
    index: nat,
    traf: TrafView,
    moof_size: u64,
    header_size: u64,
    data: Seq<u8>,
)
    ensures
        ({
            let res = fragment_of(moov, raw, index, traf, moof_size, header_size, data);
            let trak = find_trak(moov.trak, traf.track_id, 0);
            let handler = trak->Some_0.handler;
            let known = trak is Some && (handler == 0x7669_6465 || handler == 0x736f_756e);
            &&& trak is None ==> res == Err::<FragmentView, _>(ParseErrorView::UnknownTrack)
            &&& trak is Some && !known ==> res == Err::<FragmentView, _>(
                ParseErrorView::UnexpectedHandler(handler),
            )
            &&& known && traf.base_media_decode_time is None ==> res == Err::<FragmentView, _>(
                ParseErrorView::MissingTfdt,
            )
            &&& known && traf.base_media_decode_time is Some && traf.trun.len() == 0 ==> res
                == Err::<FragmentView, _>(ParseErrorView::MissingTrun)
            &&& known && traf.base_media_decode_time is Some && traf.trun.len() > 0
                && traf.trun[0].data_offset is Some && traf.trun[0].data_offset->Some_0 < 0 ==> res
                == Err::<FragmentView, _>(ParseErrorView::NegativeOffset)
            &&& known && traf.base_media_decode_time is Some && traf.trun.len() > 0
                && traf.trun[0].data_offset is Some && 0 <= traf.trun[0].data_offset->Some_0
                < moof_size + header_size ==> res == Err::<FragmentView, _>(
                ParseErrorView::OffsetUnderflow,
            )
        }),
{
}

proof fn lemma_entries_fit(ctx: Context, c: Scan, entries: Seq<TrunEntry>, i: nat)
    requires
        i <= entries.len(),
        c.offset + bytes_before(entries, ctx.size, entries.len()) - bytes_before(
            entries,
            ctx.size,
            i,
        ) <= ctx.len,
    ensures
        ctx.entries(c, entries, i) is Ok,
    decreases entries.len() - i,
{
    if i < entries.len() {
        lemma_bytes_grow(entries, ctx.size, i + 1, entries.len());
        let e = entries[i as int];
        let sample = ctx.sample(c.dts, e);
        let size = match e.size {
            Some(n) => n,
            None => ctx.size,
        };
        let next = Scan {
            dts: ((c.dts + sample.duration) % 0x1_0000_0000_0000_0000) as u64,
            offset: (c.offset + size) as u64,
            start: c.start,
            samples: c.samples.push(sample),
        };
        lemma_entries_fit(ctx, next, entries, i + 1);
    }
}

proof fn lemma_bytes_grow(entries: Seq<TrunEntry>, size: u32, i: nat, j: nat)
    requires
        i <= j,
    ensures
        bytes_before(entries, size, i) <= bytes_before(entries, size, j),
    decreases j,
{
    if i < j {
        lemma_bytes_grow(entries, size, i, (j - 1) as nat);
    }
}

/// The samples of a single run are found wherever they lie within the payload, and only there.
pub proof fn law_single_run_is_found(
    moov: MoovView,
    traf: TrafView,
    moof_size: u64,
    header_size: u64,
    len: nat,
)
    requires
        find_trak(moov.trak, traf.track_id, 0) is Some,
        traf.base_media_decode_time is Some,
        traf.trun.len() == 1,
        traf.trun[0].data_offset matches Some(d) && d >= moof_size + header_size,
        traf.base_data_offset is None,
        len <= u64::MAX,
    ensures
        ({
            let size = defaults(traf, trex_of(moov, traf.track_id)).1;
            let entries = traf.trun[0].entries;
            let start = traf.trun[0].data_offset->Some_0 - moof_size - header_size;
            let end = start + bytes_before(entries, size, entries.len());
            samples_at(moov, traf, moof_size, header_size, len) == if end <= len {
                Some((start, end))
            } else {
                None
            }
        }),
{
    let size = defaults(traf, trex_of(moov, traf.track_id)).1;
    let trun = traf.trun;
    let entries = trun[0].entries;
    let start = trun[0].data_offset->Some_0 - moof_size - header_size;
    let end = start + bytes_before(entries, size, entries.len());
    let trak = find_trak(moov.trak, traf.track_id, 0)->Some_0;
    let ctx = context_of(moov, trak, traf, moof_size, header_size, len);
    let dts = traf.base_media_decode_time->Some_0;
    let first = Scan { dts, offset: ctx.base, start: None, samples: Seq::empty() };
    let at = Scan { offset: start as u64, start: Some(start as u64), ..first };
    let none = Seq::<TrunEntry>::empty();
    assert(none + entries.take(0) =~= none);
    assert(none + entries =~= entries);
    assert(trun.take(1) =~= trun);
    assert(trun.drop_last() =~= Seq::<TrunView>::empty());
    assert(all_entries(trun.drop_last()) =~= none);
    assert(all_entries(trun) =~= entries);
    reveal_with_fuel(Context::runs, 2);
    if end <= len {
        lemma_entries_fit(ctx, at, entries, 0);
        lemma_entries_told(ctx, dts, at, none, entries, 0);
    }
    if samples_at(moov, traf, moof_size, header_size, len) is Some {
        law_samples_lie_where_told(moov, traf, moof_size, header_size, len);
    }
}

/// A fragment that stands alone says of every sample what the one that it was taken from said, and
/// its flags besides; it has as many runs, each of which says where it starts, counted from its own
/// moof. All else that it says is the same.
pub proof fn law_alone_says_the_same(traf: TrafView, flags: u32, size: u32, len: nat, i: int, j: int)
    requires
        0 <= i < traf.trun.len(),
        0 <= j < traf.trun[i].entries.len(),
    ensures
        ({
            let one = alone(traf, flags, size, Some(len));
            let a = traf.trun[i].entries[j];
            let b = one.trun[i].entries[j];
            &&& one.trun.len() == traf.trun.len()
            &&& one.trun[i].entries.len() == traf.trun[i].entries.len()
            &&& one.trun[i].data_offset is Some
            &&& b.size == a.size
            &&& b.duration == a.duration
            &&& b.cts == a.cts
            &&& a.flags is Some ==> b.flags == a.flags
            &&& a.flags is None ==> b.flags == Some(flags)
            &&& one.track_id == traf.track_id
            &&& one.base_data_offset is None
            &&& one.base_media_decode_time == traf.base_media_decode_time
            &&& one.default_sample_duration == traf.default_sample_duration
            &&& one.default_sample_size == traf.default_sample_size
            &&& one.default_sample_flags == traf.default_sample_flags
        }),
{
}

} // verus!
