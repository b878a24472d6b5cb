//! What is written of a track fragment is read back as it was.
//!
//! A fragment that is taken out of a moof is written as an object of its own, and the timing of
//! that object is read from its bytes. Here it is shown that both say the same.

use crate::mux::cmsf::{
    all_entries, find_atom, is_sync, meta_of, metadata, or, signed, total_duration,
    CmsfErrorView, CmsfMetadata,
};
use crate::mux::fragment::{
    alone, lone_run, mdat_bytes, with_flags, written_back, Context, FragmentView, SampleInfo, Scan,
};
use crate::mux::mp4::{
    all_or_none, atom_at, is_regular, moof_at, reads_back, regular, uniform, AtomKind, TrafView,
    TrunEntry, TrunView,
};
use vstd::prelude::*;

verus! {

/// A time that is not before zero, where the number is one with a sign.
pub open spec fn not_negative(pts: u64) -> u64 {
    if signed(pts as int) < 0 {
        0
    } else {
        pts
    }
}

/// Whether the object that a fragment is, if its timing can be read at all, starts when the first
/// sample does, and with a keyframe if the flags of the first sample say so.
pub open spec fn faithful(f: FragmentView) -> bool {
    metadata(f.data) matches Ok(m) ==> f.samples.len() > 0 ==> {
        &&& m.pts == not_negative(f.samples[0].pts)
        &&& m.is_keyframe == is_sync(f.samples[0].flags)
    }
}

/// The samples with their flags.
pub open spec fn filled(entries: Seq<TrunEntry>, flags: u32) -> Seq<TrunEntry> {
    entries.map_values(|e: TrunEntry| with_flags(e, flags))
}

/// Where a fragment stands alone, its samples are the same, with their flags.
proof fn lemma_same_samples(traf: TrafView, flags: u32, size: u32, len: nat, n: nat)
    requires
        n <= traf.trun.len(),
    ensures
        all_entries(alone(traf, flags, size, Some(len)).trun.take(n as int)) == filled(
            all_entries(traf.trun.take(n as int)),
            flags,
        ),
    decreases n,
{
    let one = alone(traf, flags, size, Some(len)).trun;
    if n == 0 {
        assert(all_entries(one.take(0)) =~= filled(all_entries(traf.trun.take(0)), flags));
    } else {
        lemma_same_samples(traf, flags, size, len, (n - 1) as nat);
        assert(one.take(n as int).drop_last() =~= one.take(n - 1));
        assert(traf.trun.take(n as int).drop_last() =~= traf.trun.take(n - 1));
        assert(all_entries(one.take(n as int)) =~= filled(
            all_entries(traf.trun.take(n as int)),
            flags,
        ));
    }
}

/// The samples last as long with their flags.
proof fn lemma_same_duration(entries: Seq<TrunEntry>, flags: u32, default: u32)
    ensures
        total_duration(filled(entries, flags), default) == total_duration(entries, default),
    decreases entries.len(),
{
    if entries.len() > 0 {
        lemma_same_duration(entries.drop_last(), flags, default);
        assert(filled(entries, flags).drop_last() =~= filled(entries.drop_last(), flags));
    }
}

/// A fragment that stands alone has the time and the duration of the one that it was taken from.
pub proof fn law_alone_keeps_timing(traf: TrafView, flags: u32, size: u32, len: nat)
    ensures
        match (meta_of(alone(traf, flags, size, Some(len))), meta_of(traf)) {
            (Ok(a), Ok(b)) => a.pts == b.pts && a.duration == b.duration,
            (Err(a), Err(b)) => a == b,
            _ => false,
        },
{
    let one = alone(traf, flags, size, Some(len));
    lemma_same_samples(traf, flags, size, len, traf.trun.len());
    assert(one.trun.take(traf.trun.len() as int) =~= one.trun);
    assert(traf.trun.take(traf.trun.len() as int) =~= traf.trun);
    lemma_same_duration(all_entries(traf.trun), flags, or(traf.default_sample_duration, 0u32));
}

/// Where the samples have the same value, as many say it.
proof fn lemma_same_values<T>(
    a: Seq<TrunEntry>,
    b: Seq<TrunEntry>,
    value: spec_fn(TrunEntry) -> Option<T>,
)
    requires
        a.len() == b.len(),
        forall|k: int| 0 <= k < b.len() ==> value(#[trigger] b[k]) == value(a[k]),
        all_or_none(a, value),
    ensures
        all_or_none(b, value),
{
    assert forall|j: int, k: int| 0 <= j < b.len() && 0 <= k < b.len() implies (value(
        #[trigger] b[j],
    ) is Some) == (value(#[trigger] b[k]) is Some) by {
        assert((value(a[j]) is Some) == (value(a[k]) is Some));
    }
}

/// Where a fragment stands alone, the samples of each run say the same values.
proof fn lemma_alone_is_uniform(traf: TrafView, flags: u32, size: u32, len: nat)
    requires
        regular(traf),
    ensures
        uniform(alone(traf, flags, size, Some(len)).trun),
{
    let one = alone(traf, flags, size, Some(len)).trun;
    assert forall|i: int| 0 <= i < one.len() implies is_regular(#[trigger] one[i]) && all_or_none(
        one[i].entries,
        |e: TrunEntry| e.flags,
    ) by {
        assert(is_regular(traf.trun[i]));
        let a = traf.trun[i].entries;
        let b = one[i].entries;
        assert(one[i] == lone_run(traf, flags, size, Some(len), i));
        assert(forall|k: int| 0 <= k < b.len() ==> #[trigger] b[k] == with_flags(a[k], flags));
        lemma_same_values(a, b, |e: TrunEntry| e.duration);
        lemma_same_values(a, b, |e: TrunEntry| e.size);
        lemma_same_values(a, b, |e: TrunEntry| e.cts);
    }
}

/// Whether samples were read of entries that start at `dts`.
spec fn reads(ctx: Context, dts: u64, c: Scan, entries: Seq<TrunEntry>) -> bool {
    &&& c.samples.len() == entries.len()
    &&& entries.len() == 0 ==> c.dts == dts
    &&& entries.len() > 0 ==> c.samples[0] == ctx.sample(dts, entries[0])
}

/// The samples of a run are read.
proof fn lemma_entries_read(
    ctx: Context,
    dts: u64,
    c: Scan,
    before: Seq<TrunEntry>,
    entries: Seq<TrunEntry>,
    i: nat,
)
    requires
        i <= entries.len(),
        reads(ctx, dts, c, before + entries.take(i as int)),
        ctx.entries(c, entries, i) is Ok,
    ensures
        reads(ctx, dts, ctx.entries(c, entries, i)->Ok_0, before + entries),
    decreases entries.len() - i,
{
    if i >= entries.len() {
        assert(entries.take(i as int) =~= entries);
    } else {
        let e = entries[i as int];
        let sample = ctx.sample(c.dts, e);
        let next = Scan {
            dts: ((c.dts + sample.duration) % 0x1_0000_0000_0000_0000) as u64,
            offset: (c.offset + or(e.size, ctx.size)) as u64,
            start: c.start,
            samples: c.samples.push(sample),
        };
        assert(before + entries.take((i + 1) as int) =~= (before + entries.take(i as int)).push(e));
        lemma_entries_read(ctx, dts, next, before, entries, i + 1);
    }
}

/// The samples of the runs are read.
proof fn lemma_runs_read(ctx: Context, dts: u64, c: Scan, trun: Seq<TrunView>, i: nat)
    requires
        i <= trun.len(),
        reads(ctx, dts, c, all_entries(trun.take(i as int))),
        ctx.runs(c, trun, i) is Ok,
    ensures
        reads(ctx, dts, ctx.runs(c, trun, i)->Ok_0, all_entries(trun)),
    decreases trun.len() - i,
{
    if i >= trun.len() {
        assert(trun.take(i as int) =~= trun);
    } else {
        let offset = ctx.run_start(c.offset, trun[i as int].data_offset)->Ok_0;
        let at = Scan {
            offset,
            start: match c.start {
                Some(s) => Some(s),
                None => Some(offset),
            },
            ..c
        };
        let entries = trun[i as int].entries;
        let before = all_entries(trun.take(i as int));
        assert(before + entries.take(0) =~= before);
        lemma_entries_read(ctx, dts, at, before, entries, 0);
        assert(trun.take((i + 1) as int).drop_last() =~= trun.take(i as int));
        lemma_runs_read(ctx, dts, ctx.entries(at, entries, 0)->Ok_0, trun, i + 1);
    }
}

/// What is read of the bytes of a fragment is what the fragment says that stands alone.
pub proof fn law_fragment_is_read_back(
    raw: Seq<u8>,
    index: nat,
    traf: TrafView,
    flags: u32,
    size: u32,
    data: Seq<u8>,
    b: Seq<u8>,
)
    requires
        moof_at(raw) is Ok,
        index < moof_at(raw)->Ok_0.len(),
        traf == moof_at(raw)->Ok_0[index as int],
        regular(traf),
        written_back(raw, index, traf, flags, size, data, b),
    ensures
        metadata(b) matches Ok(m) ==> exists|len: nat|
            Ok::<CmsfMetadata, CmsfErrorView>(m) == #[trigger] meta_of(
                alone(traf, flags, size, Some(len)),
            ),
{
    let moof = choose|moof: Seq<u8>|
        #![trigger reads_back(raw, index, alone(traf, flags, size, Some(moof.len())), moof)]
        b == moof + mdat_bytes(data) && reads_back(
            raw,
            index,
            alone(traf, flags, size, Some(moof.len())),
            moof,
        );
    let one = alone(traf, flags, size, Some(moof.len()));
    if metadata(b) is Ok {
        assert(atom_at(moof + mdat_bytes(data)) is Ok);
        assert(moof_at(moof) is Ok);
        assert(b.take(moof.len() as int) =~= moof);
        assert(find_atom(b, AtomKind::Moof) == Ok::<_, Seq<char>>(Some(moof)));
        lemma_alone_is_uniform(traf, flags, size, moof.len());
        assert(moof_at(moof)->Ok_0 == seq![one]);
        assert(metadata(b) == meta_of(one));
    }
}

/// The keyframe indication and the time of a fragment are preserved when it is written: what is
/// read of its bytes is what its first sample said.
#[verifier::rlimit(30)]
pub proof fn law_fragment_is_faithful(
    ctx: &Context,
    raw: Seq<u8>,
    index: nat,
    traf: TrafView,
    data: Seq<u8>,
    f: FragmentView,
)
    requires
        moof_at(raw) is Ok,
        index < moof_at(raw)->Ok_0.len(),
        traf == moof_at(raw)->Ok_0[index as int],
        regular(traf),
        written_back(raw, index, traf, ctx.flags, ctx.size, data, f.data),
        traf.base_media_decode_time matches Some(dts) && ctx.scan(dts, traf.trun) matches Ok(
            (samples, _, _),
        ) && samples == f.samples,
    ensures
        faithful(f),
{
    law_fragment_is_read_back(raw, index, traf, ctx.flags, ctx.size, data, f.data);
    if metadata(f.data) is Ok && f.samples.len() > 0 {
        let m = metadata(f.data)->Ok_0;
        let len = choose|len: nat|
            Ok::<CmsfMetadata, CmsfErrorView>(m) == #[trigger] meta_of(
                alone(traf, ctx.flags, ctx.size, Some(len)),
            );
        let one = alone(traf, ctx.flags, ctx.size, Some(len));
        let dts = traf.base_media_decode_time->Some_0;
        let entries = all_entries(traf.trun);
        lemma_same_samples(traf, ctx.flags, ctx.size, len, traf.trun.len());
        assert(one.trun.take(traf.trun.len() as int) =~= one.trun);
        assert(traf.trun.take(traf.trun.len() as int) =~= traf.trun);
        assert(traf.trun.take(0) =~= Seq::<TrunView>::empty());
        let samples = Seq::<SampleInfo>::empty();
        let first = Scan { dts, offset: ctx.base, start: None, samples };
        lemma_runs_read(*ctx, dts, first, traf.trun, 0);
        assert(f.samples[0] == ctx.sample(dts, entries[0]));
        assert(all_entries(one.trun)[0] == with_flags(entries[0], ctx.flags));
    }
}

} // verus!
