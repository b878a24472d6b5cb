//! What holds of every init segment, and of every stream of atoms.

use crate::coding::{be_bytes, be_value, lemma_be_round_trip, lemma_pow256};
use crate::mux::broadcast_demux::{active, EntryView};
use crate::mux::cmsf::{find_atom, timescale_of, CmsfErrorView};
use crate::mux::fmp4::Fmp4View;
use crate::mux::init::{init_segment, merged_init, merged_says, track_trex, MergeView};
use crate::mux::leaf::{be16, be32, be64, head};
use crate::mux::mp4::{
    atom_at, brand_bytes, ftyp_again, ftyp_bytes, is_atom, kind_of, law_atom_is_as_told, merged_moov, moov_at,
    track_moov, AtomKind, MoovView,
};
use crate::mux::outbox::OutboxView;
use crate::mux::parser::{atom_step, decode_all, Fmp4Sink, ImportErrorView, ParserView};
use vstd::prelude::*;

verus! {

/// The kinds of atoms are told by their four letters.
pub proof fn law_atom_kinds(kind: u32)
    ensures
        kind_of(kind) == AtomKind::Ftyp <==> kind == 0x6674_7970,
        kind_of(kind) == AtomKind::Styp <==> kind == 0x7374_7970,
        kind_of(kind) == AtomKind::Moov <==> kind == 0x6d6f_6f76,
        kind_of(kind) == AtomKind::Moof <==> kind == 0x6d6f_6f66,
        kind_of(kind) == AtomKind::Mdat <==> kind == 0x6d64_6174,
{
}

/// The numbers of two, four and eight bytes have their highest byte first.
pub proof fn law_numbers_of_atoms(s: Seq<u8>, i: int)
    requires
        0 <= i,
        i + 8 <= s.len(),
    ensures
        be16(s, i) == be_value(s.subrange(i, i + 2)),
        be32(s, i) == be_value(s.subrange(i, i + 4)),
        be64(s, i) == be_value(s.subrange(i, i + 8)),
{
    lemma_last_byte(s, i, i + 1);
    lemma_last_byte(s, i, i + 2);
    lemma_last_byte(s, i, i + 3);
    lemma_last_byte(s, i, i + 4);
    lemma_last_byte(s, i, i + 5);
    lemma_last_byte(s, i, i + 6);
    lemma_last_byte(s, i, i + 7);
    lemma_last_byte(s, i, i + 8);
    assert(s.subrange(i, i).len() == 0);
    assert(be_value(s.subrange(i, i)) == 0);
}

proof fn lemma_last_byte(s: Seq<u8>, i: int, j: int)
    requires
        0 <= i < j <= s.len(),
    ensures
        be_value(s.subrange(i, j)) == 256 * be_value(s.subrange(i, j - 1)) + s[j - 1],
{
    assert(s.subrange(i, j).drop_last() =~= s.subrange(i, j - 1));
}

/// The header of an atom tells its length and its kind: in the first four bytes and the next. A
/// length of one stands for that in the eight bytes behind them, and one of zero for all that is
/// there.
pub proof fn law_header_is_told(s: Seq<u8>)
    ensures
        head(s) is Some ==> {
            let (kind, start, end) = head(s)->Some_0;
            &&& s.len() >= 8
            &&& kind == be32(s, 4)
            &&& start <= end <= s.len()
            &&& be32(s, 0) > 1 ==> start == 8 && end == be32(s, 0)
            &&& be32(s, 0) == 1 ==> start == 16 && end == be64(s, 8)
            &&& be32(s, 0) == 0 ==> start == 8 && end == s.len()
        },
        s.len() >= 8 && 8 <= be32(s, 0) <= s.len() ==> head(s) is Some,
        s.len() >= 16 && be32(s, 0) == 1 && 16 <= be64(s, 8) <= s.len() ==> head(s) is Some,
        s.len() >= 8 && be32(s, 0) == 0 ==> head(s) is Some,
        s.len() < 8 ==> head(s) is None,
{
}

/// An atom that is looked for is found where it comes first, and behind any other.
pub proof fn law_first_of_its_kind_is_found(b: Seq<u8>, rest: Seq<u8>, other: AtomKind, kind: AtomKind)
    requires
        b.len() > 0,
        is_atom(b, other),
    ensures
        other == kind ==> find_atom(b + rest, kind) == Ok::<_, Seq<char>>(Some(b)),
        other != kind ==> find_atom(b + rest, kind) == find_atom(rest, kind),
{
    assert(atom_at(b + rest) == Ok::<_, Seq<char>>(Some((other, b.len()))));
    assert((b + rest).take(b.len() as int) =~= b);
    assert((b + rest).skip(b.len() as int) =~= rest);
}

/// Where nothing more can be read, nothing is found.
pub proof fn law_nothing_is_found_in_nothing(data: Seq<u8>, kind: AtomKind)
    ensures
        atom_at(data) matches Ok(None) ==> find_atom(data, kind) == Ok::<Option<Seq<u8>>, Seq<char>>(
            None,
        ),
        atom_at(data) is Err ==> find_atom(data, kind) == Err::<Option<Seq<u8>>, _>(
            atom_at(data)->Err_0,
        ),
{
}

/// The timescale of an init segment is that of the first track of its first moov; each reason why
/// there is none is told.
pub proof fn law_timescale_of_init(init: Seq<u8>)
    ensures
        ({
            let found = find_atom(init, AtomKind::Moov);
            let none = Err::<u64, _>(CmsfErrorView::NoMoov);
            &&& found matches Ok(None) ==> timescale_of(init) == none
            &&& found is Err ==> timescale_of(init) == Err::<u64, _>(
                CmsfErrorView::Mp4(found->Err_0),
            )
            &&& found is Ok && found->Ok_0 is Some ==> {
                let moov = moov_at(found->Ok_0->Some_0);
                &&& moov is Err ==> timescale_of(init) == Err::<u64, _>(
                    CmsfErrorView::Mp4(moov->Err_0),
                )
                &&& moov is Ok && moov->Ok_0.trak.len() == 0 ==> timescale_of(init) == Err::<
                    u64,
                    _,
                >(CmsfErrorView::NoTracks)
                &&& moov is Ok && moov->Ok_0.trak.len() > 0 ==> timescale_of(init) is Ok
                    && timescale_of(init)->Ok_0 == moov->Ok_0.trak[0].timescale
            }
        }),
{
}

proof fn lemma_brands(brands: Seq<u32>, i: int)
    requires
        0 <= i < brands.len(),
    ensures
        brand_bytes(brands).len() == 4 * brands.len(),
        be_value(brand_bytes(brands).subrange(4 * i, 4 * i + 4)) == brands[i],
    decreases brands.len(),
{
    let b = brand_bytes(brands);
    let before = brand_bytes(brands.drop_last());
    let last = be_bytes(brands.last() as nat, 4);
    lemma_pow256();
    lemma_be_round_trip(brands.last() as nat, 4);
    if brands.len() > 1 {
        lemma_brands(brands.drop_last(), 0);
    }
    if i < brands.len() - 1 {
        lemma_brands(brands.drop_last(), i);
        assert(b.subrange(4 * i, 4 * i + 4) =~= before.subrange(4 * i, 4 * i + 4));
    } else {
        assert(b.subrange(4 * i, 4 * i + 4) =~= last);
    }
}

/// A ftyp tells its length, its kind, the major brand, the version, and then every brand in order.
pub proof fn law_ftyp_layout(major: u32, minor: u32, brands: Seq<u32>, i: int)
    requires
        0 <= i < brands.len(),
        16 + 4 * brands.len() <= u32::MAX,
    ensures
        ({
            let b = ftyp_bytes(major, minor, brands);
            &&& b.len() == 16 + 4 * brands.len()
            &&& be_value(b.subrange(0, 4)) == b.len()
            &&& be_value(b.subrange(4, 8)) == 0x6674_7970
            &&& be_value(b.subrange(8, 12)) == major
            &&& be_value(b.subrange(12, 16)) == minor
            &&& be_value(b.subrange(16 + 4 * i, 20 + 4 * i)) == brands[i]
        }),
{
    let b = ftyp_bytes(major, minor, brands);
    let n = (16 + 4 * brands.len()) as nat;
    lemma_pow256();
    lemma_be_round_trip(n, 4);
    lemma_be_round_trip(major as nat, 4);
    lemma_be_round_trip(minor as nat, 4);
    lemma_brands(brands, i);
    assert(b.subrange(0, 4) =~= be_bytes(n, 4));
    assert(b.subrange(4, 8) =~= seq![0x66u8, 0x74u8, 0x79u8, 0x70u8]);
    assert(b.subrange(8, 12) =~= be_bytes(major as nat, 4));
    assert(b.subrange(12, 16) =~= be_bytes(minor as nat, 4));
    assert(b.subrange(16 + 4 * i, 20 + 4 * i) =~= brand_bytes(brands).subrange(4 * i, 4 * i + 4));
    let f = seq![0x66u8, 0x74u8, 0x79u8, 0x70u8];
    lemma_last_byte(f, 0, 1);
    lemma_last_byte(f, 0, 2);
    lemma_last_byte(f, 0, 3);
    lemma_last_byte(f, 0, 4);
    assert(be_value(f.subrange(0, 0)) == 0);
    assert(f.subrange(0, 4) =~= f);
}

/// The init segment of a track is a ftyp with the brands of ISO base media and a moov with that
/// track alone, and with its own defaults.
pub proof fn law_init_segment_layout(raw: Seq<u8>, moov: MoovView, index: nat)
    requires
        index < moov.trak.len(),
    ensures
        ({
            let one = track_moov(raw, index, track_trex(moov, moov.trak[index as int].track_id));
            let init = init_segment(raw, moov, index);
            &&& init is Ok <==> one is Ok
            &&& init is Ok ==> {
                let f = init->Ok_0.take(28);
                &&& init->Ok_0.skip(28) == one->Ok_0
                &&& be_value(f.subrange(4, 8)) == 0x6674_7970
                &&& be_value(f.subrange(8, 12)) == 0x6973_6f6d
                &&& be_value(f.subrange(12, 16)) == 0x200
                &&& be_value(f.subrange(16, 20)) == 0x6973_6f6d
                &&& be_value(f.subrange(20, 24)) == 0x6973_6f36
                &&& be_value(f.subrange(24, 28)) == 0x6d70_3431
            }
        }),
{
    let brands = seq![0x6973_6f6du32, 0x6973_6f36u32, 0x6d70_3431u32];
    law_ftyp_layout(0x6973_6f6d, 0x200, brands, 0);
    law_ftyp_layout(0x6973_6f6d, 0x200, brands, 1);
    law_ftyp_layout(0x6973_6f6d, 0x200, brands, 2);
    let f = ftyp_bytes(0x6973_6f6d, 0x200, brands);
    let init = init_segment(raw, moov, index);
    if init is Ok {
        let one = track_moov(raw, index, track_trex(moov, moov.trak[index as int].track_id))->Ok_0;
        assert(init->Ok_0 == f + one);
        assert(init->Ok_0.take(28) =~= f);
        assert(init->Ok_0.skip(28) =~= one);
    }
}

/// A track of an init segment: the moov that it is in, and its place there.
pub struct Told {
    pub raw: Seq<u8>,
    pub trak: nat,
}

/// The tracks of a moov.
pub open spec fn tracks_of_moov(raw: Seq<u8>) -> Seq<Told> {
    Seq::new(moov_at(raw)->Ok_0.trak.len(), |i: int| Told { raw, trak: i as nat })
}

/// The tracks of all the moovs of an init segment, in order.
pub open spec fn tracks_of(data: Seq<u8>) -> Seq<Told>
    decreases data.len(),
{
    match atom_at(data) {
        Ok(Some((kind, size))) => {
            let here = if kind == AtomKind::Moov {
                tracks_of_moov(data.take(size as int))
            } else {
                Seq::empty()
            };
            if 0 < size <= data.len() {
                here + tracks_of(data.skip(size as int))
            } else {
                here
            }
        },
        _ => Seq::empty(),
    }
}

/// The tracks of all init segments from number `i` on, in order.
pub open spec fn tracks_of_all(inits: Seq<Seq<u8>>, i: nat) -> Seq<Told>
    decreases inits.len() - i,
{
    if i >= inits.len() {
        Seq::empty()
    } else {
        tracks_of(inits[i as int]) + tracks_of_all(inits, i + 1)
    }
}

/// Where the tracks that were collected come from.
pub open spec fn told(m: MergeView) -> Seq<Told> {
    Seq::new(m.parts.len(), |i: int| Told { raw: m.parts[i].raw, trak: m.parts[i].trak })
}

proof fn lemma_init_tells_all(m: MergeView, data: Seq<u8>)
    requires
        m.init(data) is Some,
    ensures
        told(m.init(data)->Some_0) == told(m) + tracks_of(data),
    decreases data.len(),
{
    let n = m.init(data)->Some_0;
    match atom_at(data) {
        Ok(Some((kind, size))) => {
            let raw = data.take(size as int);
            let here = if kind == AtomKind::Moov {
                tracks_of_moov(raw)
            } else {
                Seq::empty()
            };
            let next = m.atom(kind, raw)->Some_0;
            assert(told(next) =~= told(m) + here);
            if 0 < size <= data.len() {
                lemma_init_tells_all(next, data.skip(size as int));
                assert(told(m) + here + tracks_of(data.skip(size as int)) =~= told(m) + (here
                    + tracks_of(data.skip(size as int))));
            }
        },
        _ => {
            assert(told(m) + tracks_of(data) =~= told(m));
        },
    }
}

proof fn lemma_inits_tell_all(m: MergeView, inits: Seq<Seq<u8>>, i: nat)
    requires
        m.inits(inits, i) is Some,
    ensures
        told(m.inits(inits, i)->Some_0) == told(m) + tracks_of_all(inits, i),
    decreases inits.len() - i,
{
    if i < inits.len() {
        let next = m.init(inits[i as int])->Some_0;
        lemma_init_tells_all(m, inits[i as int]);
        lemma_inits_tell_all(next, inits, i + 1);
        assert(told(m) + tracks_of(inits[i as int]) + tracks_of_all(inits, i + 1) =~= told(m) + (
        tracks_of(inits[i as int]) + tracks_of_all(inits, i + 1)));
    } else {
        assert(told(m) + tracks_of_all(inits, i) =~= told(m));
    }
}

/// A merged init segment has every track of every init segment, in order and once, each with the
/// handler and the timescale that it had.
pub proof fn law_merged_has_all_tracks(inits: Seq<Seq<u8>>)
    requires
        merged_init(inits) is Ok,
    ensures
        ({
            let all = tracks_of_all(inits, 0);
            let moov = merged_says(inits);
            &&& moov.trak.len() == all.len()
            &&& forall|i: int|
                0 <= i < all.len() ==> {
                    let old = moov_at(all[i].raw)->Ok_0.trak[all[i].trak as int];
                    &&& (#[trigger] moov.trak[i]).handler == old.handler
                    &&& moov.trak[i].timescale == old.timescale
                }
        }),
{
    let none = MergeView { ftyp: None, parts: Seq::empty(), trex: Seq::empty() };
    lemma_inits_tell_all(none, inits, 0);
    let m = none.inits(inits, 0)->Some_0;
    let all = tracks_of_all(inits, 0);
    assert(told(none) + all =~= all);
    let moov = merged_says(inits);
    assert forall|i: int| 0 <= i < all.len() implies {
        let old = moov_at(all[i].raw)->Ok_0.trak[all[i].trak as int];
        &&& (#[trigger] moov.trak[i]).handler == old.handler
        &&& moov.trak[i].timescale == old.timescale
    } by {
        assert(told(m)[i] == all[i]);
        assert(m.parts[i].raw == all[i].raw && m.parts[i].trak == all[i].trak);
    }
}

/// An init segment is merged exactly if all can be read, one of them has a ftyp, and the result
/// can be written; it is then that ftyp and one moov, whose movie counts milliseconds.
pub proof fn law_when_inits_are_merged(inits: Seq<Seq<u8>>)
    ensures
        ({
            let none = MergeView { ftyp: None, parts: Seq::empty(), trex: Seq::empty() };
            let all = none.inits(inits, 0);
            let res = merged_init(inits);
            &&& all is None ==> res == Err::<Seq<u8>, _>(CmsfErrorView::NoMoov)
            &&& all is Some && all->Some_0.ftyp is None ==> res == Err::<Seq<u8>, _>(
                CmsfErrorView::NoMoov,
            )
            &&& all is Some && all->Some_0.ftyp is Some ==> {
                let m = all->Some_0;
                let defaults = if m.trex.len() == 0 {
                    None
                } else {
                    Some(m.trex)
                };
                let moov = merged_moov(m.parts, defaults, 1000);
                let ftyp = ftyp_again(m.ftyp->Some_0);
                &&& res is Ok <==> ftyp is Some && moov is Ok
                &&& res is Ok ==> res->Ok_0 == ftyp->Some_0 + moov->Ok_0
                &&& res is Err ==> res->Err_0 == CmsfErrorView::EncodeFailed
            }
        }),
{
}

/// The defaults of a moov are all kept, in order, and say what they said but for the identifier.
pub proof fn law_merged_keeps_defaults(m: MergeView, raw: Seq<u8>)
    requires
        moov_at(raw) is Ok,
    ensures
        ({
            let next = m.atom(AtomKind::Moov, raw)->Some_0;
            let had = match moov_at(raw)->Ok_0.trex {
                Some(t) => t,
                None => Seq::empty(),
            };
            &&& m.atom(AtomKind::Moov, raw) is Some
            &&& next.trex.len() == m.trex.len() + had.len()
            &&& forall|i: int| 0 <= i < m.trex.len() ==> #[trigger] next.trex[i] == m.trex[i]
            &&& forall|i: int|
                0 <= i < had.len() ==> {
                    let now = #[trigger] next.trex[m.trex.len() + i];
                    &&& now.default_sample_description_index
                        == had[i].default_sample_description_index
                    &&& now.default_sample_duration == had[i].default_sample_duration
                    &&& now.default_sample_size == had[i].default_sample_size
                    &&& now.default_sample_flags == had[i].default_sample_flags
                }
        }),
{
}

/// Bytes are used atom after atom until one is not complete: what is left is the end of what was
/// given, from it nothing more can be read, and to be given it again changes nothing.
pub proof fn law_what_is_left<S: Fmp4Sink>(
    p: ParserView,
    s: S::State,
    out: OutboxView,
    data: Seq<u8>,
)
    requires
        decode_all::<S>(p, s, out, data).3 is Ok,
    ensures
        ({
            let (q, t, o, res) = decode_all::<S>(p, s, out, data);
            let rest = res->Ok_0;
            &&& rest.len() <= data.len()
            &&& rest == data.skip(data.len() - rest.len())
            &&& atom_at(rest) == Ok::<Option<(AtomKind, nat)>, Seq<char>>(None)
            &&& decode_all::<S>(q, t, o, rest) == (q, t, o, res)
        }),
    decreases data.len(),
{
    law_atom_is_as_told(data);
    match atom_at(data) {
        Ok(Some((kind, size))) => {
            let (q, t, o, res) = atom_step::<S>(
                p,
                s,
                out,
                kind,
                data.take(size as int),
            );
            law_what_is_left::<S>(q, t, o, data.skip(size as int));
            let rest = decode_all::<S>(p, s, out, data).3->Ok_0;
            assert(rest =~= data.skip(data.len() - rest.len()));
        },
        _ => {
            assert(data.skip(0) =~= data);
        },
    }
}

/// The tracks that are active are among the tracks, and every one of them is.
pub proof fn law_active_tracks(tracks: Seq<EntryView>, t: EntryView)
    ensures
        active(tracks).contains(t) <==> tracks.contains(t) && t.active,
        active(tracks).len() <= tracks.len(),
{
    let keep = |t: EntryView| t.active;
    tracks.lemma_filter_len(keep);
    if active(tracks).contains(t) {
        tracks.lemma_filter_contains_rev(keep, t);
        let i = choose|i: int| 0 <= i < active(tracks).len() && active(tracks)[i] == t;
        tracks.lemma_filter_pred(keep, i);
    }
    if tracks.contains(t) && t.active {
        let i = choose|i: int| 0 <= i < tracks.len() && tracks[i] == t;
        tracks.lemma_filter_contains(keep, i);
    }
}

/// A caller starts groups only where it was to assign them, and only once there are tracks; then
/// all tracks get one.
pub proof fn law_when_groups_are_started(v: Fmp4View, out: OutboxView, sequence: u64)
    ensures
        !v.explicit_groups ==> v.start_group(out, sequence) == (
            v,
            out,
            Err::<(), _>(ImportErrorView::NotExplicit),
        ),
        v.explicit_groups && v.tracks.len() == 0 ==> v.start_group(out, sequence) == (
            v,
            out,
            Err::<(), _>(ImportErrorView::NoTracks),
        ),
        v.explicit_groups && v.tracks.len() > 0 ==> v.start_group(out, sequence) == v.start_groups(
            out,
            sequence,
            0,
        ),
{
}

} // verus!
