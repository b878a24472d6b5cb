//! Init segments: of a single track, and of several merged into one.

use crate::coding::{be_bytes, lemma_be_bytes_len};
use crate::mux::cmsf::{find_atom, timescale_of, CmsfError, CmsfErrorView};
use crate::mux::fragment::{lookup_trex, trex_of, ParseError, ParseErrorView};
use crate::mux::leaf::{be32, body_of};
use crate::mux::mp4::{
    atom_at, decode_moov, encode_ftyp, encode_merged_moov, encode_track_moov, ftyp_again,
    ftyp_bytes, has_brands, is_atom, is_moov, is_whole, merged_moov, merged_view, moov_at,
    next_atom, part_views, parts_exist, recode_ftyp, told_kind, track_moov, AtomKind, Moov,
    MoovView, Part, PartView, Trak, Trex,
};
use vstd::prelude::*;
use vstd::slice::slice_subrange;
use vstd::slice::slice_to_vec;

verus! {

/// The brand `isom`.
pub const ISOM: u32 = 0x6973_6f6d;

/// The brand `iso6`.
pub const ISO6: u32 = 0x6973_6f36;

/// The brand `mp41`.
pub const MP41: u32 = 0x6d70_3431;

/// The defaults of a track: those of the moov, and else the first sample description and nothing
/// more.
pub open spec fn track_trex(moov: MoovView, id: u32) -> Trex {
    match trex_of(moov, id) {
        Some(t) => t,
        None => Trex {
            track_id: id,
            default_sample_description_index: 1,
            default_sample_duration: 0,
            default_sample_size: 0,
            default_sample_flags: 0,
        },
    }
}

/// The init segment of one track of a moov.
pub open spec fn init_segment(raw: Seq<u8>, moov: MoovView, index: nat) -> Result<
    Seq<u8>,
    ParseErrorView,
> {
    let trex = track_trex(moov, moov.trak[index as int].track_id);
    match track_moov(raw, index, trex) {
        Err(e) => Err(ParseErrorView::Mp4(e)),
        Ok(b) => Ok(ftyp_bytes(ISOM, 0x200, seq![ISOM, ISO6, MP41]) + b),
    }
}

/// What an init segment says: its first moov.
pub open spec fn moov_of(init: Seq<u8>) -> Option<MoovView> {
    match find_atom(init, AtomKind::Moov) {
        Ok(Some(raw)) => match moov_at(raw) {
            Ok(moov) => Some(moov),
            Err(_) => None,
        },
        _ => None,
    }
}

/// Whether an init segment, if it can be read, says this.
pub open spec fn says(init: Seq<u8>, moov: MoovView) -> bool {
    moov_of(init) matches Some(m) ==> m == moov
}

/// A ftyp and a moov say what the moov does.
proof fn lemma_says(ftyp: Seq<u8>, b: Seq<u8>, moov: MoovView)
    requires
        is_atom(ftyp, AtomKind::Ftyp),
        is_moov(b, moov),
        ftyp.len() > 0,
    ensures
        says(ftyp + b, moov),
{
    let none = Seq::<u8>::empty();
    assert((ftyp + b).skip(ftyp.len() as int) =~= b);
    assert(b + none =~= b);
    assert(atom_at(ftyp + b) == Ok::<_, Seq<char>>(Some((AtomKind::Ftyp, ftyp.len()))));
    assert(find_atom(ftyp + b, AtomKind::Moov) == find_atom(b, AtomKind::Moov));
    if moov_at(b) is Ok {
        assert(atom_at(b + none) == Ok::<_, Seq<char>>(Some((AtomKind::Moov, b.len()))));
        assert(b.take(b.len() as int) =~= b);
    } else {
        assert(atom_at(b + none) is Err);
    }
}

/// The timescale of an init segment that is written for a track is that of the track.
pub proof fn law_timescale_is_kept(init: Seq<u8>, trak: Trak, trex: Trex)
    requires
        says(init, MoovView { trak: seq![trak], trex: Some(seq![trex]) }),
    ensures
        timescale_of(init) matches Ok(t) ==> t == trak.timescale,
{
}

/// Build a single-track init segment (ftyp+moov) for the given track.
pub(crate) fn build_init_segment(raw: &[u8], moov: &Moov, index: usize) -> (res: Result<
    Vec<u8>,
    ParseError,
>)
    requires
        moov_at(raw@) == Ok::<MoovView, Seq<char>>(moov@),
        index < moov@.trak.len(),
    ensures
        match init_segment(raw@, moov@, index as nat) {
            Ok(b) => res matches Ok(v) && v@ == b,
            Err(e) => res matches Err(f) && f@ == e,
        },
        res matches Ok(v) ==> says(
            v@,
            MoovView {
                trak: seq![moov@.trak[index as int]],
                trex: Some(seq![track_trex(moov@, moov@.trak[index as int].track_id)]),
            },
        ),
{
    let track_id: u32 = moov.trak[index].track_id;
    let trex = match lookup_trex(moov, track_id) {
        Some(trex) => trex,
        None => Trex {
            track_id,
            default_sample_description_index: 1,
            default_sample_duration: 0,
            default_sample_size: 0,
            default_sample_flags: 0,
        },
    };
    let brands: [u32; 3] = [ISOM, ISO6, MP41];
    assert(brands@ =~= seq![ISOM, ISO6, MP41]);
    let mut buf = match encode_ftyp(ISOM, 0x200, &brands) {
        Ok(buf) => buf,
        Err(e) => {
            return Err(ParseError::Mp4(e));
        },
    };
    let mut body = match encode_track_moov(raw, index, &trex) {
        Ok(body) => body,
        Err(e) => {
            return Err(ParseError::Mp4(e));
        },
    };
    proof {
        lemma_says(
            buf@,
            body@,
            MoovView { trak: seq![moov@.trak[index as int]], trex: Some(seq![trex]) },
        );
    }
    buf.append(&mut body);
    Ok(buf)
}

/// What was collected of the init segments that are merged.
pub struct MergeView {
    /// The first ftyp.
    pub ftyp: Option<Seq<u8>>,
    pub parts: Seq<PartView>,
    pub trex: Seq<Trex>,
}

/// The new identifier of the track that had an identifier, where the tracks up to `n` are counted
/// on from `base`: the last of those that had it.
pub open spec fn new_id(trak: Seq<Trak>, base: nat, id: u32, n: nat) -> u32
    decreases n,
{
    if n == 0 {
        id
    } else if trak[n - 1].track_id == id {
        ((base + n) % 0x1_0000_0000) as u32
    } else {
        new_id(trak, base, id, (n - 1) as nat)
    }
}

/// The tracks of a moov under identifiers that are counted on from `base`.
pub open spec fn new_parts(raw: Seq<u8>, trak: Seq<Trak>, base: nat) -> Seq<PartView> {
    Seq::new(
        trak.len(),
        |i: int|
            PartView {
                raw,
                trak: i as nat,
                track_id: ((base + i + 1) % 0x1_0000_0000) as u32,
            },
    )
}

/// The defaults of a moov, each with the identifier that its track now has.
pub open spec fn new_trex(moov: MoovView, base: nat) -> Seq<Trex> {
    match moov.trex {
        Some(trex) => trex.map_values(
            |t: Trex| Trex { track_id: new_id(moov.trak, base, t.track_id, moov.trak.len()), ..t },
        ),
        None => Seq::empty(),
    }
}

impl MergeView {
    /// What one atom adds. A moov that cannot be read ends it.
    pub open spec fn atom(self, kind: AtomKind, raw: Seq<u8>) -> Option<MergeView> {
        match kind {
            AtomKind::Ftyp => if self.ftyp is None {
                Some(MergeView { ftyp: Some(raw), ..self })
            } else {
                Some(self)
            },
            AtomKind::Moov => match moov_at(raw) {
                Err(_) => None,
                Ok(moov) => Some(
                    MergeView {
                        parts: self.parts + new_parts(raw, moov.trak, self.parts.len()),
                        trex: self.trex + new_trex(moov, self.parts.len()),
                        ..self
                    },
                ),
            },
            _ => Some(self),
        }
    }

    /// What one init segment adds: its atoms, as far as they are complete.
    pub open spec fn init(self, data: Seq<u8>) -> Option<MergeView>
        decreases data.len(),
    {
        match atom_at(data) {
            Err(_) => None,
            Ok(None) => Some(self),
            Ok(Some((kind, size))) => match self.atom(kind, data.take(size as int)) {
                None => None,
                Some(next) => if 0 < size <= data.len() {
                    next.init(data.skip(size as int))
                } else {
                    Some(next)
                },
            },
        }
    }

    /// What the init segments from number `i` on add.
    pub open spec fn inits(self, inits: Seq<Seq<u8>>, i: nat) -> Option<MergeView>
        decreases inits.len() - i,
    {
        if i >= inits.len() {
            Some(self)
        } else {
            match self.init(inits[i as int]) {
                None => None,
                Some(next) => next.inits(inits, i + 1),
            }
        }
    }
}

/// What a merged init segment says: all tracks under their new identifiers, and their defaults.
pub open spec fn merged_says(inits: Seq<Seq<u8>>) -> MoovView {
    let m = (MergeView { ftyp: None, parts: Seq::empty(), trex: Seq::empty() }).inits(
        inits,
        0,
    )->Some_0;
    merged_view(
        m.parts,
        if m.trex.len() == 0 {
            None
        } else {
            Some(m.trex)
        },
    )
}

/// The merged init segment.
pub open spec fn merged_init(inits: Seq<Seq<u8>>) -> Result<Seq<u8>, CmsfErrorView> {
    match (MergeView { ftyp: None, parts: Seq::empty(), trex: Seq::empty() }).inits(inits, 0) {
        None => Err(CmsfErrorView::NoMoov),
        Some(m) => match m.ftyp {
            None => Err(CmsfErrorView::NoMoov),
            Some(raw) => match (
                ftyp_again(raw),
                merged_moov(
                    m.parts,
                    if m.trex.len() == 0 {
                        None
                    } else {
                        Some(m.trex)
                    },
                    1000,
                ),
            ) {
                (Some(f), Ok(b)) => Ok(f + b),
                _ => Err(CmsfErrorView::EncodeFailed),
            },
        },
    }
}

/// What was collected of the init segments that are merged.
struct Merge {
    ftyp: Option<Vec<u8>>,
    parts: Vec<Part>,
    trex: Vec<Trex>,
}

impl View for Merge {
    type V = MergeView;

    closed spec fn view(&self) -> MergeView {
        MergeView {
            ftyp: match self.ftyp {
                Some(f) => Some(f@),
                None => None,
            },
            parts: part_views(self.parts@),
            trex: self.trex@,
        }
    }
}

/// The identifier of the track that is number `n`, counted from one, behind `base` others.
fn id_after(base: usize, n: usize) -> (id: u32)
    ensures
        id == (base + n) % 0x1_0000_0000,
{
    ((base as u128 + n as u128) % 0x1_0000_0000) as u32
}

/// Finds the new identifier of a track.
fn find_new_id(trak: &Vec<Trak>, base: usize, id: u32) -> (new: u32)
    ensures
        new == new_id(trak@, base as nat, id, trak@.len()),
{
    let mut n: usize = trak.len();
    while n > 0
        invariant
            n <= trak@.len(),
            new_id(trak@, base as nat, id, trak@.len()) == new_id(
                trak@,
                base as nat,
                id,
                n as nat,
            ),
        decreases n,
    {
        if trak[n - 1].track_id == id {
            return id_after(base, n);
        }
        n = n - 1;
    }
    id
}

impl Merge {
    /// Adds the tracks of a moov.
    fn moov(&mut self, raw: &[u8], moov: &Moov)
        requires
            moov_at(raw@) == Ok::<MoovView, Seq<char>>(moov@),
            parts_exist(old(self)@.parts),
        ensures
            parts_exist(final(self)@.parts),
            Some(final(self)@) == old(self)@.atom(AtomKind::Moov, raw@),
    {
        let base: usize = self.parts.len();
        let ghost before = self@;
        let mut i: usize = 0;
        while i < moov.trak.len()
            invariant
                i <= moov@.trak.len(),
                base == before.parts.len(),
                self@.ftyp == before.ftyp,
                self@.trex == before.trex,
                self@.parts == before.parts + new_parts(raw@, moov@.trak, base as nat).take(
                    i as int,
                ),
            decreases moov@.trak.len() - i,
        {
            let track_id: u32 = id_after(base, i + 1);
            let part = Part { raw: slice_to_vec(raw), trak: i, track_id };
            let ghost had = self@.parts;
            self.parts.push(part);
            assert(self@.parts =~= had.push(part@));
            assert(new_parts(raw@, moov@.trak, base as nat).take(i + 1) =~= new_parts(
                raw@,
                moov@.trak,
                base as nat,
            ).take(i as int).push(part@));
            assert(self@.parts =~= before.parts + new_parts(raw@, moov@.trak, base as nat).take(
                i + 1,
            ));
            i = i + 1;
        }
        assert(new_parts(raw@, moov@.trak, base as nat).take(i as int) =~= new_parts(
            raw@,
            moov@.trak,
            base as nat,
        ));
        assert(parts_exist(self@.parts)) by {
            assert forall|k: int| 0 <= k < self@.parts.len() implies moov_at(
                (#[trigger] self@.parts[k]).raw,
            ) is Ok && self@.parts[k].trak < moov_at(self@.parts[k].raw)->Ok_0.trak.len() by {
                if k < base {
                    assert(self@.parts[k] == before.parts[k]);
                }
            }
        }
        if let Some(trex) = &moov.trex {
            let mut j: usize = 0;
            let ghost parts = self@.parts;
            while j < trex.len()
                invariant
                    j <= trex@.len(),
                    base == before.parts.len(),
                        moov@.trex == Some(trex@),
                    self@.ftyp == before.ftyp,
                    self@.parts == parts,
                    self@.trex == before.trex + new_trex(moov@, base as nat).take(j as int),
                decreases trex@.len() - j,
            {
                let mut one: Trex = trex[j];
                one.track_id = find_new_id(&moov.trak, base, one.track_id);
                let ghost had = self@.trex;
                self.trex.push(one);
                assert(new_trex(moov@, base as nat).take(j + 1) =~= new_trex(
                    moov@,
                    base as nat,
                ).take(j as int).push(one));
                assert(self@.trex =~= before.trex + new_trex(moov@, base as nat).take(j + 1));
                j = j + 1;
            }
            assert(new_trex(moov@, base as nat).take(j as int) =~= new_trex(moov@, base as nat));
        } else {
            assert(before.trex + new_trex(moov@, base as nat) =~= before.trex);
        }
    }

    /// Adds an init segment: whether it could be read.
    fn init(&mut self, data: &[u8]) -> (ok: bool)
        requires
            parts_exist(old(self)@.parts),
            old(self)@.ftyp matches Some(raw) ==> is_whole(raw),
        ensures
            ok ==> {
                &&& parts_exist(final(self)@.parts)
                &&& final(self)@.ftyp matches Some(raw) ==> is_whole(raw)
                &&& Some(final(self)@) == old(self)@.init(data@)
            },
            !ok ==> old(self)@.init(data@) is None,
    {
        let mut position: usize = 0;
        assert(data@.skip(0) =~= data@);
        loop
            invariant
                position <= data@.len(),
                parts_exist(self@.parts),
                self@.ftyp matches Some(raw) ==> is_whole(raw),
                old(self)@.init(data@) == self@.init(data@.skip(position as int)),
            decreases data@.len() - position,
        {
            let rest = slice_subrange(data, position, data.len());
            assert(rest@ =~= data@.skip(position as int));
            let (kind, size): (AtomKind, usize) = match next_atom(rest) {
                Ok(Some(atom)) => atom,
                Ok(None) => {
                    return true;
                },
                Err(_) => {
                    return false;
                },
            };
            let raw = slice_subrange(rest, 0, size);
            assert(raw@ =~= rest@.take(size as int));
            match kind {
                AtomKind::Ftyp => {
                    if self.ftyp.is_none() {
                        self.ftyp = Some(slice_to_vec(raw));
                    }
                },
                AtomKind::Moov => {
                    let moov = match decode_moov(raw) {
                        Ok(moov) => moov,
                        Err(_) => {
                            return false;
                        },
                    };
                    self.moov(raw, &moov);
                },
                _ => {},
            }
            assert(rest@.skip(size as int) =~= data@.skip(position + size));
            position = position + size;
        }
    }
}

/// What each of the segments is.
pub open spec fn segments(inits: Seq<Vec<u8>>) -> Seq<Seq<u8>> {
    inits.map_values(|v: Vec<u8>| v@)
}

/// Build a merged ftyp + multi-track moov init segment from per-track init segments.
///
/// Each input should be a complete single-track init segment (ftyp + moov) as stored
/// in the MSF catalog's `init_data` field. The output is a single multi-track init
/// segment suitable for fMP4 playback. Tracks are renumbered sequentially, since each segment may
/// start at the same identifier, and the defaults stay paired with their tracks. The movie's own
/// timescale is a thousand.
pub fn build_merged_init(inits: &Vec<Vec<u8>>) -> (res: Result<Vec<u8>, CmsfError>)
    ensures
        match merged_init(segments(inits@)) {
            Ok(b) => res matches Ok(v) && v@ == b,
            Err(e) => res matches Err(f) && f@ == e,
        },
        res matches Ok(v) ==> says(v@, merged_says(segments(inits@))),
{
    let mut m = Merge { ftyp: None, parts: Vec::new(), trex: Vec::new() };
    let ghost first = MergeView { ftyp: None, parts: Seq::empty(), trex: Seq::empty() };
    assert(m@.parts =~= first.parts);
    assert(m@ == first);
    let mut i: usize = 0;
    while i < inits.len()
        invariant
            i <= inits@.len(),
            parts_exist(m@.parts),
            m@.ftyp matches Some(raw) ==> is_whole(raw),
            first.inits(segments(inits@), 0) == m@.inits(segments(inits@), i as nat),
            first == (MergeView { ftyp: None, parts: Seq::empty(), trex: Seq::empty() }),
        decreases inits@.len() - i,
    {
        assert(segments(inits@)[i as int] == inits@[i as int]@);
        if !m.init(inits[i].as_slice()) {
            return Err(CmsfError::NoMoov);
        }
        i = i + 1;
    }
    let raw = match m.ftyp {
        Some(raw) => raw,
        None => {
            return Err(CmsfError::NoMoov);
        },
    };
    let mut buf = match recode_ftyp(raw.as_slice()) {
        Ok(buf) => buf,
        Err(_) => {
            return Err(CmsfError::EncodeFailed);
        },
    };
    let trex = if m.trex.len() == 0 {
        None
    } else {
        Some(m.trex)
    };
    match encode_merged_moov(m.parts.as_slice(), trex, 1000) {
        Ok(mut moov) => {
            proof {
                lemma_says(buf@, moov@, merged_says(segments(inits@)));
            }
            buf.append(&mut moov);
            Ok(buf)
        },
        Err(_) => Err(CmsfError::EncodeFailed),
    }
}

/// The tracks of a merged init segment are numbered one after another, whatever they had.
pub open spec fn numbered(m: MergeView) -> bool {
    forall|i: int|
        0 <= i < m.parts.len() ==> (#[trigger] m.parts[i]).track_id == (i + 1) % 0x1_0000_0000
}

/// However many init segments are merged, the tracks are numbered one after another.
pub proof fn law_merged_ids_are_sequential(m: MergeView, data: Seq<u8>)
    requires
        numbered(m),
    ensures
        m.init(data) matches Some(n) ==> numbered(n),
    decreases data.len(),
{
    match atom_at(data) {
        Ok(Some((kind, size))) => match m.atom(kind, data.take(size as int)) {
            Some(next) => {
                assert(numbered(next)) by {
                    assert forall|i: int| 0 <= i < next.parts.len() implies (
                    #[trigger] next.parts[i]).track_id == (i + 1) % 0x1_0000_0000 by {
                        if i < m.parts.len() {
                            assert(next.parts[i] == m.parts[i]);
                        }
                    }
                }
                if 0 < size <= data.len() {
                    law_merged_ids_are_sequential(next, data.skip(size as int));
                }
            },
            None => {},
        },
        _ => {},
    }
}

/// The defaults of a track stay with it: where the identifiers of a moov are all different, the
/// defaults that had the identifier of one of its tracks get the new identifier of that track.
pub proof fn law_defaults_stay_paired(raw: Seq<u8>, moov: MoovView, base: nat, i: int, j: int)
    requires
        0 <= i < moov.trak.len(),
        moov.trex matches Some(trex) && 0 <= j < trex.len() && trex[j].track_id
            == moov.trak[i].track_id,
        forall|a: int, b: int|
            0 <= a < b < moov.trak.len() ==> (#[trigger] moov.trak[a]).track_id != (
            #[trigger] moov.trak[b]).track_id,
    ensures
        new_trex(moov, base)[j].track_id == new_parts(raw, moov.trak, base)[i].track_id,
{
    lemma_new_id(moov.trak, base, i, moov.trak.len());
}

proof fn lemma_new_id(trak: Seq<Trak>, base: nat, i: int, n: nat)
    requires
        0 <= i < n <= trak.len(),
        forall|a: int, b: int|
            0 <= a < b < trak.len() ==> (#[trigger] trak[a]).track_id != (
            #[trigger] trak[b]).track_id,
    ensures
        new_id(trak, base, trak[i].track_id, n) == (base + i + 1) % 0x1_0000_0000,
    decreases n,
{
    if i < n - 1 {
        assert(trak[i].track_id != trak[n - 1].track_id);
        lemma_new_id(trak, base, i, (n - 1) as nat);
    }
}

/// A ftyp whose length is told in four bytes is written as it was read, byte for byte.
pub proof fn law_ftyp_is_unchanged(raw: Seq<u8>)
    requires
        raw.len() >= 8,
        be32(raw, 0) == raw.len(),
        told_kind(raw) == Some(AtomKind::Ftyp),
        has_brands(body_of(raw)),
    ensures
        ftyp_again(raw) == Some(raw),
{
    let n = raw.len();
    let body = body_of(raw);
    assert(n == be32(raw, 0));
    assert(be32(raw, 4) == 0x6674_7970);
    assert(raw[4] == 0x66 && raw[5] == 0x74 && raw[6] == 0x79 && raw[7] == 0x70);
    reveal_with_fuel(be_bytes, 5);
    let told = be_bytes(n, 4);
    assert(told =~= raw.take(4));
    assert(raw =~= told + seq![0x66u8, 0x74u8, 0x79u8, 0x70u8] + body);
}

/// The first ftyp of an init segment, if it can be read.
pub open spec fn first_ftyp(data: Seq<u8>) -> Option<Seq<u8>> {
    match find_atom(data, AtomKind::Ftyp) {
        Ok(found) => found,
        Err(_) => None,
    }
}

/// The first ftyp that is met stays.
proof fn lemma_ftyp_stays(m: MergeView, data: Seq<u8>)
    ensures
        m.init(data) matches Some(n) ==> n.ftyp == match m.ftyp {
            Some(raw) => Some(raw),
            None => first_ftyp(data),
        },
    decreases data.len(),
{
    if let Ok(Some((kind, size))) = atom_at(data) {
        if let Some(next) = m.atom(kind, data.take(size as int)) {
            if 0 < size <= data.len() {
                lemma_ftyp_stays(next, data.skip(size as int));
            }
        }
    }
}

proof fn lemma_first_ftyp_stays(m: MergeView, inits: Seq<Seq<u8>>, i: nat)
    requires
        m.ftyp is Some,
    ensures
        m.inits(inits, i) matches Some(n) ==> n.ftyp == m.ftyp,
    decreases inits.len() - i,
{
    if i < inits.len() {
        lemma_ftyp_stays(m, inits[i as int]);
        if let Some(next) = m.init(inits[i as int]) {
            lemma_first_ftyp_stays(next, inits, i + 1);
        }
    }
}

/// A merged init segment starts with the ftyp of the first init segment, if that has one: with its
/// brands, as they are.
pub proof fn law_merged_keeps_first_ftyp(inits: Seq<Seq<u8>>)
    requires
        inits.len() > 0,
        first_ftyp(inits[0]) is Some,
    ensures
        merged_init(inits) matches Ok(b) ==> {
            &&& ftyp_again(first_ftyp(inits[0])->Some_0) matches Some(f)
            &&& f.len() <= b.len()
            &&& b.take(f.len() as int) == f
            &&& f.skip(8) == body_of(first_ftyp(inits[0])->Some_0)
        },
{
    let none = MergeView { ftyp: None, parts: Seq::empty(), trex: Seq::empty() };
    lemma_ftyp_stays(none, inits[0]);
    if let Some(next) = none.init(inits[0]) {
        lemma_first_ftyp_stays(next, inits, 1);
        assert(none.inits(inits, 0) == next.inits(inits, 1));
    }
    if let Ok(b) = merged_init(inits) {
        let raw = first_ftyp(inits[0])->Some_0;
        let body = body_of(raw);
        let f = ftyp_again(raw)->Some_0;
        lemma_be_bytes_len((body.len() + 8) as nat, 4);
        assert(f.skip(8) =~= body);
        assert(b.take(f.len() as int) =~= f);
    }
}

} // verus!
