//! What the rules of this crate read of MP4 atoms, and the calls that read and write them.
//!
//! Everything here rests on the `mp4_atom` crate. What an atom holds is given as plain values;
//! what is too long to say is given a name, as a function of the bytes.

use crate::coding::be_bytes;
use crate::mux::atoms::{check_first, check_inside, first_is_sound, inside_is_sound};
use crate::mux::leaf::{bad_length, body_of, head, law_atom_stands_alone};
use mp4_atom::{Decode, DecodeMaybe, Encode, Moov as MoovAtom, Mvex, Trex as TrexAtom};
use vstd::prelude::*;

verus! {

/// The kinds of atoms that are told apart.
#[derive(Debug, Clone, Copy, PartialEq, Eq, Structural)]
pub enum AtomKind {
    Ftyp,
    Styp,
    Moov,
    Moof,
    Mdat,
    Other,
}

/// One sample of a track run, as far as the run says it.
#[derive(Debug, Clone, Copy, PartialEq, Eq, Structural)]
pub struct TrunEntry {
    pub duration: Option<u32>,
    pub size: Option<u32>,
    pub flags: Option<u32>,
    pub cts: Option<i32>,
}

/// A run of samples.
#[derive(Debug, Clone)]
pub struct Trun {
    pub data_offset: Option<i32>,
    pub entries: Vec<TrunEntry>,
}

/// What a run of samples says.
pub struct TrunView {
    pub data_offset: Option<i32>,
    pub entries: Seq<TrunEntry>,
}

impl View for Trun {
    type V = TrunView;

    open spec fn view(&self) -> TrunView {
        TrunView { data_offset: self.data_offset, entries: self.entries@ }
    }
}

/// A fragment of one track.
#[derive(Debug, Clone)]
pub struct Traf {
    pub track_id: u32,
    pub base_data_offset: Option<u64>,
    pub default_sample_duration: Option<u32>,
    pub default_sample_size: Option<u32>,
    pub default_sample_flags: Option<u32>,
    pub base_media_decode_time: Option<u64>,
    pub trun: Vec<Trun>,
}

/// What a fragment of one track says.
pub struct TrafView {
    pub track_id: u32,
    pub base_data_offset: Option<u64>,
    pub default_sample_duration: Option<u32>,
    pub default_sample_size: Option<u32>,
    pub default_sample_flags: Option<u32>,
    pub base_media_decode_time: Option<u64>,
    pub trun: Seq<TrunView>,
}

impl View for Traf {
    type V = TrafView;

    open spec fn view(&self) -> TrafView {
        TrafView {
            track_id: self.track_id,
            base_data_offset: self.base_data_offset,
            default_sample_duration: self.default_sample_duration,
            default_sample_size: self.default_sample_size,
            default_sample_flags: self.default_sample_flags,
            base_media_decode_time: self.base_media_decode_time,
            trun: trun_views(self.trun@),
        }
    }
}

/// What each of the runs says.
pub open spec fn trun_views(trun: Seq<Trun>) -> Seq<TrunView> {
    trun.map_values(|t: Trun| t@)
}

/// What each of the fragments says.
pub open spec fn traf_views(traf: Seq<Traf>) -> Seq<TrafView> {
    traf.map_values(|t: Traf| t@)
}

/// The defaults of a track's samples.
#[derive(Debug, Clone, Copy, PartialEq, Eq, Structural)]
pub struct Trex {
    pub track_id: u32,
    pub default_sample_description_index: u32,
    pub default_sample_duration: u32,
    pub default_sample_size: u32,
    pub default_sample_flags: u32,
}

/// A track: its identifier, the four characters of its handler as a number, and its timescale.
#[derive(Debug, Clone, Copy, PartialEq, Eq, Structural)]
pub struct Trak {
    pub track_id: u32,
    pub handler: u32,
    pub timescale: u32,
}

/// What a `moov` atom says of its tracks, and, where it has a `mvex`, of their defaults.
#[derive(Debug, Clone)]
pub struct Moov {
    pub trak: Vec<Trak>,
    pub trex: Option<Vec<Trex>>,
}

/// What a `moov` atom says.
pub struct MoovView {
    pub trak: Seq<Trak>,
    pub trex: Option<Seq<Trex>>,
}

impl View for Moov {
    type V = MoovView;

    open spec fn view(&self) -> MoovView {
        MoovView {
            trak: self.trak@,
            trex: match self.trex {
                Some(t) => Some(t@),
                None => None,
            },
        }
    }
}

/// What is said of atoms that the reader cannot take.
pub open spec fn unsound_message() -> Seq<char> {
    "malformed atom"@
}

/// What is said of atoms that the reader cannot take.
fn unsound() -> (message: String)
    ensures
        message@ == unsound_message(),
{
    "malformed atom".to_owned()
}

/// The kind of atom that four characters stand for.
pub open spec fn kind_of(kind: u32) -> AtomKind {
    if kind == 0x6674_7970 {
        AtomKind::Ftyp
    } else if kind == 0x7374_7970 {
        AtomKind::Styp
    } else if kind == 0x6d6f_6f76 {
        AtomKind::Moov
    } else if kind == 0x6d6f_6f66 {
        AtomKind::Moof
    } else if kind == 0x6d64_6174 {
        AtomKind::Mdat
    } else {
        AtomKind::Other
    }
}

/// The kind that the header of the atom at the start of the bytes tells.
pub open spec fn told_kind(data: Seq<u8>) -> Option<AtomKind> {
    match head(data) {
        Some((kind, _, _)) => Some(kind_of(kind)),
        None => None,
    }
}

/// Why the atom that the bytes are is refused, if it is.
pub uninterp spec fn atom_fault(raw: Seq<u8>) -> Option<Seq<char>>;

/// The bytes of the atom at the start of the bytes, if it is there whole.
pub open spec fn first_atom(data: Seq<u8>) -> Seq<u8> {
    match head(data) {
        Some((_, _, end)) => data.take(end as int),
        None => Seq::empty(),
    }
}

/// The atom at the start of the bytes, as its header tells it, unless it has a fault.
pub open spec fn told_atom(data: Seq<u8>, fault: Option<Seq<char>>) -> Result<
    Option<(AtomKind, nat)>,
    Seq<char>,
> {
    match head(data) {
        None => if bad_length(data) {
            Err("invalid size"@)
        } else {
            Ok(None)
        },
        Some((kind, _, end)) => match fault {
            Some(e) => Err(e),
            None => Ok(Some((kind_of(kind), end))),
        },
    }
}

/// The atom at the start of the bytes: its kind and the number of bytes that it takes. None if
/// the bytes end before it does; else why it cannot be read.
#[verifier::opaque]
pub open spec fn atom_at(data: Seq<u8>) -> Result<Option<(AtomKind, nat)>, Seq<char>> {
    if first_is_sound(data) {
        told_atom(data, atom_fault(first_atom(data)))
    } else {
        Err(unsound_message())
    }
}

/// What was read of an atom.
pub open spec fn as_read(res: Result<Option<(AtomKind, usize)>, String>) -> Result<
    Option<(AtomKind, nat)>,
    Seq<char>,
> {
    match res {
        Ok(Some((kind, size))) => Ok(Some((kind, size as nat))),
        Ok(None) => Ok(None),
        Err(e) => Err(e@),
    }
}

/// Whether a body holds a major brand, a minor version and whole brands.
pub open spec fn has_brands(body: Seq<u8>) -> bool {
    body.len() >= 8 && body.len() % 4 == 0
}

/// Whether the bytes are one atom: no fewer, and no more.
pub open spec fn is_whole(raw: Seq<u8>) -> bool {
    head(raw) matches Some((_, _, end)) && end == raw.len()
}

/// Reads the atom at the start of the bytes.
pub(crate) fn next_atom(data: &[u8]) -> (res: Result<Option<(AtomKind, usize)>, String>)
    ensures
        match res {
            Ok(Some((kind, size))) => {
                &&& atom_at(data@) == Ok::<_, Seq<char>>(Some((kind, size as nat)))
                &&& 8 <= size <= data@.len()
                &&& is_whole(data@.take(size as int))
            },
            Ok(None) => atom_at(data@) == Ok::<Option<(AtomKind, nat)>, Seq<char>>(None),
            Err(e) => atom_at(data@) == Err::<Option<(AtomKind, nat)>, _>(e@),
        },
{
    reveal(atom_at);
    if check_first(data) {
        proof {
            if head(data@) is Some {
                law_atom_stands_alone(data@);
            }
        }
        read_atom(data)
    } else {
        Err(unsound())
    }
}

/// `mp4_atom::Any::decode_maybe`: the atom at the start of the bytes, or none if they end before
/// it does. A length that is less than the header is refused. The atom takes the bytes that its
/// header tells, and is of the kind that its header tells. A `mdat` is always read; a `ftyp` is
/// where it has a major brand, a minor version and whole brands. Why another is refused is left to
/// the name, which depends on the bytes of the atom alone. Atoms that are not sound are left out:
/// on those it panics, or exhausts the memory or the stack.
#[verifier::external_body]
fn read_atom(data: &[u8]) -> (res: Result<Option<(AtomKind, usize)>, String>)
    requires
        first_is_sound(data@),
    ensures
        as_read(res) == told_atom(data@, atom_fault(first_atom(data@))),
        told_kind(data@) == Some(AtomKind::Mdat) ==> res is Ok,
        told_kind(data@) == Some(AtomKind::Ftyp) ==> (res is Ok) == has_brands(body_of(data@)),
{
    let mut cursor = std::io::Cursor::new(data);
    let kind = match mp4_atom::Any::decode_maybe(&mut cursor).map_err(|e| e.to_string())? {
        None => return Ok(None),
        Some(mp4_atom::Any::Ftyp(_)) => AtomKind::Ftyp,
        Some(mp4_atom::Any::Styp(_)) => AtomKind::Styp,
        Some(mp4_atom::Any::Moov(_)) => AtomKind::Moov,
        Some(mp4_atom::Any::Moof(_)) => AtomKind::Moof,
        Some(mp4_atom::Any::Mdat(_)) => AtomKind::Mdat,
        Some(_) => AtomKind::Other,
    };
    Ok(Some((kind, cursor.position() as usize)))
}

/// Bytes that end before the header of an atom does are no atom, and are not refused.
pub proof fn law_no_atom_without_header(data: Seq<u8>)
    requires
        data.len() < 8,
    ensures
        atom_at(data) == Ok::<Option<(AtomKind, nat)>, Seq<char>>(None),
{
    reveal(atom_at);
    reveal(first_is_sound);
}

/// An atom takes the bytes that its header tells, at least the header and at most all bytes, and
/// is of the kind that its header tells.
pub proof fn law_atom_is_as_told(data: Seq<u8>)
    ensures
        atom_at(data) matches Ok(Some((kind, size))) ==> {
            &&& head(data) matches Some((k, _, end))
            &&& kind == kind_of(k)
            &&& size == end
            &&& 8 <= size <= data.len()
            &&& is_whole(data.take(size as int))
            &&& body_of(data.take(size as int)) == body_of(data)
        },
{
    reveal(atom_at);
    if head(data) is Some {
        law_atom_stands_alone(data);
    }
}

/// Whether all samples of a run say a value, or none does.
pub open spec fn all_or_none<T>(
    entries: Seq<TrunEntry>,
    value: spec_fn(TrunEntry) -> Option<T>,
) -> bool {
    forall|i: int, j: int|
        0 <= i < entries.len() && 0 <= j < entries.len() ==> (value(
            #[trigger] entries[i],
        ) is Some) == (value(#[trigger] entries[j]) is Some)
}

/// Whether the samples of a run say the same values but for their flags, and can be counted in 32
/// bits.
pub open spec fn is_regular(run: TrunView) -> bool {
    &&& run.entries.len() <= u32::MAX
    &&& all_or_none(run.entries, |e: TrunEntry| e.duration)
    &&& all_or_none(run.entries, |e: TrunEntry| e.size)
    &&& all_or_none(run.entries, |e: TrunEntry| e.cts)
}

/// Whether the samples of each run of a track fragment say the same values but for their flags.
pub open spec fn regular(traf: TrafView) -> bool {
    forall|i: int| 0 <= i < traf.trun.len() ==> is_regular(#[trigger] traf.trun[i])
}

/// Whether the samples of each run say the same values.
pub open spec fn uniform(trun: Seq<TrunView>) -> bool {
    forall|i: int|
        0 <= i < trun.len() ==> is_regular(#[trigger] trun[i]) && all_or_none(
            trun[i].entries,
            |e: TrunEntry| e.flags,
        )
}

/// What is read of a `moof` atom that can be read: its track fragments, or why it is refused.
pub uninterp spec fn moof_read(raw: Seq<u8>) -> Result<Seq<TrafView>, Seq<char>>;

/// The track fragments of the `moof` atom that the bytes are, or why they are none.
pub open spec fn moof_at(raw: Seq<u8>) -> Result<Seq<TrafView>, Seq<char>> {
    if inside_is_sound(raw) {
        moof_read(raw)
    } else {
        Err(unsound_message())
    }
}

/// Reads the track fragments of a `moof` atom.
pub(crate) fn decode_moof(raw: &[u8]) -> (res: Result<Vec<Traf>, String>)
    ensures
        match res {
            Ok(traf) => moof_at(raw@) == Ok::<_, Seq<char>>(traf_views(traf@)) && (forall|i: int|
                0 <= i < traf@.len() ==> regular((#[trigger] traf@[i])@)),
            Err(e) => moof_at(raw@) == Err::<Seq<TrafView>, _>(e@),
        },
{
    if check_inside(raw) {
        read_moof(raw)
    } else {
        Err(unsound())
    }
}

/// `mp4_atom::Moof::decode`: the track fragments of a `moof` atom, each field taken as it is. The
/// header of a run says which values its samples have, so they all have the same ones; only the
/// first may have flags of its own. They are counted in 32 bits. As with any atom, those that are
/// not sound are left out.
#[verifier::external_body]
fn read_moof(raw: &[u8]) -> (res: Result<Vec<Traf>, String>)
    requires
        inside_is_sound(raw@),
    ensures
        match res {
            Ok(traf) => moof_read(raw@) == Ok::<_, Seq<char>>(traf_views(traf@)) && (forall|i: int|
                0 <= i < traf@.len() ==> regular((#[trigger] traf@[i])@)),
            Err(e) => moof_read(raw@) == Err::<Seq<TrafView>, _>(e@),
        },
{
    let moof = mp4_atom::Moof::decode(&mut &*raw).map_err(|e| e.to_string())?;
    let entry = |mp4_atom::TrunEntry { duration, size, flags, cts }|
        TrunEntry { duration, size, flags, cts };
    let run = |r: mp4_atom::Trun|
        Trun { data_offset: r.data_offset, entries: r.entries.into_iter().map(entry).collect() };
    Ok(moof.traf.into_iter().map(|t| Traf {
        track_id: t.tfhd.track_id,
        base_data_offset: t.tfhd.base_data_offset,
        default_sample_duration: t.tfhd.default_sample_duration,
        default_sample_size: t.tfhd.default_sample_size,
        default_sample_flags: t.tfhd.default_sample_flags,
        base_media_decode_time: t.tfdt.map(|d| d.base_media_decode_time),
        trun: t.trun.into_iter().map(run).collect(),
    }).collect())
}

/// What is read of a `moov` atom that can be read, or why it is refused.
pub uninterp spec fn moov_read(raw: Seq<u8>) -> Result<MoovView, Seq<char>>;

/// What the `moov` atom that the bytes are says of its tracks, or why they are none.
pub open spec fn moov_at(raw: Seq<u8>) -> Result<MoovView, Seq<char>> {
    if inside_is_sound(raw) {
        moov_read(raw)
    } else {
        Err(unsound_message())
    }
}

/// Reads what a `moov` atom says of its tracks.
pub(crate) fn decode_moov(raw: &[u8]) -> (res: Result<Moov, String>)
    ensures
        match res {
            Ok(moov) => moov_at(raw@) == Ok::<_, Seq<char>>(moov@),
            Err(e) => moov_at(raw@) == Err::<MoovView, _>(e@),
        },
{
    if check_inside(raw) {
        read_moov(raw)
    } else {
        Err(unsound())
    }
}

/// `mp4_atom::Moov::decode`: the tracks of a `moov` atom and their defaults, each field taken as
/// it is. As with any atom, those that are not sound are left out.
#[verifier::external_body]
fn read_moov(raw: &[u8]) -> (res: Result<Moov, String>)
    requires
        inside_is_sound(raw@),
    ensures
        match res {
            Ok(moov) => moov_read(raw@) == Ok::<_, Seq<char>>(moov@),
            Err(e) => moov_read(raw@) == Err::<MoovView, _>(e@),
        },
{
    let moov = mp4_atom::Moov::decode(&mut &*raw).map_err(|e| e.to_string())?;
    let trex = |t: mp4_atom::Trex| Trex {
        track_id: t.track_id,
        default_sample_description_index: t.default_sample_description_index,
        default_sample_duration: t.default_sample_duration,
        default_sample_size: t.default_sample_size,
        default_sample_flags: t.default_sample_flags,
    };
    let trak = |t: mp4_atom::Trak| Trak {
        track_id: t.tkhd.track_id,
        handler: t.mdia.hdlr.handler.into(),
        timescale: t.mdia.mdhd.timescale,
    };
    Ok(Moov { trak: moov.trak.into_iter().map(trak).collect(), trex: moov.mvex.map(|m| m.trex.into_iter().map(trex).collect()) })
}

/// `mp4_atom::Mdat::decode`: the payload of a `mdat` atom is its body, unchanged. An atom that is
/// not there whole is left out.
#[verifier::external_body]
pub(crate) fn decode_mdat(raw: &[u8]) -> (res: Result<Vec<u8>, String>)
    requires
        head(raw@) is Some,
    ensures
        res is Ok,
        res->Ok_0@ == body_of(raw@),
{
    let mdat = mp4_atom::Mdat::decode(&mut &*raw).map_err(|e| e.to_string())?;
    Ok(mdat.data)
}

/// The track fragment without the values of its data offsets; where one is given stays.
pub open spec fn without_offsets(traf: TrafView) -> TrafView {
    TrafView {
        trun: traf.trun.map_values(
            |r: TrunView|
                TrunView {
                    data_offset: match r.data_offset {
                        Some(_) => Some(0i32),
                        None => None,
                    },
                    entries: r.entries,
                },
        ),
        ..traf
    }
}

/// The `moof` atom that holds one track fragment of another one, with the offset, runs and
/// samples that are given in place of its own; or why it cannot be written.
pub uninterp spec fn single_moof(raw: Seq<u8>, index: nat, traf: TrafView) -> Result<
    Seq<u8>,
    Seq<char>,
>;

/// Whether the bytes are a `moof` atom, whatever follows them, unless it cannot be read; and if
/// it can, it holds the one track fragment, provided that the samples of each run say the same
/// values.
pub open spec fn reads_back(raw: Seq<u8>, index: nat, traf: TrafView, b: Seq<u8>) -> bool {
    &&& forall|rest: Seq<u8>|
        match moof_at(b) {
            Ok(_) => #[trigger] atom_at(b + rest) == Ok::<_, Seq<char>>(
                Some((AtomKind::Moof, b.len())),
            ),
            Err(_) => atom_at(b + rest) is Err,
        }
    &&& moof_at(b) matches Ok(back) ==> uniform(traf.trun) ==> back == seq![
        TrafView {
            base_data_offset: traf.base_data_offset,
            trun: traf.trun,
            ..moof_at(raw)->Ok_0[index as int]
        },
    ]
}

/// `mp4_atom::Moof::encode`: a `moof` atom with the header of the one that `raw` is and its track
/// fragment number `index`, whose base offset and runs are replaced by those of `traf`. A data
/// offset takes four bytes whatever its value, so the values do not change the length. It is read
/// back as it was written, if it can be read and the samples of each run say the same values:
/// where only some say a value, none is written.
#[verifier::external_body]
pub(crate) fn encode_single_moof(raw: &[u8], index: usize, traf: &Traf) -> (res: Result<
    Vec<u8>,
    String,
>)
    requires
        moof_at(raw@) is Ok,
        index < moof_at(raw@)->Ok_0.len(),
    ensures
        match res {
            Ok(b) => {
                &&& single_moof(raw@, index as nat, traf@) == Ok::<_, Seq<char>>(b@)
                &&& single_moof(raw@, index as nat, without_offsets(traf@)) matches Ok(z)
                &&& z.len() == b@.len()
                &&& reads_back(raw@, index as nat, traf@, b@)
            },
            Err(e) => single_moof(raw@, index as nat, traf@) == Err::<Seq<u8>, _>(e@),
        },
{
    let mut moof = mp4_atom::Moof::decode(&mut &*raw).map_err(|e| e.to_string())?;
    let mut one = moof.traf.swap_remove(index);
    let entry = |&TrunEntry { duration, size, flags, cts }: &TrunEntry|
        mp4_atom::TrunEntry { duration, size, flags, cts };
    one.tfhd.base_data_offset = traf.base_data_offset;
    one.trun = traf.trun.iter().map(|r| mp4_atom::Trun {
        data_offset: r.data_offset,
        entries: r.entries.iter().map(entry).collect(),
    }).collect();
    let mut buf = Vec::new();
    let single = mp4_atom::Moof { mfhd: moof.mfhd, traf: vec![one] };
    single.encode(&mut buf).map_err(|e| e.to_string())?;
    Ok(buf)
}

/// `mp4_atom::Mdat::encode`: an `mdat` atom is a header of eight bytes, its length and its kind,
/// and the payload. It is refused if its length needs more than 32 bits.
#[verifier::external_body]
pub(crate) fn encode_mdat(data: Vec<u8>) -> (res: Result<Vec<u8>, String>)
    ensures
        res is Ok <==> data@.len() + 8 <= u32::MAX,
        res matches Ok(b) ==> b@.len() == data@.len() + 8 && b@.skip(8) == data@
            && b@.take(8) == crate::coding::be_bytes((data@.len() + 8) as nat, 4) + seq![
            0x6du8,
            0x64u8,
            0x61u8,
            0x74u8,
        ],
        res matches Err(e) ==> e@ == "atom too large"@,
{
    let mut buf = Vec::new();
    mp4_atom::Mdat { data }.encode(&mut buf).map_err(|e| e.to_string())?;
    Ok(buf)
}

/// Four characters each, one after another.
pub open spec fn brand_bytes(brands: Seq<u32>) -> Seq<u8>
    decreases brands.len(),
{
    if brands.len() == 0 {
        Seq::empty()
    } else {
        brand_bytes(brands.drop_last()) + be_bytes(brands.last() as nat, 4)
    }
}

/// A `ftyp` atom: its length and kind, the major brand, the minor version, and the brands that it
/// is compatible with.
pub open spec fn ftyp_bytes(major: u32, minor: u32, brands: Seq<u32>) -> Seq<u8> {
    be_bytes((16 + 4 * brands.len()) as nat, 4) + seq![0x66u8, 0x74u8, 0x79u8, 0x70u8] + be_bytes(
        major as nat,
        4,
    ) + be_bytes(minor as nat, 4) + brand_bytes(brands)
}

/// Whether the bytes are an atom of a kind, whatever follows them.
pub open spec fn is_atom(b: Seq<u8>, kind: AtomKind) -> bool {
    forall|rest: Seq<u8>| #[trigger]
        atom_at(b + rest) == Ok::<_, Seq<char>>(Some((kind, b.len())))
}

/// Whether the bytes are a `moov` atom that says this, whatever follows them, unless it cannot be
/// read.
pub open spec fn is_moov(b: Seq<u8>, moov: MoovView) -> bool {
    match moov_at(b) {
        Ok(back) => back == moov && is_atom(b, AtomKind::Moov),
        Err(_) => forall|rest: Seq<u8>| (#[trigger] atom_at(b + rest)) is Err,
    }
}

/// `mp4_atom::Ftyp::encode`: a `ftyp` atom with these brands, which is read as such.
#[verifier::external_body]
pub(crate) fn encode_ftyp(major: u32, minor: u32, brands: &[u32]) -> (res: Result<Vec<u8>, String>)
    requires
        16 + 4 * brands@.len() <= u32::MAX,
    ensures
        res is Ok,
        res->Ok_0@ == ftyp_bytes(major, minor, brands@),
        is_atom(res->Ok_0@, AtomKind::Ftyp),
{
    let mut buf = Vec::new();
    let compatible_brands = brands.iter().map(|b| (*b).into()).collect();
    let ftyp = mp4_atom::Ftyp { major_brand: major.into(), minor_version: minor, compatible_brands };
    ftyp.encode(&mut buf).map_err(|e| e.to_string())?;
    Ok(buf)
}

/// The `ftyp` atom that is written for the one that the bytes are: its length and kind, and its
/// body. None where the body does not hold a major brand, a minor version and whole brands, or is
/// too long for an atom.
pub open spec fn ftyp_again(raw: Seq<u8>) -> Option<Seq<u8>> {
    let body = body_of(raw);
    if has_brands(body) && body.len() + 8 <= u32::MAX {
        Some(be_bytes((body.len() + 8) as nat, 4) + seq![0x66u8, 0x74u8, 0x79u8, 0x70u8] + body)
    } else {
        None
    }
}

/// `mp4_atom::Ftyp::decode` and `mp4_atom::Ftyp::encode`: a `ftyp` atom, read and written again,
/// which is read as such. The brands are written in the order and as the four bytes that they were
/// read as, so its body stays as it is. An atom that is not there whole is left out.
#[verifier::external_body]
pub(crate) fn recode_ftyp(raw: &[u8]) -> (res: Result<Vec<u8>, String>)
    requires
        head(raw@) is Some,
    ensures
        match res {
            Ok(b) => ftyp_again(raw@) == Some(b@) && is_atom(b@, AtomKind::Ftyp),
            Err(_) => ftyp_again(raw@) is None,
        },
{
    let mut buf = Vec::new();
    let ftyp = mp4_atom::Ftyp::decode(&mut &*raw).map_err(|e| e.to_string())?;
    ftyp.encode(&mut buf).map_err(|e| e.to_string())?;
    Ok(buf)
}

/// The `moov` atom that holds one track of another one, with its movie header and the defaults
/// that are given, and nothing else; or why it cannot be written.
pub uninterp spec fn track_moov(raw: Seq<u8>, trak: nat, trex: Trex) -> Result<
    Seq<u8>,
    Seq<char>,
>;

/// `mp4_atom::Moov::encode`: a `moov` atom with the movie header of the one that `raw` is, its
/// track number `trak`, and a `mvex` with the given defaults. If it can be read, it says so.
#[verifier::external_body]
pub(crate) fn encode_track_moov(raw: &[u8], trak: usize, trex: &Trex) -> (res: Result<
    Vec<u8>,
    String,
>)
    requires
        moov_at(raw@) is Ok,
        trak < moov_at(raw@)->Ok_0.trak.len(),
    ensures
        match res {
            Ok(b) => track_moov(raw@, trak as nat, *trex) == Ok::<_, Seq<char>>(b@) && is_moov(
                b@,
                MoovView {
                    trak: seq![moov_at(raw@)->Ok_0.trak[trak as int]],
                    trex: Some(seq![*trex]),
                },
            ),
            Err(e) => track_moov(raw@, trak as nat, *trex) == Err::<Seq<u8>, _>(e@),
        },
{
    let mut moov = mp4_atom::Moov::decode(&mut &*raw).map_err(|e| e.to_string())?;
    let trex = mp4_atom::Trex {
        track_id: trex.track_id,
        default_sample_description_index: trex.default_sample_description_index,
        default_sample_duration: trex.default_sample_duration,
        default_sample_size: trex.default_sample_size,
        default_sample_flags: trex.default_sample_flags,
    };
    let mvex = Some(mp4_atom::Mvex { mehd: None, trex: vec![trex] });
    let trak = vec![moov.trak.swap_remove(trak)];
    let mut buf = Vec::new();
    let single = mp4_atom::Moov { mvhd: moov.mvhd, trak, mvex, meta: None, udta: None };
    single.encode(&mut buf).map_err(|e| e.to_string())?;
    Ok(buf)
}

/// A track that is taken into another `moov`: the bytes of its own, its number there, and its new
/// identifier.
#[derive(Debug)]
pub struct Part {
    pub raw: Vec<u8>,
    pub trak: usize,
    pub track_id: u32,
}

/// What such a track is.
pub struct PartView {
    pub raw: Seq<u8>,
    pub trak: nat,
    pub track_id: u32,
}

impl View for Part {
    type V = PartView;

    open spec fn view(&self) -> PartView {
        PartView { raw: self.raw@, trak: self.trak as nat, track_id: self.track_id }
    }
}

/// What each of the tracks is.
pub open spec fn part_views(parts: Seq<Part>) -> Seq<PartView> {
    parts.map_values(|p: Part| p@)
}

/// Whether each of the tracks is there.
pub open spec fn parts_exist(parts: Seq<PartView>) -> bool {
    forall|i: int|
        0 <= i < parts.len() ==> moov_at((#[trigger] parts[i]).raw) is Ok && parts[i].trak < moov_at(
            parts[i].raw,
        )->Ok_0.trak.len()
}

/// What a `moov` says that holds the tracks under their new identifiers.
pub open spec fn merged_view(parts: Seq<PartView>, trex: Option<Seq<Trex>>) -> MoovView {
    MoovView {
        trak: parts.map_values(
            |p: PartView|
                Trak { track_id: p.track_id, ..moov_at(p.raw)->Ok_0.trak[p.trak as int] },
        ),
        trex,
    }
}

/// What optional defaults are.
pub open spec fn trex_view(trex: Option<Vec<Trex>>) -> Option<Seq<Trex>> {
    match trex {
        Some(t) => Some(t@),
        None => None,
    }
}

/// The `moov` atom that holds the tracks under their new identifiers, with a movie header of that
/// timescale, and with a `mvex` if defaults are given; or why it cannot be written.
pub uninterp spec fn merged_moov(
    parts: Seq<PartView>,
    trex: Option<Seq<Trex>>,
    timescale: u32,
) -> Result<Seq<u8>, Seq<char>>;

/// `mp4_atom::Moov::encode`: a `moov` atom with a movie header that has the timescale and is else
/// the default, the tracks under their new identifiers, and a `mvex` with the defaults. If it can
/// be read, it says so.
#[verifier::external_body]
pub(crate) fn encode_merged_moov(parts: &[Part], trex: Option<Vec<Trex>>, timescale: u32) -> (res:
    Result<Vec<u8>, String>)
    requires
        parts_exist(part_views(parts@)),
    ensures
        match res {
            Ok(b) => merged_moov(part_views(parts@), trex_view(trex), timescale) == Ok::<
                _,
                Seq<char>,
            >(b@) && is_moov(b@, merged_view(part_views(parts@), trex_view(trex))),
            Err(e) => merged_moov(part_views(parts@), trex_view(trex), timescale) == Err::<
                Seq<u8>,
                _,
            >(e@),
        },
{
    let mut all = MoovAtom::default();
    all.mvhd.timescale = timescale;
    for p in parts {
        let mut moov = MoovAtom::decode(&mut &p.raw[..]).map_err(|e| e.to_string())?;
        let mut trak = moov.trak.swap_remove(p.trak);
        trak.tkhd.track_id = p.track_id;
        all.trak.push(trak);
    }
    let one = |Trex { track_id, default_sample_description_index, default_sample_duration, default_sample_size, default_sample_flags }|
        TrexAtom { track_id, default_sample_description_index, default_sample_duration, default_sample_size, default_sample_flags };
    all.mvex = trex.map(|t| Mvex { mehd: None, trex: t.into_iter().map(one).collect() });
    let mut buf = vec![];
    all.encode(&mut buf).map_err(|e| e.to_string())?;
    Ok(buf)
}

} // verus!
