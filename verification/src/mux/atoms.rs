//! Which atoms the reader of MP4 can take: the tree of atoms, and the shapes in it.

use crate::mux::leaf::{
    after, be16, be32, can_count, check_leaf, countable, head, leaf_is_sound, read_be16, read_be32, read_head,
};
use vstd::prelude::*;
use vstd::slice::slice_subrange;

verus! {

/// How deep atoms may lie in one another. The reader of an atom reads those in it before it
/// returns, and keeps some kilobytes of stack for each: a stack of two mebibytes, which is what a
/// thread has, takes some hundred and fifty. This leaves half of it to the callers. A sample
/// entry's configuration lies eight atoms deep.
pub const MAX_DEPTH: u32 = 64;

/// The atoms that hold nothing but atoms.
pub open spec fn holds_atoms(kind: u32) -> bool {
    ||| kind == 0x6d6f_6f76  // moov
    ||| kind == 0x7472_616b  // trak
    ||| kind == 0x6d64_6961  // mdia
    ||| kind == 0x6d69_6e66  // minf
    ||| kind == 0x7374_626c  // stbl
    ||| kind == 0x6469_6e66  // dinf
    ||| kind == 0x6564_7473  // edts
    ||| kind == 0x6d76_6578  // mvex
    ||| kind == 0x7564_7461  // udta
    ||| kind == 0x6d6f_6f66  // moof
    ||| kind == 0x7472_6166  // traf
    ||| kind == 0x6d66_7261  // mfra
    ||| kind == 0x6970_7270  // iprp
    ||| kind == 0x6970_636f  // ipco
    ||| kind == 0x696c_7374  // ilst
}

/// Whether the kind is one of these: the atoms that hold nothing but atoms.
fn holds_atoms_kind(kind: u32) -> (b: bool)
    ensures
        b == holds_atoms(kind),
{
    kind == 0x6d6f_6f76 || kind == 0x7472_616b || kind == 0x6d64_6961 || kind == 0x6d69_6e66
        || kind == 0x7374_626c || kind == 0x6469_6e66 || kind == 0x6564_7473
        || kind == 0x6d76_6578 || kind == 0x7564_7461 || kind == 0x6d6f_6f66
        || kind == 0x7472_6166 || kind == 0x6d66_7261 || kind == 0x6970_7270
        || kind == 0x6970_636f || kind == 0x696c_7374
}

/// The sample entries of pictures.
pub open spec fn is_video(kind: u32) -> bool {
    ||| kind == 0x6176_6331  // avc1
    ||| kind == 0x6865_7631  // hev1
    ||| kind == 0x6876_6331  // hvc1
    ||| kind == 0x7670_3038  // vp08
    ||| kind == 0x7670_3039  // vp09
    ||| kind == 0x6176_3031  // av01
    ||| kind == 0x756e_6376  // uncv
}

/// Whether the kind is one of these: the sample entries of pictures.
fn is_video_kind(kind: u32) -> (b: bool)
    ensures
        b == is_video(kind),
{
    kind == 0x6176_6331 || kind == 0x6865_7631 || kind == 0x6876_6331 || kind == 0x7670_3038
        || kind == 0x7670_3039 || kind == 0x6176_3031 || kind == 0x756e_6376
}

/// The sample entries of sound.
pub open spec fn is_audio(kind: u32) -> bool {
    ||| kind == 0x6d70_3461  // mp4a
    ||| kind == 0x4f70_7573  // Opus
    ||| kind == 0x664c_6143  // fLaC
    ||| kind == 0x6163_2d33  // ac-3
    ||| kind == 0x6563_2d33  // ec-3
    ||| kind == 0x736f_7774  // sowt
    ||| kind == 0x7477_6f73  // twos
    ||| kind == 0x6c70_636d  // lpcm
    ||| kind == 0x6970_636d  // ipcm
    ||| kind == 0x6670_636d  // fpcm
    ||| kind == 0x696e_3234  // in24
    ||| kind == 0x696e_3332  // in32
    ||| kind == 0x666c_3332  // fl32
    ||| kind == 0x666c_3634  // fl64
    ||| kind == 0x7331_366c  // s16l
}

/// Whether the kind is one of these: the sample entries of sound.
fn is_audio_kind(kind: u32) -> (b: bool)
    ensures
        b == is_audio(kind),
{
    kind == 0x6d70_3461 || kind == 0x4f70_7573 || kind == 0x664c_6143 || kind == 0x6163_2d33
        || kind == 0x6563_2d33 || kind == 0x736f_7774 || kind == 0x7477_6f73
        || kind == 0x6c70_636d || kind == 0x6970_636d || kind == 0x6670_636d
        || kind == 0x696e_3234 || kind == 0x696e_3332 || kind == 0x666c_3332
        || kind == 0x666c_3634 || kind == 0x7331_366c
}

/// Where the atoms within another one start: behind its own fields. None for an atom that holds
/// no atoms; beyond the end where its own fields are cut short, or refused.
pub open spec fn fields_of(kind: u32, b: Seq<u8>) -> Option<nat> {
    if holds_atoms(kind) {
        Some(0)
    } else if is_video(kind) {
        Some(78)
    } else if is_audio(kind) {
        Some(
            if b.len() < 28 {
                b.len()
            } else if be16(b, 8) == 0 {
                28
            } else if be16(b, 8) == 1 {
                44
            } else if be16(b, 8) == 2 {
                64
            } else {
                b.len()
            },
        )
    } else if kind == 0x7478_3367 {  // tx3g
        Some(38)
    } else if kind == 0x7374_7364 {  // stsd
        Some(8)
    } else if kind == 0x6d65_7461 {  // meta
        Some(meta_fields(b))
    } else {
        None
    }
}

/// Where the atoms of a `meta` start: behind its version, which is missing where a `hdlr` follows
/// at once, and behind the first atom, which is always read as a `hdlr`.
pub open spec fn meta_fields(b: Seq<u8>) -> nat {
    if b.len() < 8 {
        b.len()
    } else {
        let at: nat = if be32(b, 4) == 0x6864_6c72 {
            0
        } else {
            4
        };
        match head(b.skip(at as int)) {
            None => if countable(b.skip(at as int)) {
                b.len()
            } else {
                at
            },
            Some((_, _, end)) => at + end,
        }
    }
}

/// Whether all atoms among the bytes can be read, as far as they are there whole, and the length
/// of the one that is not can be counted.
pub open spec fn are_sound(s: Seq<u8>, depth: nat) -> bool
    decreases depth, s.len(),
{
    match head(s) {
        None => countable(s),
        Some((kind, start, end)) => if 8 <= start <= end <= s.len() {
            &&& body_is_sound(kind, s.subrange(start as int, end as int), depth)
            &&& are_sound(s.skip(end as int), depth)
        } else {
            true
        },
    }
}

/// Whether an atom of this kind and with this body can be read, and all atoms in it.
pub open spec fn body_is_sound(kind: u32, b: Seq<u8>, depth: nat) -> bool
    decreases depth, b.len(),
{
    match fields_of(kind, b) {
        None => leaf_is_sound(kind, b),
        Some(at) => depth > 0 && (at > b.len() || are_sound(
            b.skip(at as int),
            (depth - 1) as nat,
        )),
    }
}

/// Whether the atom at the start of the bytes can be read.
#[verifier::opaque]
pub open spec fn first_is_sound(s: Seq<u8>) -> bool {
    match head(s) {
        None => countable(s),
        Some((kind, start, end)) => body_is_sound(
            kind,
            s.subrange(start as int, end as int),
            MAX_DEPTH as nat,
        ),
    }
}

/// Whether the bytes can be read as an atom that holds nothing but atoms.
#[verifier::opaque]
pub open spec fn inside_is_sound(s: Seq<u8>) -> bool {
    match head(s) {
        None => countable(s),
        Some((_, start, end)) => are_sound(
            s.subrange(start as int, end as int),
            (MAX_DEPTH - 1) as nat,
        ),
    }
}

fn find_fields(kind: u32, b: &[u8]) -> (at: Option<usize>)
    ensures
        match at {
            Some(at) => fields_of(kind, b@) == Some(at as nat),
            None => fields_of(kind, b@) is None,
        },
{
    if holds_atoms_kind(kind) {
        Some(0)
    } else if is_video_kind(kind) {
        Some(78)
    } else if is_audio_kind(kind) {
        if b.len() < 28 {
            return Some(b.len());
        }
        Some(
            match read_be16(b, 8) {
                0 => 28,
                1 => 44,
                2 => 64,
                _ => b.len(),
            },
        )
    } else if kind == 0x7478_3367 {
        Some(38)
    } else if kind == 0x7374_7364 {
        Some(8)
    } else if kind == 0x6d65_7461 {
        if b.len() < 8 {
            return Some(b.len());
        }
        let at: usize = if read_be32(b, 4) == 0x6864_6c72 {
            0
        } else {
            4
        };
        match read_head(after(b, at)) {
            None => Some(
                if can_count(after(b, at)) {
                    b.len()
                } else {
                    at
                },
            ),
            Some((_, _, end)) => Some(at + end),
        }
    } else {
        None
    }
}

/// Tells whether all atoms among the bytes can be read.
fn check_all(data: &[u8], depth: u32) -> (ok: bool)
    ensures
        ok == are_sound(data@, depth as nat),
    decreases depth, data@.len(),
{
    let mut s: &[u8] = data;
    loop
        invariant
            s@.len() <= data@.len(),
            are_sound(data@, depth as nat) == are_sound(s@, depth as nat),
        decreases s@.len(),
    {
        match read_head(s) {
            None => {
                return can_count(s);
            },
            Some((kind, start, end)) => {
                if !check_body(kind, slice_subrange(s, start, end), depth) {
                    return false;
                }
                s = after(s, end);
            },
        }
    }
}

/// Tells whether an atom can be read, and all atoms in it.
fn check_body(kind: u32, b: &[u8], depth: u32) -> (ok: bool)
    ensures
        ok == body_is_sound(kind, b@, depth as nat),
    decreases depth, b@.len(),
{
    match find_fields(kind, b) {
        None => check_leaf(kind, b),
        Some(at) => depth > 0 && (at > b.len() || check_all(after(b, at), depth - 1)),
    }
}

/// Tells whether the atom at the start of the bytes can be read.
pub fn check_first(data: &[u8]) -> (ok: bool)
    ensures
        ok == first_is_sound(data@),
{
    reveal(first_is_sound);
    match read_head(data) {
        None => can_count(data),
        Some((kind, start, end)) => check_body(
            kind,
            slice_subrange(data, start, end),
            MAX_DEPTH,
        ),
    }
}

/// Tells whether the bytes can be read as an atom that holds nothing but atoms.
pub fn check_inside(data: &[u8]) -> (ok: bool)
    ensures
        ok == inside_is_sound(data@),
{
    reveal(inside_is_sound);
    match read_head(data) {
        None => can_count(data),
        Some((_, start, end)) => check_all(slice_subrange(data, start, end), MAX_DEPTH - 1),
    }
}

/// What can be read at the start of bytes, as an atom that holds nothing but atoms, can be read as
/// the bytes that it is.
pub proof fn law_first_is_inside(s: Seq<u8>)
    requires
        head(s) matches Some((kind, _, _)) && holds_atoms(kind),
    ensures
        first_is_sound(s) == inside_is_sound(s),
{
    reveal(first_is_sound);
    reveal(inside_is_sound);
    if let Some((_, start, end)) = head(s) {
        let b = s.subrange(start as int, end as int);
        assert(b.skip(0) =~= b);
    }
}

/// Whatever follows an atom that is there whole and tells its length, it can be read as it could
/// be alone.
pub proof fn law_what_follows_does_not_count(s: Seq<u8>, rest: Seq<u8>)
    requires
        s.len() >= 8,
        be32(s, 0) == s.len(),
    ensures
        first_is_sound(s + rest) == first_is_sound(s),
        head(s + rest) == head(s),
{
    reveal(first_is_sound);
    let t = s + rest;
    assert(t[0] == s[0] && t[1] == s[1] && t[2] == s[2] && t[3] == s[3]);
    assert(t[4] == s[4] && t[5] == s[5] && t[6] == s[6] && t[7] == s[7]);
    assert(t.subrange(8, s.len() as int) =~= s.subrange(8, s.len() as int));
}

} // verus!
