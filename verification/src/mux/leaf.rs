//! The shapes of single atoms that the reader of MP4 can take.
//!
//! `mp4_atom` does not return on some malformed atoms: it panics, or asks for more memory than
//! there is, or runs out of stack. Here such atoms are recognised by their bytes. An atom that is
//! cut short, or whose version is not known, is refused by the reader itself and is sound here.

use vstd::prelude::*;
use vstd::slice::slice_subrange;

verus! {

/// The number of two bytes.
pub open spec fn be16(s: Seq<u8>, i: int) -> nat {
    (s[i] * 0x100 + s[i + 1]) as nat
}

/// The number of four bytes.
pub open spec fn be32(s: Seq<u8>, i: int) -> nat {
    be16(s, i) * 0x1_0000 + be16(s, i + 2)
}

/// The number of eight bytes.
pub open spec fn be64(s: Seq<u8>, i: int) -> nat {
    be32(s, i) * 0x1_0000_0000 + be32(s, i + 4)
}

/// The number of four bytes, the lowest first.
pub open spec fn le32(s: Seq<u8>, i: int) -> nat {
    (s[i] + s[i + 1] * 0x100 + s[i + 2] * 0x1_0000 + s[i + 3] * 0x100_0000) as nat
}

/// Reads two bytes.
pub fn read_be16(data: &[u8], i: usize) -> (v: u16)
    requires
        i + 2 <= data@.len(),
    ensures
        v == be16(data@, i as int),
{
    data[i] as u16 * 0x100 + data[i + 1] as u16
}

/// Reads four bytes.
pub fn read_be32(data: &[u8], i: usize) -> (v: u32)
    requires
        i + 4 <= data@.len(),
    ensures
        v == be32(data@, i as int),
{
    let n: usize = data.len();
    assert(i + 4 <= n);
    read_be16(data, i) as u32 * 0x1_0000 + read_be16(data, i + 2) as u32
}

/// Reads eight bytes.
pub fn read_be64(data: &[u8], i: usize) -> (v: u64)
    requires
        i + 8 <= data@.len(),
    ensures
        v == be64(data@, i as int),
{
    let n: usize = data.len();
    assert(i + 8 <= n);
    read_be32(data, i) as u64 * 0x1_0000_0000 + read_be32(data, i + 4) as u64
}

/// Reads four bytes, the lowest first.
fn read_le32(data: &[u8], i: usize) -> (v: u32)
    requires
        i + 4 <= data@.len(),
    ensures
        v == le32(data@, i as int),
{
    data[i] as u32 + data[i + 1] as u32 * 0x100 + data[i + 2] as u32 * 0x1_0000 + data[i + 3] as u32
        * 0x100_0000
}

/// What follows the first `n` bytes.
pub fn after(data: &[u8], n: usize) -> (rest: &[u8])
    requires
        n <= data@.len(),
    ensures
        rest@ == data@.skip(n as int),
{
    let rest = slice_subrange(data, n, data.len());
    assert(rest@ =~= data@.skip(n as int));
    rest
}

/// The header of the atom at the start of the bytes, if the atom is there whole: its kind, and
/// where its body starts and ends. A length of 0 means all that is there, and one of 1 that the
/// length is in the next eight bytes.
pub open spec fn head(s: Seq<u8>) -> Option<(u32, nat, nat)> {
    if s.len() < 8 {
        None
    } else {
        let size = be32(s, 0);
        let kind = be32(s, 4) as u32;
        if size == 0 {
            Some((kind, 8, s.len()))
        } else if size == 1 {
            if s.len() < 16 || be64(s, 8) < 16 || be64(s, 8) > s.len() {
                None
            } else {
                Some((kind, 16, be64(s, 8)))
            }
        } else if size < 8 || size > s.len() {
            None
        } else {
            Some((kind, 8, size))
        }
    }
}

/// Reads the header of an atom.
pub fn read_head(data: &[u8]) -> (res: Option<(u32, usize, usize)>)
    ensures
        match res {
            Some((kind, start, end)) => {
                &&& head(data@) == Some((kind, start as nat, end as nat))
                &&& 8 <= start <= end <= data@.len()
            },
            None => head(data@) is None,
        },
{
    if data.len() < 8 {
        return None;
    }
    let size: u32 = read_be32(data, 0);
    let kind: u32 = read_be32(data, 4);
    if size == 0 {
        Some((kind, 8, data.len()))
    } else if size == 1 {
        if data.len() < 16 {
            return None;
        }
        let large: u64 = read_be64(data, 8);
        if large < 16 || large > data.len() as u64 {
            None
        } else {
            Some((kind, 16, large as usize))
        }
    } else if size < 8 || size as u64 > data.len() as u64 {
        None
    } else {
        Some((kind, 8, size as usize))
    }
}

/// Whether the length that the atom at the start of the bytes tells can be counted on this
/// machine. The reader drops the upper bits of one that cannot.
pub open spec fn countable(s: Seq<u8>) -> bool {
    s.len() >= 16 && be32(s, 0) == 1 ==> be64(s, 8) <= usize::MAX + 16
}

/// Whether the length that the atom at the start of the bytes tells is less than its header.
pub open spec fn bad_length(s: Seq<u8>) -> bool {
    s.len() >= 8 && (2 <= be32(s, 0) < 8 || (be32(s, 0) == 1 && s.len() >= 16 && be64(s, 8) < 16))
}

/// Tells whether the length of the atom can be counted.
pub fn can_count(data: &[u8]) -> (b: bool)
    ensures
        b == countable(data@),
{
    if data.len() < 16 || read_be32(data, 0) != 1 {
        return true;
    }
    let large: u64 = read_be64(data, 8);
    large < 16 || large - 16 <= usize::MAX as u64
}

/// The body of the atom at the start of the bytes; nothing if it is not there whole.
pub open spec fn body_of(s: Seq<u8>) -> Seq<u8> {
    match head(s) {
        Some((_, start, end)) => s.subrange(start as int, end as int),
        None => Seq::empty(),
    }
}

/// An atom that is there whole is the same alone.
pub proof fn law_atom_stands_alone(s: Seq<u8>)
    requires
        head(s) is Some,
    ensures
        head(s) matches Some((_, start, end)) && 8 <= start <= end <= s.len() && head(
            s.take(end as int),
        ) == head(s),
        body_of(s.take(head(s)->Some_0.2 as int)) == body_of(s),
{
    if let Some((_, start, end)) = head(s) {
        let t = s.take(end as int);
        assert(t[0] == s[0] && t[1] == s[1] && t[2] == s[2] && t[3] == s[3]);
        assert(t[4] == s[4] && t[5] == s[5] && t[6] == s[6] && t[7] == s[7]);
        if be32(s, 0) == 1 {
            assert(t[8] == s[8] && t[9] == s[9] && t[10] == s[10] && t[11] == s[11]);
            assert(t[12] == s[12] && t[13] == s[13] && t[14] == s[14] && t[15] == s[15]);
        }
        assert(t.subrange(start as int, end as int) =~= s.subrange(start as int, end as int));
    }
}

/// Whether a field of an `iloc` may have this size.
pub open spec fn fits(size: int) -> bool {
    size == 0 || size == 4 || size == 8
}

/// Whether none of the next `n` items of an `iloc` has extents, where the number of them follows
/// `width` bytes.
pub open spec fn no_extents(s: Seq<u8>, n: nat, width: nat) -> bool
    decreases n,
{
    if n == 0 || s.len() < width + 2 {
        true
    } else {
        be16(s, width as int) == 0 && no_extents(s.skip(width as int + 2), (n - 1) as nat, width)
    }
}

/// `iloc`: an item has a base offset of 0, 4 or 8 bytes, and so has each field of an extent.
pub open spec fn iloc_is_sound(b: Seq<u8>) -> bool {
    let version = b[0];
    let wide: nat = if version == 2 {
        4
    } else {
        2
    };
    if b.len() < 6 + wide || version > 2 {
        true
    } else {
        let base = b[5] / 16;
        let index: int = if version == 0 {
            0
        } else {
            (b[5] % 16) as int
        };
        let n = if version == 2 {
            be32(b, 6)
        } else {
            be16(b, 6)
        };
        let method: nat = if version == 0 {
            0
        } else {
            2
        };
        n == 0 || (fits(base as int) && ((fits(index) && fits(b[4] as int / 16) && fits(
            b[4] as int % 16,
        )) || no_extents(b.skip(6 + wide as int), n, (wide + method + 2 + base) as nat)))
    }
}

/// Whether a field of an `iloc` may have this size.
fn can_fit(size: u8) -> (b: bool)
    ensures
        b == fits(size as int),
{
    size == 0 || size == 4 || size == 8
}

fn check_no_extents(data: &[u8], n: u32, width: usize) -> (b: bool)
    requires
        width <= 100,
    ensures
        b == no_extents(data@, n as nat, width as nat),
{
    let mut i: u32 = 0;
    let mut at: usize = 0;
    assert(data@.skip(0) =~= data@);
    while i < n && width + 2 <= data.len() - at
        invariant
            i <= n,
            at <= data@.len(),
            width <= 100,
            no_extents(data@, n as nat, width as nat) == no_extents(
                data@.skip(at as int),
                (n - i) as nat,
                width as nat,
            ),
        decreases n - i,
    {
        if read_be16(data, at + width) != 0 {
            return false;
        }
        assert(data@.skip(at as int).skip(width as int + 2) =~= data@.skip(at + width + 2));
        at = at + width + 2;
        i = i + 1;
    }
    true
}

fn check_iloc(b: &[u8]) -> (ok: bool)
    requires
        b@.len() > 0,
    ensures
        ok == iloc_is_sound(b@),
{
    let version: u8 = b[0];
    let wide: usize = if version == 2 {
        4
    } else {
        2
    };
    if b.len() < 6 + wide || version > 2 {
        return true;
    }
    let base: u8 = b[5] / 16;
    let index: u8 = if version == 0 {
        0
    } else {
        b[5] % 16
    };
    let n: u32 = if version == 2 {
        read_be32(b, 6)
    } else {
        read_be16(b, 6) as u32
    };
    let method: usize = if version == 0 {
        0
    } else {
        2
    };
    n == 0 || (can_fit(base) && ((can_fit(index) && can_fit(b[4] / 16) && can_fit(b[4] % 16))
        || check_no_extents(after(b, 6 + wide), n, wide + method + 2 + base as usize)))
}

/// Whether none of the next `n` entries of an `iinf` has version 1.
pub open spec fn no_extensions(s: Seq<u8>, n: nat) -> bool
    decreases n,
{
    if n == 0 {
        true
    } else {
        match head(s) {
            None => countable(s),
            Some((_, start, end)) => (start == end || s[start as int] != 1) && no_extensions(
                s.skip(end as int),
                (n - 1) as nat,
            ),
        }
    }
}

/// `iinf`: no entry has version 1, which has an extension.
pub open spec fn iinf_is_sound(b: Seq<u8>) -> bool {
    let wide: nat = if b[0] == 0 {
        2
    } else {
        4
    };
    if b.len() < 4 + wide || b[0] > 1 {
        true
    } else {
        no_extensions(
            b.skip(4 + wide as int),
            if b[0] == 0 {
                be16(b, 4)
            } else {
                be32(b, 4)
            },
        )
    }
}

fn check_iinf(b: &[u8]) -> (ok: bool)
    requires
        b@.len() > 0,
    ensures
        ok == iinf_is_sound(b@),
{
    let wide: usize = if b[0] == 0 {
        2
    } else {
        4
    };
    if b.len() < 4 + wide || b[0] > 1 {
        return true;
    }
    let n: u32 = if b[0] == 0 {
        read_be16(b, 4) as u32
    } else {
        read_be32(b, 4)
    };
    let mut i: u32 = 0;
    let mut s: &[u8] = after(b, 4 + wide);
    while i < n
        invariant
            i <= n,
            iinf_is_sound(b@) == no_extensions(s@, (n - i) as nat),
        decreases n - i,
    {
        match read_head(s) {
            None => {
                return can_count(s);
            },
            Some((_, start, end)) => {
                if start < end && s[start] == 1 {
                    return false;
                }
                s = after(s, end);
                i = i + 1;
            },
        }
    }
    true
}

/// Whether the entries of an `iref` have lengths that add up to no more than what is `left`.
/// The identifiers of items are `wide` bytes each.
pub open spec fn references_fit(s: Seq<u8>, left: nat, wide: nat) -> bool
    decreases s.len(),
{
    if left == 0 || s.len() < 4 {
        true
    } else if be32(s, 0) > left {
        false
    } else if s.len() < 10 + wide {
        true
    } else {
        let size = 10 + wide + be16(s, 8 + wide as int) * wide;
        s.len() < size || references_fit(s.skip(size as int), (left - be32(s, 0)) as nat, wide)
    }
}

/// `iref`: the lengths of the entries do not go beyond the atom.
pub open spec fn iref_is_sound(b: Seq<u8>) -> bool {
    b.len() < 4 || b[0] > 1 || references_fit(
        b.skip(4),
        (b.len() - 4) as nat,
        if b[0] == 0 {
            2
        } else {
            4
        },
    )
}

fn check_iref(b: &[u8]) -> (ok: bool)
    requires
        b@.len() > 0,
    ensures
        ok == iref_is_sound(b@),
{
    if b.len() < 4 || b[0] > 1 {
        return true;
    }
    let wide: usize = if b[0] == 0 {
        2
    } else {
        4
    };
    let mut s: &[u8] = after(b, 4);
    let mut left: usize = b.len() - 4;
    while left > 0 && s.len() >= 4
        invariant
            wide == 2 || wide == 4,
            iref_is_sound(b@) == references_fit(s@, left as nat, wide as nat),
        decreases s@.len(),
    {
        let size: u32 = read_be32(s, 0);
        if size as u64 > left as u64 {
            return false;
        }
        if s.len() < 10 + wide {
            return true;
        }
        let count: u16 = read_be16(s, 8 + wide);
        let total: usize = 10 + wide + if wide == 2 {
            count as usize * 2
        } else {
            count as usize * 4
        };
        if s.len() < total {
            return true;
        }
        left = left - size as usize;
        s = after(s, total);
    }
    true
}

/// Whether no subsample of the next `n` entries of a `subs` is cut short in its last four bytes,
/// which follow a size of `wide` bytes and two more.
pub open spec fn subsamples_whole(s: Seq<u8>, n: nat, wide: nat) -> bool
    decreases s.len(),
{
    if n == 0 || s.len() < 6 {
        true
    } else {
        let one = wide + 6;
        let all = be16(s, 4) * one;
        let there = (s.len() - 6) as nat;
        if there >= all {
            subsamples_whole(s.skip(6 + all as int), (n - 1) as nat, wide)
        } else {
            there % one < wide + 2
        }
    }
}

/// `subs`: no subsample is cut short in its last four bytes.
pub open spec fn subs_is_sound(b: Seq<u8>) -> bool {
    b.len() < 8 || b[0] > 1 || subsamples_whole(
        b.skip(8),
        be32(b, 4),
        if b[0] == 0 {
            2
        } else {
            4
        },
    )
}

fn check_subs(b: &[u8]) -> (ok: bool)
    requires
        b@.len() > 0,
    ensures
        ok == subs_is_sound(b@),
{
    if b.len() < 8 || b[0] > 1 {
        return true;
    }
    let wide: usize = if b[0] == 0 {
        2
    } else {
        4
    };
    let n: u32 = read_be32(b, 4);
    let mut i: u32 = 0;
    let mut s: &[u8] = after(b, 8);
    while i < n && s.len() >= 6
        invariant
            i <= n,
            wide == 2 || wide == 4,
            subs_is_sound(b@) == subsamples_whole(s@, (n - i) as nat, wide as nat),
        decreases n - i,
    {
        let count: u16 = read_be16(s, 4);
        let one: usize = wide + 6;
        let all: usize = if wide == 2 {
            count as usize * 8
        } else {
            count as usize * 10
        };
        let there: usize = s.len() - 6;
        if there < all {
            return there % one < wide + 2;
        }
        s = after(s, 6 + all);
        i = i + 1;
    }
    true
}

/// Where the counts of a `saiz` or `saio` start: behind the version, the flags, and the kind of
/// the information, if the flags say that it is there.
pub open spec fn behind_kind(b: Seq<u8>) -> nat {
    if b[3] % 2 == 1 {
        12
    } else {
        4
    }
}

/// `saiz`: there are as many sizes as it counts, where they differ.
pub open spec fn saiz_is_sound(b: Seq<u8>) -> bool {
    b.len() < 4 || b.len() < behind_kind(b) + 5 || b[behind_kind(b) as int] != 0 || be32(
        b,
        behind_kind(b) as int + 1,
    ) <= b.len() - behind_kind(b) - 5
}

fn check_saiz(b: &[u8]) -> (ok: bool)
    ensures
        ok == saiz_is_sound(b@),
{
    if b.len() < 4 {
        return true;
    }
    let at: usize = if b[3] % 2 == 1 {
        12
    } else {
        4
    };
    b.len() < at + 5 || b[at] != 0 || read_be32(b, at + 1) as u64 <= (b.len() - at - 5) as u64
}

/// `saio`: there are as many offsets as it counts.
pub open spec fn saio_is_sound(b: Seq<u8>) -> bool {
    b.len() < 4 || b.len() < behind_kind(b) + 4 || be32(b, behind_kind(b) as int) * (if b[0] == 0 {
        4int
    } else {
        8
    }) <= b.len() - behind_kind(b) - 4
}

fn check_saio(b: &[u8]) -> (ok: bool)
    ensures
        ok == saio_is_sound(b@),
{
    if b.len() < 4 {
        return true;
    }
    let at: usize = if b[3] % 2 == 1 {
        12
    } else {
        4
    };
    if b.len() < at + 4 {
        return true;
    }
    let n: u64 = read_be32(b, at) as u64;
    let size: u64 = if b[0] == 0 {
        n * 4
    } else {
        n * 8
    };
    size <= (b.len() - at - 4) as u64
}

/// `cmpd`: there is room for as many components as it counts.
pub open spec fn components_fit(b: Seq<u8>) -> bool {
    b.len() < 4 || be32(b, 0) * 2 <= b.len() - 4
}

fn check_components(b: &[u8]) -> (ok: bool)
    ensures
        ok == components_fit(b@),
{
    b.len() < 4 || read_be32(b, 0) as u64 * 2 <= (b.len() - 4) as u64
}

/// `uncC`: there is room for as many components as it counts.
pub open spec fn uncc_is_sound(b: Seq<u8>) -> bool {
    b.len() < 12 || b[0] != 0 || be32(b, 8) * 5 <= b.len() - 12
}

fn check_uncc(b: &[u8]) -> (ok: bool)
    ensures
        ok == uncc_is_sound(b@),
{
    b.len() < 12 || b[0] != 0 || read_be32(b, 8) as u64 * 5 <= (b.len() - 12) as u64
}

/// The comments of FLAC: there is room for as many as are counted, behind the name of the vendor.
pub open spec fn comments_fit(b: Seq<u8>) -> bool {
    b.len() < 8 || b.len() < 8 + le32(b, 0) || le32(b, 4 + le32(b, 0) as int) * 4 <= b.len() - 8
        - le32(b, 0)
}

fn check_comments(b: &[u8]) -> (ok: bool)
    ensures
        ok == comments_fit(b@),
{
    if b.len() < 8 {
        return true;
    }
    let vendor: u32 = read_le32(b, 0);
    if ((b.len() - 8) as u64) < vendor as u64 {
        return true;
    }
    let at: usize = 4 + vendor as usize;
    read_le32(b, at) as u64 * 4 <= (b.len() - at - 4) as u64
}

/// The blocks of FLAC: each is a byte of kind, three of length, and as many more; the last has the
/// highest bit of its kind set. Blocks of kind 4 are comments.
pub open spec fn blocks_fit(s: Seq<u8>) -> bool
    decreases s.len(),
{
    if s.len() < 4 {
        true
    } else {
        let size = be32(s, 0) % 0x100_0000;
        if s.len() < 4 + size {
            true
        } else {
            &&& s[0] % 128 == 4 ==> comments_fit(s.subrange(4, 4 + size as int))
            &&& s[0] >= 128 || blocks_fit(s.skip(4 + size as int))
        }
    }
}

/// `dfLa`: the comments are as many as are counted.
pub open spec fn dfla_is_sound(b: Seq<u8>) -> bool {
    b.len() < 4 || blocks_fit(b.skip(4))
}

fn check_dfla(b: &[u8]) -> (ok: bool)
    ensures
        ok == dfla_is_sound(b@),
{
    if b.len() < 4 {
        return true;
    }
    let mut s: &[u8] = after(b, 4);
    while s.len() >= 4
        invariant
            b@.len() >= 4,
            dfla_is_sound(b@) == blocks_fit(s@),
        decreases s@.len(),
    {
        let size: usize = (read_be32(s, 0) % 0x100_0000) as usize;
        if s.len() - 4 < size {
            return true;
        }
        if s[0] % 128 == 4 && !check_comments(slice_subrange(s, 4, 4 + size)) {
            return false;
        }
        if s[0] >= 128 {
            return true;
        }
        s = after(s, 4 + size);
    }
    true
}

/// How many descriptions of a group may be counted where they take no bytes. Each takes some forty
/// bytes of memory.
pub const MANY: u32 = 0x100_0000;

/// `sgpd`: the descriptions can be counted. Those of kinds that are not known may take no bytes,
/// unless each tells its length, so their number is not bounded by the length of the atom.
pub open spec fn sgpd_is_sound(b: Seq<u8>) -> bool {
    let at: int = 8 + (if b[0] >= 1 {
        4int
    } else {
        0
    }) + (if b[0] >= 2 {
        4int
    } else {
        0
    });
    ||| b.len() < at + 4
    ||| be32(b, 4) == 0x7265_6673
    ||| b[0] >= 1 && be32(b, 8) == 0
    ||| be32(b, at) <= MANY
}

fn check_sgpd(b: &[u8]) -> (ok: bool)
    requires
        b@.len() > 0,
    ensures
        ok == sgpd_is_sound(b@),
{
    let at: usize = if b[0] >= 2 {
        16
    } else if b[0] >= 1 {
        12
    } else {
        8
    };
    b.len() < at + 4 || read_be32(b, 4) == 0x7265_6673 || (b[0] >= 1 && read_be32(b, 8) == 0)
        || read_be32(b, at) <= MANY
}

/// The length of a descriptor, which is written in seven bits each, of at most four bytes; the
/// last of them has its highest bit clear. From byte `i` on, with what was read so far: where it
/// ends, and what it is.
pub open spec fn length_at(s: Seq<u8>, i: nat, read: nat) -> Option<(nat, nat)>
    decreases 5 - i,
{
    if i >= 5 {
        Some((i, read))
    } else if i >= s.len() {
        None
    } else if s[i as int] < 128 {
        Some((i + 1, read * 128 + s[i as int] as nat))
    } else {
        length_at(s, i + 1, (read * 128 + s[i as int] as nat % 128) as nat)
    }
}

/// Whether the descriptors are nested no deeper than they may be: an elementary stream (3) holds a
/// decoder configuration (4), and that holds none of both. `level` says what holds these: nothing,
/// an elementary stream, or a decoder configuration.
pub open spec fn descriptors_nest(s: Seq<u8>, level: nat) -> bool
    decreases s.len(),
{
    if s.len() == 0 {
        true
    } else {
        match length_at(s, 1, 0) {
            None => true,
            Some((start, size)) => if start < 1 || start + size > s.len() {
                true
            } else {
                let body = s.subrange(start as int, (start + size) as int);
                &&& s[0] == 3 ==> level == 0 && (size < 3 || descriptors_nest(body.skip(3), 1))
                &&& s[0] == 4 ==> level <= 1 && (size < 13 || descriptors_nest(body.skip(13), 2))
                &&& descriptors_nest(s.skip((start + size) as int), level)
            },
        }
    }
}

/// `esds`: the descriptors are nested no deeper than they may be.
pub open spec fn esds_is_sound(b: Seq<u8>) -> bool {
    b.len() < 4 || descriptors_nest(b.skip(4), 0)
}

fn read_length(s: &[u8]) -> (res: Option<(usize, usize)>)
    requires
        s@.len() > 0,
    ensures
        match res {
            Some((start, size)) => {
                &&& length_at(s@, 1, 0) == Some((start as nat, size as nat))
                &&& 1 <= start <= 5
                &&& size < 0x1000_0000
            },
            None => length_at(s@, 1, 0) is None,
        },
{
    let mut i: usize = 1;
    let mut size: usize = 0;
    while i < 5
        invariant
            1 <= i <= 5,
            i == 1 ==> size == 0,
            i == 2 ==> size < 0x80,
            i == 3 ==> size < 0x4000,
            i == 4 ==> size < 0x20_0000,
            i == 5 ==> size < 0x1000_0000,
            length_at(s@, 1, 0) == length_at(s@, i as nat, size as nat),
        decreases 5 - i,
    {
        if i >= s.len() {
            return None;
        }
        let b: u8 = s[i];
        if b < 128 {
            return Some((i + 1, size * 128 + b as usize));
        }
        size = size * 128 + (b % 128) as usize;
        i = i + 1;
    }
    Some((i, size))
}

fn check_descriptors(data: &[u8], level: u32) -> (ok: bool)
    ensures
        ok == descriptors_nest(data@, level as nat),
    decreases data@.len(),
{
    let mut s: &[u8] = data;
    while s.len() > 0
        invariant
            s@.len() <= data@.len(),
            descriptors_nest(data@, level as nat) == descriptors_nest(s@, level as nat),
        decreases s@.len(),
    {
        match read_length(s) {
            None => {
                return true;
            },
            Some((start, size)) => {
                if s.len() < start || s.len() - start < size {
                    return true;
                }
                let body = slice_subrange(s, start, start + size);
                if s[0] == 3 {
                    if level != 0 || (size >= 3 && !check_descriptors(after(body, 3), 1)) {
                        return false;
                    }
                }
                if s[0] == 4 {
                    if level > 1 || (size >= 13 && !check_descriptors(after(body, 13), 2)) {
                        return false;
                    }
                }
                s = after(s, start + size);
            },
        }
    }
    true
}

/// Whether an atom that holds no other atoms can be read, by its kind and its body.
pub open spec fn leaf_is_sound(kind: u32, b: Seq<u8>) -> bool {
    if b.len() == 0 {
        true
    } else if kind == 0x696c_6f63 {  // iloc
        iloc_is_sound(b)
    } else if kind == 0x6969_6e66 {  // iinf
        iinf_is_sound(b)
    } else if kind == 0x6972_6566 {  // iref
        iref_is_sound(b)
    } else if kind == 0x7375_6273 {  // subs
        subs_is_sound(b)
    } else if kind == 0x7361_697a {  // saiz
        saiz_is_sound(b)
    } else if kind == 0x7361_696f {  // saio
        saio_is_sound(b)
    } else if kind == 0x636d_7064 {  // cmpd
        components_fit(b)
    } else if kind == 0x756e_6343 {  // uncC
        uncc_is_sound(b)
    } else if kind == 0x6466_4c61 {  // dfLa
        dfla_is_sound(b)
    } else if kind == 0x7367_7064 {  // sgpd
        sgpd_is_sound(b)
    } else if kind == 0x6573_6473 {  // esds
        esds_is_sound(b)
    } else {
        true
    }
}

/// Tells whether an atom that holds no other atoms can be read.
pub fn check_leaf(kind: u32, b: &[u8]) -> (ok: bool)
    ensures
        ok == leaf_is_sound(kind, b@),
{
    if b.len() == 0 {
        true
    } else if kind == 0x696c_6f63 {
        check_iloc(b)
    } else if kind == 0x6969_6e66 {
        check_iinf(b)
    } else if kind == 0x6972_6566 {
        check_iref(b)
    } else if kind == 0x7375_6273 {
        check_subs(b)
    } else if kind == 0x7361_697a {
        check_saiz(b)
    } else if kind == 0x7361_696f {
        check_saio(b)
    } else if kind == 0x636d_7064 {
        check_components(b)
    } else if kind == 0x756e_6343 {
        check_uncc(b)
    } else if kind == 0x6466_4c61 {
        check_dfla(b)
    } else if kind == 0x7367_7064 {
        check_sgpd(b)
    } else if kind == 0x6573_6473 {
        b.len() < 4 || check_descriptors(after(b, 4), 0)
    } else {
        true
    }
}

} // verus!
