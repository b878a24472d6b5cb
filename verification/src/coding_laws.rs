//! How integers and short fields lie on the wire.

use crate::coding::{
    be_bytes, be_value, bool_field, lemma_be_round_trip, lemma_be_value_bound, lemma_pow256,
    lemma_pow256_div, parse_bool, parse_bytes, parse_string, parse_u16, parse_u8, pow256,
    DecodeError, VarInt,
};
use vstd::prelude::*;
use vstd::utf8::{encode_utf8, valid_utf8};

verus! {

/// One byte before others stands for so many times what the others can count.
proof fn lemma_be_behind(first: u8, s: Seq<u8>)
    ensures
        be_value(seq![first] + s) == first * pow256(s.len()) + be_value(s),
    decreases s.len(),
{
    let all = seq![first] + s;
    if s.len() == 0 {
        assert(all.drop_last() =~= Seq::<u8>::empty());
        assert(be_value(all.drop_last()) == 0);
        assert(all.last() == first);
        assert(first * pow256(0) == first) by (nonlinear_arith)
            requires
                pow256(0) == 1,
        ;
    } else {
        lemma_be_behind(first, s.drop_last());
        assert(all.drop_last() =~= seq![first] + s.drop_last());
        assert(all.last() == s.last());
        let n = (s.len() - 1) as nat;
        assert(256 * (first * pow256(n)) == first * (256 * pow256(n))) by (nonlinear_arith);
        assert(pow256(s.len()) == 256 * pow256(n));
    }
}

/// The same, for as many bytes as an integer may have.
proof fn lemma_weight(first: int, k: nat)
    requires
        k <= 8,
    ensures
        first * pow256(k) == if k == 0 {
            first
        } else if k == 1 {
            first * 0x100
        } else if k == 2 {
            first * 0x1_0000
        } else if k == 3 {
            first * 0x100_0000
        } else if k == 4 {
            first * 0x1_0000_0000
        } else if k == 5 {
            first * 0x100_0000_0000
        } else if k == 6 {
            first * 0x1_0000_0000_0000
        } else if k == 7 {
            first * 0x100_0000_0000_0000
        } else {
            first * 0x1_0000_0000_0000_0000
        },
{
    lemma_pow256();
    let p = pow256(k) as int;
    if k == 0 {
        assert(first * p == first) by (nonlinear_arith)
            requires
                p == 1,
        ;
    }
    assert(p == 0x100 ==> first * p == first * 0x100) by (nonlinear_arith);
    assert(p == 0x1_0000 ==> first * p == first * 0x1_0000) by (nonlinear_arith);
    assert(p == 0x100_0000 ==> first * p == first * 0x100_0000) by (nonlinear_arith);
    assert(p == 0x1_0000_0000 ==> first * p == first * 0x1_0000_0000) by (nonlinear_arith);
    assert(p == 0x100_0000_0000 ==> first * p == first * 0x100_0000_0000) by (nonlinear_arith);
    assert(p == 0x1_0000_0000_0000 ==> first * p == first * 0x1_0000_0000_0000)
        by (nonlinear_arith);
    assert(p == 0x100_0000_0000_0000 ==> first * p == first * 0x100_0000_0000_0000)
        by (nonlinear_arith);
    assert(p == 0x1_0000_0000_0000_0000 ==> first * p == first * 0x1_0000_0000_0000_0000)
        by (nonlinear_arith);
}

/// What an integer of `n` bytes adds to its value, so that it is known to have `n` bytes: in the
/// one encoding the two highest bits, and in the other the leading ones.
pub open spec fn mark(enc: VarInt, n: nat) -> nat {
    match enc {
        VarInt::Quic => if n == 1 {
            0
        } else if n == 2 {
            0x4000
        } else if n == 4 {
            0x8000_0000
        } else {
            0xc000_0000_0000_0000
        },
        VarInt::LeadingOnes => if n == 1 {
            0
        } else if n == 2 {
            0x8000
        } else if n == 3 {
            0xc0_0000
        } else if n == 4 {
            0xe000_0000
        } else if n == 5 {
            0xf0_0000_0000
        } else if n == 6 {
            0xf800_0000_0000
        } else if n == 8 {
            0xfe00_0000_0000_0000
        } else {
            0xff_0000_0000_0000_0000
        },
    }
}

/// An integer on the wire, read as one big-endian number, is its value and the mark of its length;
/// and it has as few bytes as can be: fewer would not hold it. In the one encoding 62 bits can be
/// written, and in the other 64.
pub proof fn law_integer_layout(enc: VarInt, v: u64)
    ensures
        enc.bytes_of(v) is Ok <==> enc == VarInt::LeadingOnes || v < 0x4000_0000_0000_0000,
        enc.bytes_of(v) is Ok ==> {
            let b = enc.bytes_of(v)->Ok_0;
            let n = b.len();
            &&& be_value(b) == mark(enc, n) + v
            &&& enc == VarInt::Quic ==> n == 1 || n == 2 || n == 4 || n == 8
            &&& enc == VarInt::Quic ==> (n == 1 <==> v < 0x40) && (n <= 2 <==> v < 0x4000) && (n
                <= 4 <==> v < 0x4000_0000)
            &&& enc == VarInt::LeadingOnes ==> n <= 6 || n == 8 || n == 9
            &&& enc == VarInt::LeadingOnes ==> (n <= 1 <==> v < 0x80) && (n <= 2 <==> v < 0x4000)
                && (n <= 3 <==> v < 0x20_0000) && (n <= 4 <==> v < 0x1000_0000) && (n <= 5 <==> v
                < 0x8_0000_0000) && (n <= 6 <==> v < 0x400_0000_0000) && (n <= 8 <==> v
                < 0x100_0000_0000_0000)
        },
{
    reveal(VarInt::bytes_of);
    if let Some(n) = enc.width_of(v) {
        let rest = (n - 1) as nat;
        lemma_pow256();
        lemma_pow256_div(v as nat);
        let tag = enc.tag_of(n);
        let first = (tag + v as nat / pow256(rest)) as u8;
        let low = be_bytes(v as nat % pow256(rest), rest);
        lemma_be_round_trip(v as nat % pow256(rest), rest);
        lemma_be_behind(first, low);
        lemma_weight(first as int, rest);
        assert(be_value(enc.bytes_of(v)->Ok_0) == mark(enc, n) + v);
    }
}

/// Whatever length an integer is written with, its first byte tells it, and its value is what the
/// bytes say without the mark of their length. Two first bytes begin no integer, and one that is
/// cut off is not read.
pub proof fn law_integer_is_read(enc: VarInt, s: Seq<u8>)
    ensures
        s.len() == 0 ==> enc.parse(s) == Err::<(u64, Seq<u8>), _>(DecodeError::Short),
        enc.parse(s) is Ok ==> {
            let (v, rest) = enc.parse(s)->Ok_0;
            let n = (s.len() - rest.len()) as nat;
            &&& 0 < n <= s.len()
            &&& rest == s.skip(n as int)
            &&& be_value(s.take(n as int)) == mark(enc, n) + v
            &&& enc == VarInt::Quic ==> n == 1 && s[0] < 0x40 || n == 2 && 0x40 <= s[0] < 0x80 || n
                == 4 && 0x80 <= s[0] < 0xc0 || n == 8 && 0xc0 <= s[0]
            &&& enc == VarInt::LeadingOnes ==> n == 1 && s[0] < 0x80 || n == 2 && 0x80 <= s[0]
                < 0xc0 || n == 3 && 0xc0 <= s[0] < 0xe0 || n == 4 && 0xe0 <= s[0] < 0xf0 || n == 5
                && 0xf0 <= s[0] < 0xf8 || n == 6 && 0xf8 <= s[0] < 0xfc || n == 8 && s[0] == 0xfe
                || n == 9 && s[0] == 0xff
        },
        s.len() >= 9 && enc.parse(s) is Err ==> enc == VarInt::LeadingOnes && (s[0] == 0xfc || s[0]
            == 0xfd) && enc.parse(s)->Err_0 == DecodeError::InvalidValue,
{
    reveal(VarInt::parse);
    if s.len() > 0 {
        if let Some(n) = enc.width_at(s[0]) {
            if n <= s.len() {
                let behind = s.subrange(1, n as int);
                lemma_pow256();
                lemma_be_value_bound(behind);
                lemma_be_behind(s[0], behind);
                lemma_weight(s[0] as int, (n - 1) as nat);
                lemma_weight(s[0] - enc.tag_of(n), (n - 1) as nat);
                assert(s.take(n as int) =~= seq![s[0]] + behind);
            }
        }
    }
}

/// The values of small fields: two bytes are a number, the high one first, and a yes or no is one
/// byte that is one or zero.
pub proof fn law_small_fields(s: Seq<u8>)
    ensures
        parse_u8(s) is Ok <==> s.len() >= 1,
        s.len() >= 1 ==> parse_u8(s)->Ok_0 == (s[0], s.skip(1)),
        parse_u16(s) is Ok <==> s.len() >= 2,
        s.len() >= 2 ==> parse_u16(s)->Ok_0.0 == s[0] * 256 + s[1] && parse_u16(s)->Ok_0.1
            == s.skip(2),
        parse_bool(s) is Ok <==> s.len() >= 1 && s[0] <= 1,
        parse_bool(s) is Ok ==> (parse_bool(s)->Ok_0.0 <==> s[0] == 1) && parse_bool(s)->Ok_0.1
            == s.skip(1),
        s.len() >= 1 && s[0] > 1 ==> parse_bool(s)->Err_0 == DecodeError::InvalidValue,
        bool_field(true)->Ok_0 == seq![1u8],
        bool_field(false)->Ok_0 == seq![0u8],
{
}

/// Bytes are read behind their length, as many as it says, and are cut off only if some are
/// missing; a string is such bytes, if they are UTF-8.
pub proof fn law_bytes_are_read(enc: VarInt, s: Seq<u8>)
    requires
        enc.parse(s) is Ok,
    ensures
        ({
            let (n, behind) = enc.parse(s)->Ok_0;
            let b = parse_bytes(enc, s);
            let t = parse_string(enc, s);
            &&& b is Ok <==> n <= behind.len()
            &&& n > behind.len() ==> b->Err_0 == DecodeError::Short && t is Err && t->Err_0
                == DecodeError::Short
            &&& b is Ok ==> b->Ok_0.0.len() == n && b->Ok_0.0 + b->Ok_0.1 == behind
            &&& b is Ok ==> (t is Ok <==> valid_utf8(b->Ok_0.0))
            &&& t is Ok ==> encode_utf8(t->Ok_0.0) == b->Ok_0.0 && t->Ok_0.1 == b->Ok_0.1
            &&& b is Ok && t is Err ==> t->Err_0 == DecodeError::InvalidString
        }),
{
    let (n, behind) = enc.parse(s)->Ok_0;
    if n <= behind.len() {
        let b = parse_bytes(enc, s)->Ok_0;
        assert(b.0 + b.1 =~= behind);
        if valid_utf8(b.0) {
            vstd::utf8::decode_utf8_encode_utf8(b.0);
        }
    }
}

} // verus!
