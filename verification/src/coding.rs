//! The primitives that every message is written with.

use vstd::prelude::*;
use vstd::slice::slice_subrange;
use vstd::slice::slice_to_vec;
use vstd::utf8::decode_utf8;
use vstd::utf8::encode_utf8;
use vstd::utf8::valid_utf8;

verus! {

/// An integer does not fit its encoding.
#[derive(Debug, Clone, Copy, PartialEq, Eq, Structural)]
pub struct BoundsExceeded;

/// Why bytes could not be read as a message.
#[derive(Debug, Clone, Copy, PartialEq, Eq, Structural)]
pub enum DecodeError {
    /// The bytes end before the value does.
    Short,
    /// A field holds a value that its type does not have.
    InvalidValue,
    /// A string is not UTF-8.
    InvalidString,
    /// The value is known, and not supported.
    Unsupported,
    /// The message does not exist in this version.
    Version,
    /// There are more parameters than a message may hold.
    TooMany,
    /// A parameter occurs twice.
    Duplicate,
}

/// Why a message could not be written.
#[derive(Debug, Clone, Copy, PartialEq, Eq, Structural)]
pub enum EncodeError {
    /// An integer does not fit its encoding.
    BoundsExceeded,
    /// The message does not exist in this version.
    Version,
}

/// What a failure to read says.
pub open spec fn decode_message(err: DecodeError) -> Seq<char> {
    match err {
        DecodeError::Short => "short buffer"@,
        DecodeError::InvalidValue => "invalid value"@,
        DecodeError::InvalidString => "invalid string"@,
        DecodeError::Unsupported => "unsupported value"@,
        DecodeError::Version => "unsupported version"@,
        DecodeError::TooMany => "too many"@,
        DecodeError::Duplicate => "duplicate"@,
    }
}

/// What a failure to write says.
pub open spec fn encode_message(err: EncodeError) -> Seq<char> {
    match err {
        EncodeError::BoundsExceeded => "value out of range"@,
        EncodeError::Version => "unsupported version"@,
    }
}

impl DecodeError {
    /// What the failure says.
    pub fn message(&self) -> (s: &'static str)
        ensures
            s@ == decode_message(*self),
    {
        match self {
            DecodeError::Short => "short buffer",
            DecodeError::InvalidValue => "invalid value",
            DecodeError::InvalidString => "invalid string",
            DecodeError::Unsupported => "unsupported value",
            DecodeError::Version => "unsupported version",
            DecodeError::TooMany => "too many",
            DecodeError::Duplicate => "duplicate",
        }
    }
}

impl EncodeError {
    /// What the failure says.
    pub fn message(&self) -> (s: &'static str)
        ensures
            s@ == encode_message(*self),
    {
        match self {
            EncodeError::BoundsExceeded => "value out of range",
            EncodeError::Version => "unsupported version",
        }
    }
}

/// How integers of variable length are written.
#[derive(Debug, Clone, Copy, PartialEq, Eq, Structural)]
pub enum VarInt {
    /// Two leading bits give the length: 1, 2, 4 or 8 bytes, up to 62 bits of value.
    Quic,
    /// The leading ones of the first byte give the length: 1 to 6, 8 or 9 bytes, up to 64
    /// bits of value.
    LeadingOnes,
}

/// 256 to the power of `n`.
pub open spec fn pow256(n: nat) -> nat
    decreases n,
{
    if n == 0 {
        1
    } else {
        256 * pow256((n - 1) as nat)
    }
}

/// The `n` bytes of `v`, the most significant first.
pub open spec fn be_bytes(v: nat, n: nat) -> Seq<u8>
    decreases n,
{
    if n == 0 {
        Seq::empty()
    } else {
        be_bytes(v / 256, (n - 1) as nat).push((v % 256) as u8)
    }
}

/// The number that bytes stand for, the most significant first.
pub open spec fn be_value(s: Seq<u8>) -> nat
    decreases s.len(),
{
    if s.len() == 0 {
        0
    } else {
        256 * be_value(s.drop_last()) + s.last() as nat
    }
}

/// `n` bytes read as a number give back the number that they were made of.
pub proof fn lemma_be_round_trip(v: nat, n: nat)
    requires
        v < pow256(n),
    ensures
        be_bytes(v, n).len() == n,
        be_value(be_bytes(v, n)) == v,
    decreases n,
{
    if n > 0 {
        lemma_be_round_trip(v / 256, (n - 1) as nat);
        assert(be_bytes(v, n).drop_last() == be_bytes(v / 256, (n - 1) as nat));
    }
}

/// There are `n` of them.
pub proof fn lemma_be_bytes_len(v: nat, n: nat)
    ensures
        be_bytes(v, n).len() == n,
    decreases n,
{
    if n > 0 {
        lemma_be_bytes_len(v / 256, (n - 1) as nat);
    }
}

/// A number of `n` bytes is below 256 to the power of `n`.
pub proof fn lemma_be_value_bound(s: Seq<u8>)
    ensures
        be_value(s) < pow256(s.len()),
    decreases s.len(),
{
    if s.len() > 0 {
        lemma_be_value_bound(s.drop_last());
    }
}

/// The powers of 256 that fit in 64 bits.
pub proof fn lemma_pow256()
    ensures
        pow256(0) == 1,
        pow256(1) == 0x100,
        pow256(2) == 0x1_0000,
        pow256(3) == 0x100_0000,
        pow256(4) == 0x1_0000_0000,
        pow256(5) == 0x100_0000_0000,
        pow256(6) == 0x1_0000_0000_0000,
        pow256(7) == 0x100_0000_0000_0000,
        pow256(8) == 0x1_0000_0000_0000_0000,
{
    reveal_with_fuel(pow256, 9);
}

/// A division by such a power is one by a number that can be written down.
pub proof fn lemma_pow256_div(v: nat)
    ensures
        v / pow256(0) == v / 1 && v % pow256(0) == v % 1,
        v / pow256(1) == v / 0x100 && v % pow256(1) == v % 0x100,
        v / pow256(2) == v / 0x1_0000 && v % pow256(2) == v % 0x1_0000,
        v / pow256(3) == v / 0x100_0000 && v % pow256(3) == v % 0x100_0000,
        v / pow256(4) == v / 0x1_0000_0000 && v % pow256(4) == v % 0x1_0000_0000,
        v / pow256(5) == v / 0x100_0000_0000 && v % pow256(5) == v % 0x100_0000_0000,
        v / pow256(7) == v / 0x100_0000_0000_0000 && v % pow256(7) == v % 0x100_0000_0000_0000,
        v / pow256(8) == v / 0x1_0000_0000_0000_0000 && v % pow256(8) == v
            % 0x1_0000_0000_0000_0000,
{
    lemma_pow256();
}

/// A longer number has room for more.
pub proof fn lemma_pow256_monotonic(m: nat, n: nat)
    requires
        m <= n,
    ensures
        0 < pow256(m) <= pow256(n),
    decreases n,
{
    if m < n {
        lemma_pow256_monotonic(m, (n - 1) as nat);
    } else if m > 0 {
        lemma_pow256_monotonic((m - 1) as nat, (n - 1) as nat);
    }
}

impl VarInt {
    /// The number of bytes that `v` takes, the fewest that hold it; none hold an integer
    /// that is too large.
    pub open spec fn width_of(self, v: u64) -> Option<nat> {
        match self {
            VarInt::Quic => if v < 0x40 {
                Some(1)
            } else if v < 0x4000 {
                Some(2)
            } else if v < 0x4000_0000 {
                Some(4)
            } else if v < 0x4000_0000_0000_0000 {
                Some(8)
            } else {
                None
            },
            VarInt::LeadingOnes => if v < 0x80 {
                Some(1)
            } else if v < 0x4000 {
                Some(2)
            } else if v < 0x20_0000 {
                Some(3)
            } else if v < 0x1000_0000 {
                Some(4)
            } else if v < 0x8_0000_0000 {
                Some(5)
            } else if v < 0x400_0000_0000 {
                Some(6)
            } else if v < 0x100_0000_0000_0000 {
                Some(8)
            } else {
                Some(9)
            },
        }
    }

    /// What the first byte of an integer of `n` bytes holds besides the value's high bits.
    pub open spec fn tag_of(self, n: nat) -> u8 {
        match self {
            VarInt::Quic => if n == 1 {
                0
            } else if n == 2 {
                0x40
            } else if n == 4 {
                0x80
            } else {
                0xc0
            },
            VarInt::LeadingOnes => if n == 1 {
                0
            } else if n == 2 {
                0x80
            } else if n == 3 {
                0xc0
            } else if n == 4 {
                0xe0
            } else if n == 5 {
                0xf0
            } else if n == 6 {
                0xf8
            } else if n == 8 {
                0xfe
            } else {
                0xff
            },
        }
    }

    /// The length that the first byte of an integer announces; some first bytes announce
    /// none.
    pub open spec fn width_at(self, first: u8) -> Option<nat> {
        match self {
            VarInt::Quic => if first < 0x40 {
                Some(1)
            } else if first < 0x80 {
                Some(2)
            } else if first < 0xc0 {
                Some(4)
            } else {
                Some(8)
            },
            VarInt::LeadingOnes => if first < 0x80 {
                Some(1)
            } else if first < 0xc0 {
                Some(2)
            } else if first < 0xe0 {
                Some(3)
            } else if first < 0xf0 {
                Some(4)
            } else if first < 0xf8 {
                Some(5)
            } else if first < 0xfc {
                Some(6)
            } else if first < 0xfe {
                None
            } else if first == 0xfe {
                Some(8)
            } else {
                Some(9)
            },
        }
    }

    /// The bytes of an integer.
    #[verifier::opaque]
    pub open spec fn bytes_of(self, v: u64) -> Result<Seq<u8>, EncodeError> {
        match self.width_of(v) {
            None => Err(EncodeError::BoundsExceeded),
            Some(n) => {
                let rest = (n - 1) as nat;
                Ok(
                    seq![(self.tag_of(n) + v as nat / pow256(rest)) as u8] + be_bytes(
                        v as nat % pow256(rest),
                        rest,
                    ),
                )
            },
        }
    }

    /// The integer at the start of `s`, and what follows it.
    #[verifier::opaque]
    pub open spec fn parse(self, s: Seq<u8>) -> Result<(u64, Seq<u8>), DecodeError> {
        if s.len() == 0 {
            Err(DecodeError::Short)
        } else {
            match self.width_at(s[0]) {
                None => Err(DecodeError::InvalidValue),
                Some(n) => if s.len() < n {
                    Err(DecodeError::Short)
                } else {
                    let high = (s[0] - self.tag_of(n)) * pow256((n - 1) as nat);
                    Ok(((high + be_value(s.subrange(1, n as int))) as u64, s.skip(n as int)))
                },
            }
        }
    }

    /// Of what was written, the same integer is read, and nothing of what follows.
    pub proof fn lemma_round_trip(self, v: u64, rest: Seq<u8>)
        requires
            self.bytes_of(v) is Ok,
        ensures
            self.parse(self.bytes_of(v)->Ok_0 + rest) == Ok::<_, DecodeError>((v, rest)),
    {
        reveal(VarInt::bytes_of);
        reveal(VarInt::parse);
        lemma_pow256();
        let n = self.width_of(v)->Some_0;
        let low = (n - 1) as nat;
        let bytes = self.bytes_of(v)->Ok_0;
        let s = bytes + rest;
        let p = pow256(low);
        let tail = be_bytes(v as nat % p, low);
        assert(p > 0);
        assert(v as nat % p < p && v as nat == p * (v as nat / p) + v as nat % p)
            by (nonlinear_arith)
            requires
                p > 0,
        ;
        lemma_be_round_trip(v as nat % p, low);
        assert(bytes.len() == n);
        assert(s.skip(n as int) =~= rest);
        assert(s.subrange(1, n as int) =~= tail);
        lemma_pow256_div(v as nat);
        assert(self.width_at(s[0]) == Some(n) && s[0] - self.tag_of(n) == v as nat / p);
        assert((v as nat / p) * p == p * (v as nat / p)) by (nonlinear_arith);
    }

    /// An integer takes at most nine bytes and at least one.
    pub proof fn lemma_bytes_len(self, v: u64)
        requires
            self.bytes_of(v) is Ok,
        ensures
            self.bytes_of(v)->Ok_0.len() == self.width_of(v)->Some_0,
            1 <= self.bytes_of(v)->Ok_0.len() <= 9,
    {
        reveal(VarInt::bytes_of);
        let low = (self.width_of(v)->Some_0 - 1) as nat;
        lemma_be_bytes_len(v as nat % pow256(low), low);
    }

    /// Which integers can be written: all, or those of 62 bits.
    pub proof fn lemma_bytes_ok(self, v: u64)
        ensures
            self.bytes_of(v) is Ok <==> self == VarInt::LeadingOnes || v < 0x4000_0000_0000_0000,
    {
        reveal(VarInt::bytes_of);
    }

    /// An integer takes at least one byte to read.
    pub proof fn lemma_parse_shrinks(self, s: Seq<u8>)
        ensures
            self.parse(s) matches Ok((_, rest)) ==> rest.len() < s.len(),
    {
        reveal(VarInt::parse);
    }
}

/// One piece after another; the first that cannot be written decides.
pub open spec fn cat(
    a: Result<Seq<u8>, EncodeError>,
    b: Result<Seq<u8>, EncodeError>,
) -> Result<Seq<u8>, EncodeError> {
    match (a, b) {
        (Err(e), _) => Err(e),
        (Ok(_), Err(e)) => Err(e),
        (Ok(x), Ok(y)) => Ok(x + y),
    }
}

/// What a writer holds after it was given `bytes`: all of them behind what it held before,
/// or, where they could not be written, at least what it held before.
pub open spec fn wrote(
    before: Seq<u8>,
    after: Seq<u8>,
    res: Result<(), EncodeError>,
    bytes: Result<Seq<u8>, EncodeError>,
) -> bool {
    match bytes {
        Ok(b) => res is Ok && after == before + b,
        Err(e) => res == Err::<(), EncodeError>(e) && before.is_prefix_of(after),
    }
}

/// What was written piece by piece was written as a whole.
pub proof fn lemma_wrote_more(
    before: Seq<u8>,
    mid: Seq<u8>,
    after: Seq<u8>,
    res: Result<(), EncodeError>,
    a: Result<Seq<u8>, EncodeError>,
    b: Result<Seq<u8>, EncodeError>,
)
    requires
        wrote(before, mid, Ok(()), a),
        wrote(mid, after, res, b),
    ensures
        wrote(before, after, res, cat(a, b)),
{
    if b is Ok {
        assert(after =~= before + (a->Ok_0 + b->Ok_0));
    }
}

/// What a reader returns and holds after it was asked for a value: the value, with what
/// follows it left to read, or the error.
pub open spec fn read<T>(
    after: Seq<u8>,
    res: Result<T, DecodeError>,
    parsed: Result<(T, Seq<u8>), DecodeError>,
) -> bool {
    match parsed {
        Ok((v, rest)) => res == Ok::<T, DecodeError>(v) && after == rest,
        Err(e) => res == Err::<T, DecodeError>(e),
    }
}

/// Bytes behind their length.
pub open spec fn bytes_field(enc: VarInt, b: Seq<u8>) -> Result<Seq<u8>, EncodeError> {
    cat(enc.bytes_of(b.len() as u64), Ok(b))
}

/// The bytes that stand behind their length at the start of `s`, and what follows them.
pub open spec fn parse_bytes(enc: VarInt, s: Seq<u8>) -> Result<(Seq<u8>, Seq<u8>), DecodeError> {
    match enc.parse(s) {
        Err(e) => Err(e),
        Ok((n, rest)) => if rest.len() < n {
            Err(DecodeError::Short)
        } else {
            Ok((rest.take(n as int), rest.skip(n as int)))
        },
    }
}

/// A string: its UTF-8 bytes behind their length.
pub open spec fn string_field(enc: VarInt, v: Seq<char>) -> Result<Seq<u8>, EncodeError> {
    bytes_field(enc, encode_utf8(v))
}

/// The string at the start of `s`, and what follows it.
pub open spec fn parse_string(enc: VarInt, s: Seq<u8>) -> Result<(Seq<char>, Seq<u8>), DecodeError> {
    match parse_bytes(enc, s) {
        Err(e) => Err(e),
        Ok((b, rest)) => if valid_utf8(b) {
            Ok((decode_utf8(b), rest))
        } else {
            Err(DecodeError::InvalidString)
        },
    }
}

/// The byte at the start of `s`, and what follows it.
pub open spec fn parse_u8(s: Seq<u8>) -> Result<(u8, Seq<u8>), DecodeError> {
    if s.len() == 0 {
        Err(DecodeError::Short)
    } else {
        Ok((s[0], s.skip(1)))
    }
}

/// The two bytes at the start of `s` as a number, the high one first, and what follows them.
pub open spec fn parse_u16(s: Seq<u8>) -> Result<(u16, Seq<u8>), DecodeError> {
    if s.len() < 2 {
        Err(DecodeError::Short)
    } else {
        Ok(((s[0] * 256 + s[1]) as u16, s.skip(2)))
    }
}

/// A yes or no, one byte.
pub open spec fn bool_field(v: bool) -> Result<Seq<u8>, EncodeError> {
    Ok(seq![if v { 1u8 } else { 0u8 }])
}

/// The yes or no at the start of `s`, and what follows it.
pub open spec fn parse_bool(s: Seq<u8>) -> Result<(bool, Seq<u8>), DecodeError> {
    match parse_u8(s) {
        Err(e) => Err(e),
        Ok((b, rest)) => if b > 1 {
            Err(DecodeError::InvalidValue)
        } else {
            Ok((b == 1, rest))
        },
    }
}

/// Of bytes that were written, the same are read, and nothing of what follows.
pub proof fn lemma_bytes_round_trip(enc: VarInt, b: Seq<u8>, rest: Seq<u8>)
    requires
        bytes_field(enc, b) is Ok,
        b.len() <= u64::MAX,
    ensures
        parse_bytes(enc, bytes_field(enc, b)->Ok_0 + rest) == Ok::<_, DecodeError>((b, rest)),
{
    let len = enc.bytes_of(b.len() as u64)->Ok_0;
    enc.lemma_round_trip(b.len() as u64, b + rest);
    assert(len + b + rest =~= len + (b + rest));
    assert((b + rest).take(b.len() as int) =~= b);
    assert((b + rest).skip(b.len() as int) =~= rest);
}

/// Of a string that was written, the same is read, and nothing of what follows.
pub proof fn lemma_string_round_trip(enc: VarInt, v: Seq<char>, rest: Seq<u8>)
    requires
        string_field(enc, v) is Ok,
        encode_utf8(v).len() <= u64::MAX,
    ensures
        parse_string(enc, string_field(enc, v)->Ok_0 + rest) == Ok::<_, DecodeError>((v, rest)),
{
    lemma_bytes_round_trip(enc, encode_utf8(v), rest);
    vstd::utf8::encode_utf8_valid_utf8(v);
    vstd::utf8::encode_utf8_decode_utf8(v);
}

/// `std::string::String::from_utf8`: the string that bytes are, if they are UTF-8, and
/// else none.
#[verifier::external_body]
fn string_from_utf8(bytes: Vec<u8>) -> (res: Option<String>)
    ensures
        match res {
            Some(s) => valid_utf8(bytes@) && s@ == decode_utf8(bytes@),
            None => !valid_utf8(bytes@),
        },
{
    String::from_utf8(bytes).ok()
}

/// Writes the `n` low bytes of `v`, the most significant first.
fn push_be(w: &mut Vec<u8>, v: u64, n: usize)
    requires
        n <= 8,
    ensures
        final(w)@ == old(w)@ + be_bytes(v as nat, n as nat),
    decreases n,
{
    if n > 0 {
        push_be(w, v / 256, n - 1);
        w.push((v % 256) as u8);
    }
}

impl VarInt {
    /// Writes an integer in the fewest bytes that hold it.
    pub fn encode(self, v: u64, w: &mut Vec<u8>) -> (res: Result<(), EncodeError>)
        ensures
            wrote(old(w)@, final(w)@, res, self.bytes_of(v)),
    {
        proof {
            reveal(VarInt::bytes_of);
            lemma_pow256_div(v as nat);
        }
        let (tag, high, rest, n): (u8, u64, u64, usize) = match self {
            VarInt::Quic => if v < 0x40 {
                (0, v, 0, 1)
            } else if v < 0x4000 {
                (0x40, v / 0x100, v % 0x100, 2)
            } else if v < 0x4000_0000 {
                (0x80, v / 0x100_0000, v % 0x100_0000, 4)
            } else if v < 0x4000_0000_0000_0000 {
                (0xc0, v / 0x100_0000_0000_0000, v % 0x100_0000_0000_0000, 8)
            } else {
                return Err(EncodeError::BoundsExceeded);
            },
            VarInt::LeadingOnes => if v < 0x80 {
                (0, v, 0, 1)
            } else if v < 0x4000 {
                (0x80, v / 0x100, v % 0x100, 2)
            } else if v < 0x20_0000 {
                (0xc0, v / 0x1_0000, v % 0x1_0000, 3)
            } else if v < 0x1000_0000 {
                (0xe0, v / 0x100_0000, v % 0x100_0000, 4)
            } else if v < 0x8_0000_0000 {
                (0xf0, v / 0x1_0000_0000, v % 0x1_0000_0000, 5)
            } else if v < 0x400_0000_0000 {
                (0xf8, v / 0x100_0000_0000, v % 0x100_0000_0000, 6)
            } else if v < 0x100_0000_0000_0000 {
                (0xfe, v / 0x100_0000_0000_0000, v % 0x100_0000_0000_0000, 8)
            } else {
                (0xff, 0, v, 9)
            },
        };
        assert(self.width_of(v) == Some(n as nat));
        let ghost p = pow256((n - 1) as nat);
        assert(tag == self.tag_of(n as nat) && high == v as nat / p && rest == v as nat % p);
        w.push(tag + high as u8);
        push_be(w, rest, n - 1);
        assert(w@ =~= old(w)@ + self.bytes_of(v)->Ok_0);
        Ok(())
    }
}

/// Writes a string behind its length.
pub fn encode_string(enc: VarInt, v: &str, w: &mut Vec<u8>) -> (res: Result<(), EncodeError>)
    ensures
        wrote(old(w)@, final(w)@, res, string_field(enc, v@)),
        encode_utf8(v@).len() <= u64::MAX,
{
    let size: usize = v.as_bytes().len();
    assert(encode_utf8(v@).len() == size);
    encode_bytes(enc, v.as_bytes(), w)
}

/// Writes bytes behind their length.
pub fn encode_bytes(enc: VarInt, v: &[u8], w: &mut Vec<u8>) -> (res: Result<(), EncodeError>)
    ensures
        wrote(old(w)@, final(w)@, res, bytes_field(enc, v@)),
{
    enc.encode(v.len() as u64, w)?;
    w.extend_from_slice(v);
    assert(w@ =~= old(w)@ + bytes_field(enc, v@)->Ok_0);
    Ok(())
}

/// Writes a yes or no.
pub fn encode_bool(v: bool, w: &mut Vec<u8>) -> (res: Result<(), EncodeError>)
    ensures
        wrote(old(w)@, final(w)@, res, bool_field(v)),
{
    w.push(if v { 1u8 } else { 0u8 });
    assert(w@ =~= old(w)@ + bool_field(v)->Ok_0);
    Ok(())
}

/// Bytes that are read from the front.
pub struct Reader<'a> {
    data: &'a [u8],
}

impl<'a> View for Reader<'a> {
    type V = Seq<u8>;

    closed spec fn view(&self) -> Seq<u8> {
        self.data@
    }
}

impl<'a> Reader<'a> {
    /// Reads all of `data`.
    pub fn new(data: &'a [u8]) -> (r: Self)
        ensures
            r@ == data@,
    {
        Reader { data }
    }

    /// The number of bytes that are left.
    pub fn remaining(&self) -> (n: usize)
        ensures
            n == self@.len(),
    {
        self.data.len()
    }

    /// Whether any byte is left.
    pub fn has_remaining(&self) -> (b: bool)
        ensures
            b == (self@.len() > 0),
    {
        self.data.len() > 0
    }

    /// Reads one byte.
    pub fn u8(&mut self) -> (res: Result<u8, DecodeError>)
        ensures
            read(final(self)@, res, parse_u8(old(self)@)),
    {
        if self.data.len() == 0 {
            return Err(DecodeError::Short);
        }
        let b: u8 = self.data[0];
        self.data = slice_subrange(self.data, 1, self.data.len());
        Ok(b)
    }

    /// Reads two bytes, the high one first.
    pub fn u16(&mut self) -> (res: Result<u16, DecodeError>)
        ensures
            read(final(self)@, res, parse_u16(old(self)@)),
    {
        if self.data.len() < 2 {
            return Err(DecodeError::Short);
        }
        let v: u16 = self.data[0] as u16 * 256 + self.data[1] as u16;
        self.data = slice_subrange(self.data, 2, self.data.len());
        Ok(v)
    }

    /// Reads that many bytes.
    pub fn take(&mut self, n: usize) -> (res: Result<Vec<u8>, DecodeError>)
        ensures
            if old(self)@.len() < n {
                res == Err::<Vec<u8>, _>(DecodeError::Short)
            } else {
                &&& res matches Ok(v)
                &&& v@ == old(self)@.take(n as int)
                &&& final(self)@ == old(self)@.skip(n as int)
            },
    {
        if self.data.len() < n {
            return Err(DecodeError::Short);
        }
        let v = slice_to_vec(slice_subrange(self.data, 0, n));
        self.data = slice_subrange(self.data, n, self.data.len());
        Ok(v)
    }

    /// Reads a yes or no.
    pub fn bool(&mut self) -> (res: Result<bool, DecodeError>)
        ensures
            read(final(self)@, res, parse_bool(old(self)@)),
    {
        let b: u8 = self.u8()?;
        if b > 1 {
            return Err(DecodeError::InvalidValue);
        }
        Ok(b == 1)
    }

    /// Reads an integer.
    pub fn varint(&mut self, enc: VarInt) -> (res: Result<u64, DecodeError>)
        ensures
            read(final(self)@, res, enc.parse(old(self)@)),
    {
        proof {
            reveal(VarInt::parse);
        }
        if self.data.len() == 0 {
            return Err(DecodeError::Short);
        }
        let first: u8 = self.data[0];
        let (tag, n): (u8, usize) = match enc {
            VarInt::Quic => if first < 0x40 {
                (0, 1)
            } else if first < 0x80 {
                (0x40, 2)
            } else if first < 0xc0 {
                (0x80, 4)
            } else {
                (0xc0, 8)
            },
            VarInt::LeadingOnes => if first < 0x80 {
                (0, 1)
            } else if first < 0xc0 {
                (0x80, 2)
            } else if first < 0xe0 {
                (0xc0, 3)
            } else if first < 0xf0 {
                (0xe0, 4)
            } else if first < 0xf8 {
                (0xf0, 5)
            } else if first < 0xfc {
                (0xf8, 6)
            } else if first < 0xfe {
                return Err(DecodeError::InvalidValue);
            } else if first == 0xfe {
                (0xfe, 8)
            } else {
                (0xff, 9)
            },
        };
        assert(enc.width_at(first) == Some(n as nat) && tag == enc.tag_of(n as nat));
        if self.data.len() < n {
            return Err(DecodeError::Short);
        }
        let ghost high = first - tag;
        proof {
            lemma_pow256();
            assert(self.data@.subrange(1, 1) =~= Seq::<u8>::empty());
            let p = pow256((n - 1) as nat);
            assert((high + 1) * p <= 0x1_0000_0000_0000_0000) by (nonlinear_arith)
                requires
                    0 <= high <= 0xff,
                    p <= 0x100_0000_0000 || (high < 0x40 && p <= 0x100_0000_0000_0000) || (
                    high == 0 && p <= 0x1_0000_0000_0000_0000),
            ;
        }
        let mut v: u64 = (first - tag) as u64;
        let mut i: usize = 1;
        while i < n
            invariant
                1 <= i <= n <= 9,
                n <= self.data@.len(),
                v == high * pow256((i - 1) as nat) + be_value(self.data@.subrange(1, i as int)),
                v < (high + 1) * pow256((i - 1) as nat),
                (high + 1) * pow256((n - 1) as nat) <= 0x1_0000_0000_0000_0000,
                0 <= high,
            decreases n - i,
        {
            proof {
                let p = pow256((i - 1) as nat);
                assert(pow256(i as nat) == 256 * p);
                assert(high * (256 * p) == 256 * (high * p)) by (nonlinear_arith);
                assert((high + 1) * (256 * p) == 256 * ((high + 1) * p)) by (nonlinear_arith);
                lemma_pow256_monotonic(i as nat, (n - 1) as nat);
                assert((high + 1) * (256 * p) <= (high + 1) * pow256((n - 1) as nat))
                    by (nonlinear_arith)
                    requires
                        256 * p <= pow256((n - 1) as nat),
                        0 <= high,
                ;
                let longer = self.data@.subrange(1, i + 1);
                assert(longer.drop_last() =~= self.data@.subrange(1, i as int));
                assert(longer.last() == self.data@[i as int]);
            }
            v = v * 256 + self.data[i] as u64;
            i = i + 1;
        }
        self.data = slice_subrange(self.data, n, self.data.len());
        Ok(v)
    }

    /// Reads bytes that stand behind their length.
    pub fn bytes(&mut self, enc: VarInt) -> (res: Result<Vec<u8>, DecodeError>)
        ensures
            match parse_bytes(enc, old(self)@) {
                Ok((b, rest)) => res matches Ok(v) && v@ == b && final(self)@ == rest,
                Err(e) => res == Err::<Vec<u8>, _>(e),
            },
    {
        let n: u64 = self.varint(enc)?;
        if n > self.data.len() as u64 {
            return Err(DecodeError::Short);
        }
        self.take(n as usize)
    }

    /// Reads a string.
    pub fn string(&mut self, enc: VarInt) -> (res: Result<String, DecodeError>)
        ensures
            match parse_string(enc, old(self)@) {
                Ok((b, rest)) => res matches Ok(v) && v@ == b && final(self)@ == rest,
                Err(e) => res == Err::<String, _>(e),
            },
    {
        let b = self.bytes(enc)?;
        match string_from_utf8(b) {
            Some(s) => Ok(s),
            None => Err(DecodeError::InvalidString),
        }
    }
}

} // verus!
