//! The namespace of a track: its path, one string for each part.

use crate::coding::{
    cat, encode_string, parse_string, string_field, wrote, DecodeError, EncodeError, Reader, VarInt,
};
use crate::ietf::Version;
use crate::path::{is_part, is_path, lemma_one_part, path_parts, Path};
use vstd::prelude::*;
use vstd::utf8::encode_utf8;

verus! {

/// The strings of the parts, one after another.
pub open spec fn fields(enc: VarInt, parts: Seq<Seq<char>>) -> Result<Seq<u8>, EncodeError>
    decreases parts.len(),
{
    if parts.len() == 0 {
        Ok(Seq::empty())
    } else {
        cat(string_field(enc, parts[0]), fields(enc, parts.skip(1)))
    }
}

/// A namespace: the number of its parts, and the parts.
pub open spec fn namespace_field(enc: VarInt, parts: Seq<Seq<char>>) -> Result<
    Seq<u8>,
    EncodeError,
> {
    cat(enc.bytes_of(parts.len() as u64), fields(enc, parts))
}

/// The parts of `n` strings at the start of `s`, and what follows them. A string that holds
/// slashes is more than one part.
pub open spec fn parse_fields(enc: VarInt, s: Seq<u8>, n: nat) -> Result<
    (Seq<Seq<char>>, Seq<u8>),
    DecodeError,
>
    decreases n,
{
    if n == 0 {
        Ok((Seq::empty(), s))
    } else {
        match parse_string(enc, s) {
            Err(e) => Err(e),
            Ok((field, rest)) => match parse_fields(enc, rest, (n - 1) as nat) {
                Err(e) => Err(e),
                Ok((parts, rest)) => Ok((path_parts(field) + parts, rest)),
            },
        }
    }
}

/// The namespace at the start of `s`, and what follows it.
pub open spec fn parse_namespace(enc: VarInt, s: Seq<u8>) -> Result<
    (Seq<Seq<char>>, Seq<u8>),
    DecodeError,
> {
    match enc.parse(s) {
        Err(e) => Err(e),
        Ok((n, rest)) => parse_fields(enc, rest, n as nat),
    }
}

proof fn lemma_fields_round_trip(enc: VarInt, parts: Seq<Seq<char>>, rest: Seq<u8>)
    requires
        is_path(parts),
        fields(enc, parts) is Ok,
    ensures
        parse_fields(enc, fields(enc, parts)->Ok_0 + rest, parts.len()) == Ok::<_, DecodeError>(
            (parts, rest),
        ),
    decreases parts.len(),
{
    if parts.len() == 0 {
        assert(fields(enc, parts)->Ok_0 + rest =~= rest);
        assert(parts =~= Seq::empty());
    } else {
        let first = string_field(enc, parts[0])->Ok_0;
        let more = fields(enc, parts.skip(1))->Ok_0;
        crate::coding::lemma_string_round_trip(enc, parts[0], more + rest);
        assert(first + more + rest =~= first + (more + rest));
        assert forall|i: int| 0 <= i < parts.skip(1).len() implies is_part(
            #[trigger] parts.skip(1)[i],
        ) && encode_utf8(parts.skip(1)[i]).len() <= u64::MAX by {
            assert(parts.skip(1)[i] == parts[i + 1]);
        }
        lemma_fields_round_trip(enc, parts.skip(1), rest);
        lemma_one_part(parts[0]);
        assert(seq![parts[0]] + parts.skip(1) =~= parts);
    }
}

/// Of a namespace that was written, the same is read, and nothing of what follows.
pub proof fn lemma_namespace_round_trip(enc: VarInt, parts: Seq<Seq<char>>, rest: Seq<u8>)
    requires
        is_path(parts),
        namespace_field(enc, parts) is Ok,
    ensures
        parse_namespace(enc, namespace_field(enc, parts)->Ok_0 + rest) == Ok::<_, DecodeError>(
            (parts, rest),
        ),
{
    let count = enc.bytes_of(parts.len() as u64)->Ok_0;
    let more = fields(enc, parts)->Ok_0;
    enc.lemma_round_trip(parts.len() as u64, more + rest);
    assert(count + more + rest =~= count + (more + rest));
    lemma_fields_round_trip(enc, parts, rest);
}

/// Writes the namespace of a path.
pub fn encode_namespace(w: &mut Vec<u8>, path: &Path, version: Version) -> (res: Result<
    (),
    EncodeError,
>)
    ensures
        wrote(old(w)@, final(w)@, res, namespace_field(version.varint(), path@)),
        is_path(path@),
{
    let enc = version.varint();
    let count: usize = path.len();
    enc.encode(count as u64, w)?;
    let ghost count = enc.bytes_of(path@.len() as u64)->Ok_0;
    let ghost done = Seq::<u8>::empty();
    let mut i: usize = 0;
    proof {
        assert(path@.skip(0) =~= path@);
        assert(w@ =~= old(w)@ + (count + done));
        if fields(enc, path@) is Ok {
            assert(done + fields(enc, path@)->Ok_0 =~= fields(enc, path@)->Ok_0);
        }
    }
    while i < path.len()
        invariant
            i <= path@.len(),
            is_path(path@),
            enc == version.varint(),
            enc.bytes_of(path@.len() as u64) == Ok::<_, EncodeError>(count),
            w@ == old(w)@ + (count + done),
            fields(enc, path@) == cat(Ok(done), fields(enc, path@.skip(i as int))),
        decreases path@.len() - i,
    {
        let ghost rest = path@.skip(i as int);
        let ghost before = w@;
        let ghost one = string_field(enc, path@[i as int]);
        assert(rest[0] == path@[i as int]);
        assert(rest.skip(1) =~= path@.skip(i + 1));
        match encode_string(enc, path.part(i), w) {
            Ok(()) => {},
            Err(e) => {
                assert(old(w)@.is_prefix_of(before));
                return Err(e);
            },
        }
        proof {
            let more = fields(enc, path@.skip(i + 1));
            assert(w@ =~= old(w)@ + (count + (done + one->Ok_0)));
            if more is Ok {
                assert(done + (one->Ok_0 + more->Ok_0) =~= (done + one->Ok_0) + more->Ok_0);
            }
            done = done + one->Ok_0;
        }
        i = i + 1;
    }
    assert(path@.skip(i as int) =~= Seq::<Seq<char>>::empty());
    assert(done + Seq::<u8>::empty() =~= done);
    Ok(())
}

/// Reads a namespace as a path.
pub fn decode_namespace(r: &mut Reader, version: Version) -> (res: Result<Path, DecodeError>)
    ensures
        match parse_namespace(version.varint(), old(r)@) {
            Ok((parts, rest)) => res matches Ok(path) && path@ == parts && final(r)@ == rest,
            Err(e) => res == Err::<Path, _>(e),
        },
{
    let enc = version.varint();
    let mut n: u64 = r.varint(enc)?;
    let ghost start = r@;
    let ghost count = n as nat;
    let mut path = Path::empty();
    proof {
        if parse_fields(enc, start, count) is Ok {
            let parts = parse_fields(enc, start, count)->Ok_0.0;
            assert(Seq::<Seq<char>>::empty() + parts =~= parts);
        }
    }
    while n > 0
        invariant
            enc == version.varint(),
            parse_namespace(enc, old(r)@) == parse_fields(enc, start, count),
            match parse_fields(enc, r@, n as nat) {
                Ok((parts, rest)) => parse_fields(enc, start, count) == Ok::<_, DecodeError>(
                    (path@ + parts, rest),
                ),
                Err(e) => parse_fields(enc, start, count) == Err::<(Seq<Seq<char>>, Seq<u8>), _>(e),
            },
        decreases n,
    {
        let ghost before = r@;
        let field = r.string(enc)?;
        let ghost had = path@;
        path.extend(field.as_str());
        n = n - 1;
        proof {
            if parse_fields(enc, r@, n as nat) is Ok {
                let parts = parse_fields(enc, r@, n as nat)->Ok_0.0;
                assert(had + path_parts(field@) + parts =~= had + (path_parts(field@) + parts));
            }
        }
    }
    assert(path@ + Seq::<Seq<char>>::empty() =~= path@);
    Ok(path)
}

/// Every string of a namespace is taken apart at its slashes, and its parts stand before those of
/// the strings behind it.
pub proof fn law_strings_are_taken_apart(
    enc: VarInt,
    field: Seq<char>,
    more: Seq<u8>,
    n: nat,
)
    requires
        encode_utf8(field).len() <= u64::MAX,
        string_field(enc, field) is Ok,
    ensures
        parse_fields(enc, more, 0) == Ok::<_, DecodeError>((Seq::<Seq<char>>::empty(), more)),
        parse_fields(enc, more, n) is Ok ==> parse_fields(
            enc,
            string_field(enc, field)->Ok_0 + more,
            n + 1,
        ) == Ok::<_, DecodeError>(
            (
                path_parts(field) + parse_fields(enc, more, n)->Ok_0.0,
                parse_fields(enc, more, n)->Ok_0.1,
            ),
        ),
        parse_fields(enc, more, n) is Err ==> parse_fields(
            enc,
            string_field(enc, field)->Ok_0 + more,
            n + 1,
        ) is Err,
{
    crate::coding::lemma_string_round_trip(enc, field, more);
}

} // verus!
