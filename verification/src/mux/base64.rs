//! Bytes as text.

use base64::Engine;
use vstd::prelude::*;

verus! {

/// The standard base64 text of bytes.
pub uninterp spec fn base64_text(data: Seq<u8>) -> Seq<char>;

/// The bytes that a standard base64 text stands for, or what is wrong with it.
pub uninterp spec fn base64_bytes(text: Seq<char>) -> Result<Seq<u8>, Seq<char>>;

/// `base64::Engine::encode` of the standard engine: the text of the bytes. The same engine reads
/// it back as the same bytes.
#[verifier::external_body]
pub(crate) fn encode(data: &[u8]) -> (text: String)
    ensures
        text@ == base64_text(data@),
        base64_bytes(text@) is Ok,
        base64_bytes(text@)->Ok_0 == data@,
{
    base64::engine::general_purpose::STANDARD.encode(data)
}

/// `base64::Engine::decode` of the standard engine: the bytes of the text, or what is wrong with
/// it.
#[verifier::external_body]
pub(crate) fn decode(text: &str) -> (res: Result<Vec<u8>, String>)
    ensures
        match res {
            Ok(data) => base64_bytes(text@) == Ok::<_, Seq<char>>(data@),
            Err(e) => base64_bytes(text@) == Err::<Seq<u8>, _>(e@),
        },
{
    base64::engine::general_purpose::STANDARD.decode(text).map_err(|e| e.to_string())
}

} // verus!
