use vstd::prelude::*;

verus! {

/// What base64 encoding (standard alphabet, no padding) makes of a byte
/// sequence.  Named rather than spelled out; the length clause of the encoder
/// below is what the callers' arithmetic rests on.
pub uninterp spec fn base64_of(bytes: Seq<u8>) -> Seq<char>;

/// Relies on base64's `STANDARD_NO_PAD` engine: standard-alphabet encoding
/// without padding, whose output length is four characters for every three
/// input bytes, rounded up per the remainder.  The encoder panics only when
/// that length overflows `usize`, which the bound on the input excludes.
#[verifier::external_body]
fn base64_encode_no_pad(bytes: &Vec<u8>) -> (r: String)
    requires
        bytes@.len() <= usize::MAX as int / 4 * 3,
    ensures
        r@ == base64_of(bytes@),
        r@.len() == (bytes@.len() * 4 + 2) / 3,
{
    base64::Engine::encode(&base64::engine::general_purpose::STANDARD_NO_PAD, bytes.as_slice())
}

/// Encodes byte content — a rendered image, a voice sample — for embedding
/// in a JSON response.
pub fn binary_to_base64(bytes: &Vec<u8>) -> (r: String)
    requires
        bytes@.len() <= usize::MAX as int / 4 * 3,
    ensures
        r@ == base64_of(bytes@),
        r@.len() == (bytes@.len() * 4 + 2) / 3,
        bytes@.len() > 0 ==> r@.len() > 0,
{
    base64_encode_no_pad(bytes)
}

} // verus!
