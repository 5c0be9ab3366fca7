use vstd::prelude::*;
use base64::Engine;

verus! {

/// The standard base64 text of a byte sequence: a function of the
/// bytes alone.
pub uninterp spec fn base64_of(bytes: Seq<u8>) -> Seq<char>;

/// Relies on the base64 crate's STANDARD engine: the RFC 4648 alphabet
/// with padding, four output characters for every started block of
/// three input bytes.
#[verifier::external_body]
pub fn encode_base64(bytes: &Vec<u8>) -> (r: String)
    ensures
        r@ == base64_of(bytes@),
        r@.len() == 4 * ((bytes@.len() + 2) / 3),
{
    base64::engine::general_purpose::STANDARD.encode(bytes.as_slice())
}

} // verus!
