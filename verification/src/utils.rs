//! Small helpers around captured image bytes.

use vstd::prelude::*;

verus! {

/// What the base64 crate's standard, padded encoding of a byte string
/// reads as.
pub uninterp spec fn base64_of(bytes: Seq<u8>) -> Seq<char>;

/// Relies on base64::encode (the standard alphabet, padded): the encoding
/// depends on the bytes alone, and spells four characters for every three
/// bytes begun.
#[verifier::external_body]
fn encode_base64(img_data: &Vec<u8>) -> (r: String)
    ensures
        r@ == base64_of(img_data@),
        r@.len() == 4 * ((img_data@.len() + 2) / 3),
{
    base64::encode(img_data)
}

/// Encodes captured image bytes as base64 text.
pub fn img_to_base64(img_data: &Vec<u8>) -> (r: String)
    ensures
        r@ == base64_of(img_data@),
        r@.len() == 4 * ((img_data@.len() + 2) / 3),
{
    encode_base64(img_data)
}

} // verus!
