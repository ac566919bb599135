use vstd::prelude::*;

verus! {

/// Standard padded base64 text of a byte string.
pub uninterp spec fn base64_of(b: Seq<u8>) -> Seq<char>;

/// Length of standard padded base64 text: four characters per started group
/// of three bytes.
pub open spec fn base64_len(n: nat) -> nat {
    4 * ((n + 2) / 3)
}

/// Relies on base64's `general_purpose::STANDARD` engine and `Engine::encode`:
/// padded standard base64, whose length `encoded_len` gives; it panics only
/// when that length overflows `usize`.
#[verifier::external_body]
fn standard_base64(b: &Vec<u8>) -> (r: String)
    requires
        base64_len(b@.len()) <= usize::MAX,
    ensures
        r@ == base64_of(b@),
        r@.len() == base64_len(b@.len()),
{
    base64::Engine::encode(&base64::engine::general_purpose::STANDARD, b)
}

/// Encodes raw image bytes as standard padded base64.
pub fn base64_bytes(bytes: &Vec<u8>) -> (r: String)
    requires
        base64_len(bytes@.len()) <= usize::MAX,
    ensures
        r@ == base64_of(bytes@),
        r@.len() == base64_len(bytes@.len()),
{
    standard_base64(bytes)
}

} // verus!
