//! Images handed to the interface as data URLs.

use vstd::prelude::*;

use base64::Engine;

verus! {

/// The standard, padded base64 encoding of `b`.
pub uninterp spec fn base64_of(b: Seq<u8>) -> Seq<char>;

/// Relies on base64's `Engine::encode` with `general_purpose::STANDARD`:
/// standard alphabet, padded, so four characters for every started group of
/// three bytes. It panics when that length overflows `usize`.
#[verifier::external_body]
fn encode_standard(b: &Vec<u8>) -> (r: String)
    requires
        (b@.len() / 3) * 4 + 4 <= usize::MAX,
    ensures
        r@ == base64_of(b@),
        r@.len() == 4 * ((b@.len() + 2) / 3),
{
    base64::engine::general_purpose::STANDARD.encode(b)
}

/// A PNG data URL around base64 text `encoded`.
pub fn data_url_from_base64(encoded: &str) -> (r: String)
    ensures
        r@ == "data:image/png;base64,"@ + encoded@,
{
    String::from_str("data:image/png;base64,").concat(encoded)
}

/// The PNG data URL of image bytes `bytes`.
pub fn image_data_url(bytes: &Vec<u8>) -> (r: String)
    requires
        (bytes@.len() / 3) * 4 + 4 <= usize::MAX,
    ensures
        r@ == "data:image/png;base64,"@ + base64_of(bytes@),
{
    let encoded = encode_standard(bytes);
    data_url_from_base64(encoded.as_str())
}

} // verus!
