//! Base64 text and UTF-8 text, as the `base64` crate and the standard
//! library write and read them.

use vstd::prelude::*;

verus! {

/// The text that `base64::engine::general_purpose::URL_SAFE_NO_PAD` makes
/// of `bytes`: URL-safe alphabet, no padding.
pub uninterp spec fn base64_url_no_pad(bytes: Seq<u8>) -> Seq<char>;

/// The text that `base64::engine::general_purpose::STANDARD` makes of
/// `bytes`: standard alphabet, padded.
pub uninterp spec fn base64_standard(bytes: Seq<u8>) -> Seq<char>;

/// What `base64::engine::general_purpose::STANDARD` reads out of `text`:
/// the bytes, or the words in which its error says why it is no base64.
pub uninterp spec fn base64_standard_decoded(text: Seq<char>) -> Result<Seq<u8>, Seq<char>>;

/// The text that `String::from_utf8_lossy` makes of `bytes`.
pub uninterp spec fn utf8_lossy_text(bytes: Seq<u8>) -> Seq<char>;

/// Encodes with `base64::Engine::encode` on
/// `base64::engine::general_purpose::URL_SAFE_NO_PAD`. The text depends on
/// the bytes alone. Inputs so long that the length of the text would not
/// fit the machine word, on which `encode` panics, are left out.
#[verifier::external_body]
pub(crate) fn encode_url_no_pad(bytes: &[u8]) -> (text: String)
    requires
        bytes@.len() <= usize::MAX / 2,
    ensures
        text@ == base64_url_no_pad(bytes@),
{
    base64::Engine::encode(&base64::engine::general_purpose::URL_SAFE_NO_PAD, bytes)
}

/// Encodes with `base64::Engine::encode` on
/// `base64::engine::general_purpose::STANDARD`. The text depends on the
/// bytes alone. Inputs so long that the length of the text would not fit
/// the machine word, on which `encode` panics, are left out.
#[verifier::external_body]
pub(crate) fn encode_standard(bytes: &[u8]) -> (text: String)
    requires
        bytes@.len() <= usize::MAX / 2,
    ensures
        text@ == base64_standard(bytes@),
{
    base64::Engine::encode(&base64::engine::general_purpose::STANDARD, bytes)
}

/// Decodes with `base64::Engine::decode` on
/// `base64::engine::general_purpose::STANDARD`. An error comes back as the
/// text that its `Display` writes. Bytes and error depend on the text
/// alone.
#[verifier::external_body]
pub(crate) fn decode_standard(text: &str) -> (bytes: Result<Vec<u8>, String>)
    ensures
        match bytes {
            Ok(b) => base64_standard_decoded(text@) == Ok::<Seq<u8>, Seq<char>>(b@),
            Err(e) => base64_standard_decoded(text@) == Err::<Seq<u8>, Seq<char>>(e@),
        },
{
    match base64::Engine::decode(&base64::engine::general_purpose::STANDARD, text) {
        Ok(bytes) => Ok(bytes),
        Err(error) => Err(error.to_string()),
    }
}

/// Reads bytes as UTF-8 with `String::from_utf8_lossy`, which puts U+FFFD
/// in the place of what is no UTF-8. The text depends on the bytes alone.
#[verifier::external_body]
pub(crate) fn utf8_lossy(bytes: &[u8]) -> (text: String)
    ensures
        text@ == utf8_lossy_text(bytes@),
{
    String::from_utf8_lossy(bytes).into_owned()
}

} // verus!
