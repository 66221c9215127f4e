//! Base64 text, as the `base64` crate reads and writes it.
//!
//! Nothing here is proved: each function hands its argument to the crate, and
//! its contract names what comes back.
use base64::DecodeError as Base64Error;
use base64::Engine;
use vstd::prelude::*;

verus! {

/// `DecodeError` of the `base64` crate, carried as it comes.
#[verifier::external_type_specification]
#[verifier::external_body]
pub struct ExBase64Error(Base64Error);

/// A character of the URL-safe alphabet: a letter, a digit, `-` or `_`.
pub open spec fn is_url_safe(c: char) -> bool {
    ||| 'A' <= c <= 'Z'
    ||| 'a' <= c <= 'z'
    ||| '0' <= c <= '9'
    ||| c == '-'
    ||| c == '_'
}

/// A character of the URL-safe or of the standard alphabet.
pub open spec fn is_alphabet(c: char) -> bool {
    is_url_safe(c) || c == '+' || c == '/'
}

/// Every character of `text` is of the URL-safe alphabet.
pub open spec fn all_url_safe(text: Seq<char>) -> bool {
    forall|i: int| 0 <= i < text.len() ==> is_url_safe(#[trigger] text[i])
}

/// The unpadded URL-safe base64 text of `bytes`.
pub uninterp spec fn url_safe_text(bytes: Seq<u8>) -> Seq<char>;

/// The bytes that `text` stands for as unpadded URL-safe base64, if it is such a text.
pub uninterp spec fn url_safe_bytes(text: Seq<char>) -> Option<Seq<u8>>;

/// The bytes that `text` stands for as unpadded standard base64, if it is such a text.
pub uninterp spec fn standard_bytes(text: Seq<char>) -> Option<Seq<u8>>;

/// `URL_SAFE_NO_PAD.encode` of the `base64` crate. The contract names the
/// text and claims two things of it: it is written in the URL-safe alphabet,
/// and the same engine decodes it to the bytes it was made of.
#[verifier::external_body]
pub(crate) fn encode_url_safe(bytes: &[u8]) -> (r: String)
    ensures
        r@ == url_safe_text(bytes@),
        all_url_safe(r@),
        url_safe_bytes(r@) == Some(bytes@),
{
    base64::engine::general_purpose::URL_SAFE_NO_PAD.encode(bytes)
}

/// `URL_SAFE_NO_PAD.decode` of the `base64` crate, on the bytes of `text`.
/// The contract names the decoded bytes and claims one thing more: a text
/// that is decoded is written in the URL-safe alphabet, since any other byte,
/// padding too, is an error to this engine. It says nothing of the error.
#[verifier::external_body]
pub(crate) fn decode_url_safe(text: &str) -> (r: Result<Vec<u8>, Base64Error>)
    ensures
        match r {
            Ok(bytes) => url_safe_bytes(text@) == Some(bytes@) && all_url_safe(text@),
            Err(_) => url_safe_bytes(text@) is None,
        },
{
    base64::engine::general_purpose::URL_SAFE_NO_PAD.decode(text)
}

/// `STANDARD_NO_PAD.decode` of the `base64` crate, on the bytes of `text`.
/// The contract names the decoded bytes and says nothing of the error.
#[verifier::external_body]
pub(crate) fn decode_standard(text: &str) -> (r: Result<Vec<u8>, Base64Error>)
    ensures
        match r {
            Ok(bytes) => standard_bytes(text@) == Some(bytes@),
            Err(_) => standard_bytes(text@) is None,
        },
{
    base64::engine::general_purpose::STANDARD_NO_PAD.decode(text)
}

} // verus!
