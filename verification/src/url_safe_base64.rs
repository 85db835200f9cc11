//! Url-safe, padded base64 encoding and decoding between raw bytes and text,
//! with UTF-8 validation on decode.
//!
//! The encoding itself is done by `base64ct`'s `Base64Url` alphabet
//! (`A-Z a-z 0-9 - _`, `=` padding); its results are named by the
//! uninterpreted functions [`b64u_enc`] and [`b64u_dec`], and everything the
//! rest of the library needs of them is stated on the two trusted wrappers
//! below.

use vstd::prelude::*;

use base64ct::{Base64Url, Encoding};

use crate::error::Error;

verus! {

use vstd::utf8::{valid_utf8, decode_utf8};

/// The text that url-safe padded base64 encoding produces for the given bytes.
pub uninterp spec fn b64u_enc(bytes: Seq<u8>) -> Seq<char>;

/// The bytes that url-safe padded base64 decoding recovers from the given
/// text, or `None` when the text is not a well-formed encoding.
pub uninterp spec fn b64u_dec(text: Seq<char>) -> Option<Seq<u8>>;

/// What [`decode`] recovers from the given text: the base64-decoded bytes
/// read as UTF-8 text, or `None` when either step fails.
pub open spec fn decoded_text(text: Seq<char>) -> Option<Seq<char>> {
    match b64u_dec(text) {
        Some(bytes) => if valid_utf8(bytes) {
            Some(decode_utf8(bytes))
        } else {
            None
        },
        None => None,
    }
}

/// A character of the url-safe base64 alphabet, or its `=` padding:
/// `A-Z`, `a-z`, `0-9`, `-`, `_` and `=`. The dot that delimits token
/// fields is not among them.
pub open spec fn b64u_char(c: char) -> bool {
    ||| ('A' as u32) <= (c as u32) && (c as u32) <= ('Z' as u32)
    ||| ('a' as u32) <= (c as u32) && (c as u32) <= ('z' as u32)
    ||| ('0' as u32) <= (c as u32) && (c as u32) <= ('9' as u32)
    ||| c == '-'
    ||| c == '_'
    ||| c == '='
}

/// Deterministic, padded, url-safe base64 encoding. The output length is a
/// pure function of the input length; there is no error path.
///
/// Relies on `base64ct::Base64Url::encode_string`: the output is a function
/// of the input bytes alone, is `4 * ceil(len / 3)` characters of the
/// url-safe alphabet (`A-Z a-z 0-9 - _` with `=` padding, so never `'.'`),
/// and `Base64Url::decode_vec` recovers the input bytes from it exactly.
/// Its only panic is on a padded length above `usize::MAX`, which no slice
/// (at most `isize::MAX` bytes) can reach.
#[verifier::external_body]
pub fn encode(content: &[u8]) -> (r: String)
    ensures
        r@ == b64u_enc(content@),
        r@.len() == 4 * ((content@.len() + 2) / 3),
        forall|i: int| 0 <= i < r@.len() ==> b64u_char(#[trigger] r@[i]),
        forall|i: int| 0 <= i < r@.len() ==> r@[i] != '.',
        b64u_dec(r@) == Some(content@),
{
    Base64Url::encode_string(content)
}

/// Relies on `base64ct::Base64Url::decode_vec`: it returns exactly the bytes
/// whose padded url-safe base64 encoding is the input text, and an error when
/// the text is no such encoding.
#[verifier::external_body]
fn decode_bytes(content: &str) -> (r: Option<Vec<u8>>)
    ensures
        match r {
            Some(bytes) => b64u_dec(content@) == Some(bytes@),
            None => b64u_dec(content@) is None,
        },
{
    match Base64Url::decode_vec(content) {
        Ok(bytes) => Some(bytes),
        Err(_) => None,
    }
}

/// Relies on `std::string::String::from_utf8`: it returns the string holding
/// exactly the given bytes when they are valid UTF-8, and an error otherwise.
#[verifier::external_body]
fn bytes_to_utf8(bytes: Vec<u8>) -> (r: Option<String>)
    ensures
        match r {
            Some(s) => valid_utf8(bytes@) && s@ == decode_utf8(bytes@),
            None => !valid_utf8(bytes@),
        },
{
    String::from_utf8(bytes).ok()
}

/// Reverses [`encode`], additionally requiring the decoded bytes to be valid
/// UTF-8 text. Malformed base64 and invalid UTF-8 both yield the single
/// decoding-failure error; the two causes are not distinguished.
pub fn decode(content: &str) -> (r: Result<String, Error>)
    ensures
        match r {
            Ok(s) => decoded_text(content@) == Some(s@),
            Err(e) => decoded_text(content@) is None && e == Error::B64DecodingFailure,
        },
{
    match decode_bytes(content) {
        Some(bytes) => match bytes_to_utf8(bytes) {
            Some(s) => Ok(s),
            None => Err(Error::B64DecodingFailure),
        },
        None => Err(Error::B64DecodingFailure),
    }
}

} // verus!
