//! The keyed digest over a content string plus a salt string, returned as
//! codec-encoded text.
//!
//! The digest is HMAC-SHA-512; its tag is named by the uninterpreted
//! function [`hmac_sha512`], a function of the key and message bytes alone.

use vstd::prelude::*;

use hmac::{KeyInit, Mac};

use crate::error::Error;
use crate::url_safe_base64;
use crate::url_safe_base64::{b64u_char, b64u_enc};

verus! {

use vstd::utf8::encode_utf8;

/// The HMAC-SHA-512 authentication tag over the given message bytes with the
/// given key bytes.
pub uninterp spec fn hmac_sha512(key: Seq<u8>, message: Seq<u8>) -> Seq<u8>;

/// What [`EncryptedEnvelope::into_b64u`] returns: the codec-encoded
/// HMAC-SHA-512 tag over the content bytes followed by the salt bytes.
pub open spec fn envelope_sign(content: Seq<char>, salt: Seq<char>, key: Seq<u8>) -> Seq<char> {
    b64u_enc(hmac_sha512(key, encode_utf8(content) + encode_utf8(salt)))
}

/// Relies on `hmac::Hmac<sha2::Sha512>`: the tag is a function of the key
/// and the concatenation of the updated byte slices alone, and is 64 bytes
/// (the SHA-512 output size). `new_from_slice` accepts keys of any length
/// and never fails for HMAC.
#[verifier::external_body]
fn hmac_sha512_tag(key: &[u8], content: &[u8], salt: &[u8]) -> (r: Vec<u8>)
    ensures
        r@ == hmac_sha512(key@, content@ + salt@),
        r@.len() == 64,
{
    let mut mac = <hmac::Hmac<sha2::Sha512> as KeyInit>::new_from_slice(key)
        .expect("HMAC accepts keys of any length");
    mac.update(content);
    mac.update(salt);
    mac.finalize().into_bytes().to_vec()
}

/// The (content, salt) pair that is signed as a unit by the keyed digest.
///
/// An ephemeral value object: constructed immediately before signing and
/// discarded after. Neither field carries a length constraint; the MAC
/// primitive handles arbitrary-length input.
#[derive(Debug)]
pub struct EncryptedEnvelope {
    /// Clear content.
    pub content: String,
    /// Clear salt.
    pub salt: String,
}

impl EncryptedEnvelope {
    /// Computes the keyed digest over the content bytes followed by the salt
    /// bytes and returns it as codec-encoded text: 88 characters of the
    /// url-safe alphabet, never a dot.
    ///
    /// Identical `(content, salt, key)` always produce identical output;
    /// verification recomputes rather than decrypts. The HMAC primitive
    /// accepts keys of any length, so this always succeeds.
    pub fn into_b64u(&self, key: &[u8]) -> (r: Result<String, Error>)
        ensures
            r matches Ok(s) && s@ == envelope_sign(self.content@, self.salt@, key@),
            r matches Ok(s) && s@.len() == 88,
            r matches Ok(s) && forall|i: int| 0 <= i < s@.len() ==> b64u_char(#[trigger] s@[i]),
            r matches Ok(s) && forall|i: int| 0 <= i < s@.len() ==> s@[i] != '.',
    {
        let tag = hmac_sha512_tag(key, self.content.as_str().as_bytes(), self.salt.as_str().as_bytes());
        Ok(url_safe_base64::encode(tag.as_slice()))
    }
}

} // verus!
