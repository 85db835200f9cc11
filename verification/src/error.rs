use vstd::prelude::*;

verus! {

/// The closed set of failures that the library's operations report.
///
/// Every error is returned to the immediate caller; none is swallowed.
/// Callers may distinguish malformed, forged and expired credentials, or
/// collapse all variants into a single "unauthorized" answer at the edge.
#[derive(Debug, PartialEq, Eq)]
pub enum Error {
    /// Malformed base64 text, or decoded bytes that are not valid UTF-8.
    B64DecodingFailure,
    /// Timestamp text that does not parse as RFC 3339; carries the
    /// offending text for diagnostics.
    UTCParsingFailure(String),
    /// Key material rejected by the MAC primitive at initialization.
    HmacKeyFailure,
    /// The recomputed password digest differs from the stored reference.
    PasswordMismatch,
    /// A token string with a number of dot-delimited fields other than three.
    TokenFormatInvalid,
    /// The token's first field failed to decode.
    TokenIdentifierDecodeFailure,
    /// The token's second field failed to decode.
    TokenExpirationDecodeFailure,
    /// The recomputed signature differs from the token's signature.
    TokenSignatureMismatch,
    /// The token's expiration field does not parse as a timestamp.
    TokenExpirationNotIso,
    /// The token's signature is valid, but its expiration lies in the past.
    TokenExpired,
}

impl Error {
    /// A short textual name for the error, mirroring its variant.
    pub fn describe(&self) -> (r: &'static str)
        ensures
            self is B64DecodingFailure ==> r@ == "B64DecodingFailure"@,
            self is UTCParsingFailure ==> r@ == "UTCParsingFailure"@,
            self is HmacKeyFailure ==> r@ == "HmacKeyFailure"@,
            self is PasswordMismatch ==> r@ == "PasswordMismatch"@,
            self is TokenFormatInvalid ==> r@ == "TokenFormatInvalid"@,
            self is TokenIdentifierDecodeFailure ==> r@ == "TokenIdentifierDecodeFailure"@,
            self is TokenExpirationDecodeFailure ==> r@ == "TokenExpirationDecodeFailure"@,
            self is TokenSignatureMismatch ==> r@ == "TokenSignatureMismatch"@,
            self is TokenExpirationNotIso ==> r@ == "TokenExpirationNotIso"@,
            self is TokenExpired ==> r@ == "TokenExpired"@,
    {
        match self {
            Error::B64DecodingFailure => "B64DecodingFailure",
            Error::UTCParsingFailure(_) => "UTCParsingFailure",
            Error::HmacKeyFailure => "HmacKeyFailure",
            Error::PasswordMismatch => "PasswordMismatch",
            Error::TokenFormatInvalid => "TokenFormatInvalid",
            Error::TokenIdentifierDecodeFailure => "TokenIdentifierDecodeFailure",
            Error::TokenExpirationDecodeFailure => "TokenExpirationDecodeFailure",
            Error::TokenSignatureMismatch => "TokenSignatureMismatch",
            Error::TokenExpirationNotIso => "TokenExpirationNotIso",
            Error::TokenExpired => "TokenExpired",
        }
    }
}

} // verus!
