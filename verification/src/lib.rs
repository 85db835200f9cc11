//! An authenticated, expiring token protocol and a password-verification
//! primitive built on a keyed message-authentication scheme.
//!
//! The library stores passwords as one-way, salt-bound, keyed digests and
//! issues compact, self-contained, tamper-evident tokens carrying an
//! identifier and an expiration timestamp. The digest itself comes from
//! HMAC-SHA-512, text encoding from url-safe base64, and timestamps from
//! RFC 3339; each outside call stands behind a trusted item whose contract
//! states what the rest of the library is proved against.

pub mod envelope;
pub mod error;
pub mod url_safe_base64;
pub mod utc_fixed;

pub use envelope::EncryptedEnvelope;
pub use error::Error;
pub use utc_fixed::Timestamp;

use vstd::prelude::*;

verus! {

use vstd::string::{StringExecFns, StrSliceExecFns};
use vstd::utf8::{encode_utf8, encode_utf8_decode_utf8};

use crate::envelope::envelope_sign;
use crate::url_safe_base64::{b64u_char, b64u_enc, decoded_text};
use crate::utc_fixed::{rfc3339_instant, rfc3339_render, MAX_DURATION_SECONDS};

// -----------------------------------------------------------------------------
// Comparison of secrets
// -----------------------------------------------------------------------------

/// Compares two strings for equality in constant time: every byte of the
/// shorter common length is examined, with no early exit on the first
/// difference, so the running time leaks nothing about how many leading
/// bytes matched.
pub fn constant_time_str_eq(a: &str, b: &str) -> (r: bool)
    ensures
        r == (a@ == b@),
{
    let a_bytes = a.as_bytes();
    let b_bytes = b.as_bytes();
    if a_bytes.len() != b_bytes.len() {
        proof {
            if a@ == b@ {
                assert(encode_utf8(a@) == encode_utf8(b@));
            }
        }
        return false;
    }
    let n = a_bytes.len();
    let mut diff: u8 = 0;
    let mut i: usize = 0;
    proof {
        assert(a_bytes@.subrange(0, 0) =~= b_bytes@.subrange(0, 0));
    }
    while i < n
        invariant
            a_bytes@ == encode_utf8(a@),
            b_bytes@ == encode_utf8(b@),
            a_bytes@.len() == n,
            b_bytes@.len() == n,
            i <= n,
            (diff == 0) <==> a_bytes@.subrange(0, i as int) == b_bytes@.subrange(0, i as int),
        decreases n - i,
    {
        let x = a_bytes[i];
        let y = b_bytes[i];
        proof {
            assert(((diff | (x ^ y)) == 0) == (diff == 0 && x == y)) by (bit_vector);
            let prefix_a = a_bytes@.subrange(0, i as int);
            let prefix_b = b_bytes@.subrange(0, i as int);
            assert(a_bytes@.subrange(0, i as int + 1) =~= prefix_a.push(x));
            assert(b_bytes@.subrange(0, i as int + 1) =~= prefix_b.push(y));
            if prefix_a == prefix_b && x == y {
                assert(prefix_a.push(x) =~= prefix_b.push(y));
            }
            if prefix_a.push(x) == prefix_b.push(y) {
                assert(prefix_a.push(x)[i as int] == x);
                assert(prefix_b.push(y)[i as int] == y);
                assert(prefix_a =~= prefix_b) by {
                    assert(forall|k: int|
                        0 <= k < i ==> prefix_a[k] == #[trigger] prefix_b[k]) by {
                        assert(forall|k: int|
                            0 <= k < i ==> prefix_a.push(x)[k] == #[trigger] prefix_b.push(y)[k]);
                    }
                }
            }
        }
        diff = diff | (x ^ y);
        i += 1;
    }
    proof {
        assert(a_bytes@.subrange(0, n as int) =~= a_bytes@);
        assert(b_bytes@.subrange(0, n as int) =~= b_bytes@);
        if encode_utf8(a@) == encode_utf8(b@) {
            encode_utf8_decode_utf8(a@);
            encode_utf8_decode_utf8(b@);
        }
    }
    diff == 0
}

// -----------------------------------------------------------------------------
// Passwords
// -----------------------------------------------------------------------------

/// The fixed format-version tag that every password digest carries, so that
/// future changes to the digest scheme remain distinguishable from legacy
/// stored values.
pub open spec fn password_tag() -> Seq<char> {
    seq!['#', '0', '1', '#']
}

/// What [`encrypt_password`] returns: the version tag followed by the keyed
/// digest of the envelope.
pub open spec fn password_digest(content: Seq<char>, salt: Seq<char>, key: Seq<u8>) -> Seq<char> {
    password_tag() + envelope_sign(content, salt, key)
}

/// Produces the versioned password digest for the envelope: the keyed
/// digest prefixed with the fixed format-version tag `"#01#"`.
pub fn encrypt_password(
    encrypted_content: &EncryptedEnvelope,
    password_key: &[u8],
) -> (r: Result<String, Error>)
    ensures
        r matches Ok(p) && p@ == password_digest(
            encrypted_content.content@,
            encrypted_content.salt@,
            password_key@,
        ),
{
    let digest = match encrypted_content.into_b64u(password_key) {
        Ok(digest) => digest,
        Err(e) => return Err(e),
    };
    let mut tagged = String::from_str("#01#");
    proof {
        reveal_strlit("#01#");
        assert(tagged@ =~= password_tag());
    }
    tagged.append(digest.as_str());
    Ok(tagged)
}

/// Recomputes the password digest for the envelope and compares it, in
/// constant time, against the stored reference. Any mismatch, including a
/// missing or different version tag, yields `PasswordMismatch`; no
/// distinction is made between a wrong password and a different format
/// version.
pub fn validate_password(
    encrypted_content: &EncryptedEnvelope,
    password_reference: &str,
    password_key: &[u8],
) -> (r: Result<(), Error>)
    ensures
        r is Ok <==> password_reference@ == password_digest(
            encrypted_content.content@,
            encrypted_content.salt@,
            password_key@,
        ),
        r is Err ==> r->Err_0 == Error::PasswordMismatch,
{
    let password = match encrypt_password(encrypted_content, password_key) {
        Ok(password) => password,
        Err(e) => return Err(e),
    };
    if constant_time_str_eq(password.as_str(), password_reference) {
        Ok(())
    } else {
        Err(Error::PasswordMismatch)
    }
}

// -----------------------------------------------------------------------------
// Tokens
// -----------------------------------------------------------------------------

/// What [`token_sign_into_b64u`] returns: the keyed digest over the
/// codec-encoded identifier, a dot, and the codec-encoded expiration. The
/// signature covers the encoded forms, not the raw text, so a raw
/// identifier holding a literal dot can never be confused with a field
/// boundary.
pub open spec fn token_sign(
    identifier: Seq<char>,
    expiration: Seq<char>,
    salt: Seq<char>,
    key: Seq<u8>,
) -> Seq<char> {
    envelope_sign(
        b64u_enc(encode_utf8(identifier)) + seq!['.'] + b64u_enc(encode_utf8(expiration)),
        salt,
        key,
    )
}

/// Creates the token signature from the token parts plus the salt: the
/// keyed digest of `encode(identifier) + "." + encode(expiration)`, as 88
/// characters of the url-safe alphabet — never a dot, so the signature can
/// stand as the third field of the wire form.
pub fn token_sign_into_b64u(
    identifier: &str,
    expiration: &str,
    salt: &str,
    key: &[u8],
) -> (r: Result<String, Error>)
    ensures
        r matches Ok(s) && s@ == token_sign(identifier@, expiration@, salt@, key@),
        r matches Ok(s) && s@.len() == 88,
        r matches Ok(s) && forall|i: int| 0 <= i < s@.len() ==> b64u_char(#[trigger] s@[i]),
        r matches Ok(s) && dot_free(s@),
{
    let mut content = url_safe_base64::encode(identifier.as_bytes());
    content.append(".");
    let expiration_encoded = url_safe_base64::encode(expiration.as_bytes());
    content.append(expiration_encoded.as_str());
    proof {
        reveal_strlit(".");
        assert(content@ =~= b64u_enc(encode_utf8(identifier@)) + seq!['.'] + b64u_enc(
            encode_utf8(expiration@),
        ));
    }
    let signed_envelope = EncryptedEnvelope { content, salt: String::from_str(salt) };
    signed_envelope.into_b64u(key)
}

/// Holds when the text contains no dot at all.
pub open spec fn dot_free(s: Seq<char>) -> bool {
    forall|i: int| 0 <= i < s.len() ==> s[i] != '.'
}

/// How many dots the text contains.
pub open spec fn dot_count(s: Seq<char>) -> nat
    decreases s.len(),
{
    if s.len() == 0 {
        0
    } else {
        (if s[0] == '.' {
            1nat
        } else {
            0nat
        }) + dot_count(s.subrange(1, s.len() as int))
    }
}

/// The segments of the text split on every dot, as `str::split('.')` yields
/// them: always at least one segment, and adjacent, leading or trailing
/// dots produce empty segments.
pub open spec fn split_dots(s: Seq<char>) -> Seq<Seq<char>>
    decreases s.len(),
{
    if s.len() == 0 {
        seq![Seq::<char>::empty()]
    } else if s[0] == '.' {
        seq![Seq::<char>::empty()] + split_dots(s.subrange(1, s.len() as int))
    } else {
        let rest = split_dots(s.subrange(1, s.len() as int));
        seq![seq![s[0]] + rest[0]] + rest.subrange(1, rest.len() as int)
    }
}

/// Splitting always yields one segment more than the number of dots.
proof fn lemma_split_dots_count(s: Seq<char>)
    ensures
        split_dots(s).len() == dot_count(s) + 1,
    decreases s.len(),
{
    if s.len() > 0 {
        lemma_split_dots_count(s.subrange(1, s.len() as int));
    }
}

/// A text is dot-free exactly when its dot count is zero.
proof fn lemma_dot_count_zero(s: Seq<char>)
    ensures
        (dot_count(s) == 0) <==> dot_free(s),
    decreases s.len(),
{
    if s.len() > 0 {
        lemma_dot_count_zero(s.subrange(1, s.len() as int));
        if dot_count(s) == 0 {
            assert forall|i: int| 0 <= i < s.len() implies s[i] != '.' by {
                if i > 0 {
                    assert(s.subrange(1, s.len() as int)[i - 1] == s[i]);
                }
            }
        } else {
            if s[0] != '.' {
                let tail = s.subrange(1, s.len() as int);
                assert(!dot_free(tail));
                let j = choose|j: int| 0 <= j < tail.len() && tail[j] == '.';
                assert(s[j + 1] == '.');
            }
        }
    }
}

/// A dot-free text splits into the single segment that is the text itself.
proof fn lemma_split_dots_free(s: Seq<char>)
    requires
        dot_free(s),
    ensures
        split_dots(s) =~= seq![s],
    decreases s.len(),
{
    if s.len() == 0 {
        assert(s =~= Seq::<char>::empty());
    } else {
        let tail = s.subrange(1, s.len() as int);
        assert(dot_free(tail)) by {
            assert(forall|i: int| 0 <= i < tail.len() ==> tail[i] == s[i + 1]);
        }
        lemma_split_dots_free(tail);
        assert(seq![s[0]] + tail =~= s);
        assert(split_dots(s) =~= seq![s]);
    }
}

/// Splitting at the first dot: the dot-free prefix becomes the first
/// segment, and the rest of the text is split on its own.
proof fn lemma_split_dots_first(s: Seq<char>, i: int)
    requires
        0 <= i < s.len(),
        s[i] == '.',
        dot_free(s.subrange(0, i)),
    ensures
        split_dots(s) =~= seq![s.subrange(0, i)] + split_dots(s.subrange(i + 1, s.len() as int)),
    decreases i,
{
    let tail = s.subrange(1, s.len() as int);
    if i == 0 {
        assert(s.subrange(0, 0) =~= Seq::<char>::empty());
        assert(s.subrange(1, s.len() as int) =~= s.subrange(i + 1, s.len() as int));
    } else {
        assert(s[0] != '.') by {
            assert(s.subrange(0, i)[0] == s[0]);
        }
        assert(tail[i - 1] == '.');
        assert(dot_free(tail.subrange(0, i - 1))) by {
            assert(forall|k: int|
                0 <= k < i - 1 ==> #[trigger] tail.subrange(0, i - 1)[k] == s.subrange(0, i)[k
                    + 1]);
        }
        lemma_split_dots_first(tail, i - 1);
        let rest = split_dots(tail);
        assert(rest[0] == tail.subrange(0, i - 1));
        assert(tail.subrange(i, tail.len() as int) =~= s.subrange(i + 1, s.len() as int));
        assert(rest.subrange(1, rest.len() as int) =~= split_dots(s.subrange(i + 1, s.len() as int)));
        assert(seq![s[0]] + tail.subrange(0, i - 1) =~= s.subrange(0, i));
        assert(split_dots(s) =~= seq![s.subrange(0, i)] + split_dots(
            s.subrange(i + 1, s.len() as int),
        ));
    }
}

/// What serializing a token yields: codec-encoded identifier, dot,
/// codec-encoded expiration, dot, and the signature text verbatim (the
/// signature is already codec-encoded and is not re-encoded).
pub open spec fn token_serialized(
    identifier: Seq<char>,
    expiration: Seq<char>,
    signature: Seq<char>,
) -> Seq<char> {
    b64u_enc(encode_utf8(identifier)) + seq!['.'] + b64u_enc(encode_utf8(expiration)) + seq!['.']
        + signature
}

/// What parsing token text yields: the decoded first and second
/// dot-delimited fields and the verbatim third, or the error naming the
/// first step that failed. Anything but exactly three fields is a format
/// error; the third field is never decoded.
pub open spec fn parse_spec(s: Seq<char>) -> Result<(Seq<char>, Seq<char>, Seq<char>), Error> {
    let parts = split_dots(s);
    if parts.len() != 3 {
        Err(Error::TokenFormatInvalid)
    } else {
        match decoded_text(parts[0]) {
            Option::None => Err(Error::TokenIdentifierDecodeFailure),
            Option::Some(identifier) => match decoded_text(parts[1]) {
                Option::None => Err(Error::TokenExpirationDecodeFailure),
                Option::Some(expiration) => Ok((identifier, expiration, parts[2])),
            },
        }
    }
}

/// The three-field signed, time-bounded credential: an identifier, an
/// RFC 3339 expiration, and the keyed digest over the codec-encoded forms
/// of the first two.
///
/// Never mutated after construction; validation produces pass or fail, not
/// an updated token.
#[derive(Debug)]
pub struct Token {
    pub identifier: String,
    pub expiration: String,
    pub signature: String,
}

impl Token {
    /// Serializes the token to its dot-delimited wire form
    /// `encode(identifier) + "." + encode(expiration) + "." + signature`.
    ///
    /// Whenever the signature text is dot-free — as every signature the
    /// library itself produces is — parsing the result recovers the token
    /// field for field.
    pub fn serialize(&self) -> (r: String)
        ensures
            r@ == token_serialized(self.identifier@, self.expiration@, self.signature@),
            dot_free(self.signature@) ==> parse_spec(r@) == Ok::<_, Error>(
                (self.identifier@, self.expiration@, self.signature@),
            ),
    {
        let identifier_encoded = url_safe_base64::encode(self.identifier.as_str().as_bytes());
        let expiration_encoded = url_safe_base64::encode(self.expiration.as_str().as_bytes());
        let mut out = identifier_encoded;
        out.append(".");
        out.append(expiration_encoded.as_str());
        out.append(".");
        out.append(self.signature.as_str());
        proof {
            reveal_strlit(".");
            let e0 = b64u_enc(encode_utf8(self.identifier@));
            let e1 = b64u_enc(encode_utf8(self.expiration@));
            let sig = self.signature@;
            assert(out@ =~= token_serialized(self.identifier@, self.expiration@, sig));
            if dot_free(sig) {
                let s = out@;
                let i0 = e0.len() as int;
                let i1 = i0 + 1 + e1.len();
                assert(s[i0] == '.');
                assert(dot_free(s.subrange(0, i0))) by {
                    assert(forall|k: int| 0 <= k < i0 ==> s.subrange(0, i0)[k] == e0[k]);
                }
                lemma_split_dots_first(s, i0);
                let tail = s.subrange(i0 + 1, s.len() as int);
                assert(tail =~= e1 + seq!['.'] + sig);
                assert(tail[e1.len() as int] == '.');
                assert(dot_free(tail.subrange(0, e1.len() as int))) by {
                    assert(forall|k: int|
                        0 <= k < e1.len() ==> #[trigger] tail.subrange(0, e1.len() as int)[k]
                            == e1[k]);
                }
                lemma_split_dots_first(tail, e1.len() as int);
                assert(tail.subrange(e1.len() as int + 1, tail.len() as int) =~= sig);
                lemma_split_dots_free(sig);
                assert(s.subrange(0, i0) =~= e0);
                assert(tail.subrange(0, e1.len() as int) =~= e1);
                let parts = split_dots(s);
                assert(parts =~= seq![e0, e1, sig]);
                vstd::utf8::encode_utf8_valid_utf8(self.identifier@);
                vstd::utf8::encode_utf8_valid_utf8(self.expiration@);
                encode_utf8_decode_utf8(self.identifier@);
                encode_utf8_decode_utf8(self.expiration@);
                assert(decoded_text(e0) == Some(self.identifier@));
                assert(decoded_text(e1) == Some(self.expiration@));
            }
        }
        out
    }

    /// Parses dot-delimited token text: exactly three fields, of which the
    /// first two are codec-decoded and the third is taken verbatim as the
    /// signature. This produces a signed token without checking
    /// authenticity; validation is a separate step.
    pub fn parse(token_string: &str) -> (r: Result<Token, Error>)
        ensures
            match r {
                Ok(t) => parse_spec(token_string@) == Ok::<_, Error>(
                    (t.identifier@, t.expiration@, t.signature@),
                ),
                Err(e) => parse_spec(token_string@) == Err::<(Seq<char>, Seq<char>, Seq<char>),
                    Error>(e),
            },
    {
        let s = token_string;
        let n = s.unicode_len();
        let mut count: usize = 0;
        let mut dot1: usize = 0;
        let mut dot2: usize = 0;
        let mut i: usize = 0;
        while i < n
            invariant
                n == s@.len(),
                i <= n,
                count <= i,
                count == 0 ==> forall|k: int| 0 <= k < i ==> s@[k] != '.',
                count >= 1 ==> dot1 < i && s@[dot1 as int] == '.' && dot_free(
                    s@.subrange(0, dot1 as int),
                ),
                count == 1 ==> forall|k: int| dot1 < k < i ==> s@[k] != '.',
                count >= 2 ==> dot1 < dot2 < i && s@[dot2 as int] == '.' && dot_free(
                    s@.subrange(dot1 + 1, dot2 as int),
                ),
                count == 2 ==> forall|k: int| dot2 < k < i ==> s@[k] != '.',
                count >= 3 ==> !dot_free(s@.subrange(dot2 + 1, i as int)),
            decreases n - i,
        {
            let c = s.get_char(i);
            proof {
                if count >= 3 {
                    let j = choose|j: int|
                        0 <= j < i - dot2 - 1 && #[trigger] s@.subrange(dot2 + 1, i as int)[j]
                            == '.';
                    assert(s@.subrange(dot2 + 1, i as int + 1)[j] == '.');
                }
            }
            if c == '.' {
                if count == 0 {
                    dot1 = i;
                } else if count == 1 {
                    dot2 = i;
                    proof {
                        assert(forall|k: int|
                            0 <= k < dot2 - dot1 - 1 ==> #[trigger] s@.subrange(
                                dot1 + 1,
                                dot2 as int,
                            )[k] == s@[k + dot1 + 1]);
                    }
                } else {
                    proof {
                        assert(s@.subrange(dot2 + 1, i as int + 1)[i - dot2 - 1] == '.');
                    }
                }
                count = count + 1;
            } else {
                proof {
                    if count >= 1 {
                        assert(forall|k: int|
                            0 <= k < dot1 ==> s@.subrange(0, dot1 as int)[k] == s@[k]);
                    }
                }
            }
            i = i + 1;
        }
        if count != 2 {
            proof {
                lemma_split_dots_count(s@);
                lemma_dot_count_zero(s@);
                if count == 0 {
                    lemma_split_dots_free(s@);
                } else if count == 1 {
                    lemma_split_dots_first(s@, dot1 as int);
                    let tail = s@.subrange(dot1 + 1, n as int);
                    assert(dot_free(tail)) by {
                        assert(forall|k: int|
                            0 <= k < tail.len() ==> #[trigger] tail[k] == s@[k + dot1 + 1]);
                    }
                    lemma_split_dots_free(tail);
                } else {
                    lemma_split_dots_first(s@, dot1 as int);
                    let tail = s@.subrange(dot1 + 1, n as int);
                    assert(tail[dot2 - dot1 - 1] == '.');
                    assert(dot_free(tail.subrange(0, dot2 - dot1 - 1))) by {
                        assert(forall|k: int|
                            0 <= k < dot2 - dot1 - 1 ==> #[trigger] tail.subrange(
                                0,
                                dot2 - dot1 - 1,
                            )[k] == s@.subrange(dot1 + 1, dot2 as int)[k]);
                    }
                    lemma_split_dots_first(tail, dot2 - dot1 - 1);
                    let tail2 = tail.subrange(dot2 - dot1, tail.len() as int);
                    assert(tail2 =~= s@.subrange(dot2 + 1, n as int));
                    assert(!dot_free(tail2));
                    lemma_dot_count_zero(tail2);
                    lemma_split_dots_count(tail2);
                    assert(split_dots(s@).len() >= 4);
                }
            }
            return Err(Error::TokenFormatInvalid);
        }
        proof {
            lemma_split_dots_first(s@, dot1 as int);
            let tail = s@.subrange(dot1 + 1, n as int);
            assert(tail[dot2 - dot1 - 1] == '.');
            assert(dot_free(tail.subrange(0, dot2 - dot1 - 1))) by {
                assert(forall|k: int|
                    0 <= k < dot2 - dot1 - 1 ==> #[trigger] tail.subrange(0, dot2 - dot1 - 1)[k]
                        == s@.subrange(dot1 + 1, dot2 as int)[k]);
            }
            lemma_split_dots_first(tail, dot2 - dot1 - 1);
            let tail2 = tail.subrange(dot2 - dot1, tail.len() as int);
            assert(tail2 =~= s@.subrange(dot2 + 1, n as int));
            assert(dot_free(tail2)) by {
                assert(forall|k: int|
                    0 <= k < tail2.len() ==> #[trigger] tail2[k] == s@[k + dot2 + 1]);
            }
            lemma_split_dots_free(tail2);
            assert(tail.subrange(0, dot2 - dot1 - 1) =~= s@.subrange(dot1 + 1, dot2 as int));
            assert(split_dots(s@) =~= seq![
                s@.subrange(0, dot1 as int),
                s@.subrange(dot1 + 1, dot2 as int),
                s@.subrange(dot2 + 1, n as int),
            ]);
        }
        let part0 = s.substring_char(0, dot1);
        let part1 = s.substring_char(dot1 + 1, dot2);
        let part2 = s.substring_char(dot2 + 1, n);
        let identifier = match url_safe_base64::decode(part0) {
            Ok(identifier) => identifier,
            Err(_) => return Err(Error::TokenIdentifierDecodeFailure),
        };
        let expiration = match url_safe_base64::decode(part1) {
            Ok(expiration) => expiration,
            Err(_) => return Err(Error::TokenExpirationDecodeFailure),
        };
        Ok(Token { identifier, expiration, signature: String::from_str(part2) })
    }
}

impl std::str::FromStr for Token {
    type Err = Error;

    fn from_str(token_string: &str) -> Result<Token, Error> {
        Token::parse(token_string)
    }
}

/// Holds when `t_id`, `t_exp` and `t_sig` are the fields of a token
/// generated for `identifier` at the clock reading `issued_at` with the
/// given duration: the identifier is carried verbatim, the expiration is
/// the RFC 3339 rendering of `issued_at` moved forward by the duration and
/// parses back to that instant, and the signature is the keyed digest over
/// the encoded identifier and expiration — dot-free, so the token survives
/// the serialize-then-parse round trip.
pub open spec fn token_generated(
    t_id: Seq<char>,
    t_exp: Seq<char>,
    t_sig: Seq<char>,
    identifier: Seq<char>,
    issued_at: Timestamp,
    duration_in_seconds: i64,
    salt: Seq<char>,
    key: Seq<u8>,
) -> bool {
    &&& t_id == identifier
    &&& rfc3339_render((issued_at.seconds + duration_in_seconds) as i64, issued_at.nanos)
        == Some(t_exp)
    &&& rfc3339_instant(t_exp) == Some(
        (((issued_at.seconds + duration_in_seconds) as i64), issued_at.nanos),
    )
    &&& t_sig == token_sign(identifier, t_exp, salt, key)
    &&& t_sig.len() == 88 && dot_free(t_sig)
}

/// Generates a fully signed token whose expiration is the given clock
/// reading moved forward by `duration_in_seconds` whole seconds. The clock
/// window and the duration bound keep that instant inside the
/// four-digit-year window, so this always succeeds.
pub fn generate_token_at(
    identifier: &str,
    issued_at: Timestamp,
    duration_in_seconds: i64,
    salt: &str,
    key: &[u8],
) -> (r: Result<Token, Error>)
    requires
        issued_at.in_clock_range(),
        -MAX_DURATION_SECONDS <= duration_in_seconds <= MAX_DURATION_SECONDS,
    ensures
        r matches Ok(t) && token_generated(
            t.identifier@,
            t.expiration@,
            t.signature@,
            identifier@,
            issued_at,
            duration_in_seconds,
            salt@,
            key@,
        ),
{
    let target = Timestamp {
        seconds: issued_at.seconds + duration_in_seconds,
        nanos: issued_at.nanos,
    };
    let expiration = match utc_fixed::format(target) {
        Some(expiration) => expiration,
        None => {
            proof {
                assert(false);
            }
            String::new()
        },
    };
    let signature = match token_sign_into_b64u(identifier, expiration.as_str(), salt, key) {
        Ok(signature) => signature,
        Err(e) => return Err(e),
    };
    Ok(Token { identifier: String::from_str(identifier), expiration, signature })
}

/// Generates a fully signed token that expires `duration_in_seconds` whole
/// seconds after the current time: reads the clock once and delegates to
/// [`generate_token_at`]. Always succeeds: the clock window and the
/// duration bound keep the expiration renderable, and the MAC accepts
/// every key.
pub fn generate_token(
    identifier: &str,
    duration_in_seconds: i64,
    salt: &str,
    key: &[u8],
) -> (r: Result<Token, Error>)
    requires
        -MAX_DURATION_SECONDS <= duration_in_seconds <= MAX_DURATION_SECONDS,
    ensures
        r matches Ok(t) && exists|issued_at: Timestamp|
            issued_at.in_clock_range() && #[trigger] token_generated(
                t.identifier@,
                t.expiration@,
                t.signature@,
                identifier@,
                issued_at,
                duration_in_seconds,
                salt@,
                key@,
            ),
{
    let issued_at = utc_fixed::now();
    let r = generate_token_at(identifier, issued_at, duration_in_seconds, salt, key);
    proof {
        if let Ok(ref t) = r {
            assert(token_generated(
                t.identifier@,
                t.expiration@,
                t.signature@,
                identifier@,
                issued_at,
                duration_in_seconds,
                salt@,
                key@,
            ));
        }
    }
    r
}

/// The verdict that validation reaches for the given token fields at the
/// given instant: a signature that is not the recomputed keyed digest is a
/// mismatch; otherwise an expiration that does not parse is rejected;
/// otherwise an expiration strictly earlier than the instant is expired;
/// otherwise the token is valid. The signature is checked before the
/// expiration is ever parsed.
pub open spec fn validate_verdict(
    identifier: Seq<char>,
    expiration: Seq<char>,
    signature: Seq<char>,
    at_time: Timestamp,
    salt: Seq<char>,
    key: Seq<u8>,
) -> Result<(), Error> {
    if signature != token_sign(identifier, expiration, salt, key) {
        Err(Error::TokenSignatureMismatch)
    } else {
        match rfc3339_instant(expiration) {
            Option::None => Err(Error::TokenExpirationNotIso),
            Option::Some(instant) => {
                let expires = Timestamp { seconds: instant.0, nanos: instant.1 };
                if expires.before(at_time) {
                    Err(Error::TokenExpired)
                } else {
                    Ok(())
                }
            },
        }
    }
}

/// Validates the token's signature, then its expiration, against the given
/// instant, reaching exactly the verdict of [`validate_verdict`].
///
/// The recomputed signature is compared in constant time, and the
/// comparison happens before the expiration is parsed, so a
/// forged-but-well-formed expiration never reaches the clock comparison.
pub fn validate_token_signature_and_expiration_at(
    original_token: &Token,
    at_time: Timestamp,
    salt: &str,
    key: &[u8],
) -> (r: Result<(), Error>)
    ensures
        r == validate_verdict(
            original_token.identifier@,
            original_token.expiration@,
            original_token.signature@,
            at_time,
            salt@,
            key@,
        ),
{
    let new_signature = match token_sign_into_b64u(
        original_token.identifier.as_str(),
        original_token.expiration.as_str(),
        salt,
        key,
    ) {
        Ok(new_signature) => new_signature,
        Err(e) => return Err(e),
    };
    if !constant_time_str_eq(new_signature.as_str(), original_token.signature.as_str()) {
        return Err(Error::TokenSignatureMismatch);
    }
    let expires = match utc_fixed::parse(original_token.expiration.as_str()) {
        Ok(expires) => expires,
        Err(_) => return Err(Error::TokenExpirationNotIso),
    };
    if expires.is_before(&at_time) {
        return Err(Error::TokenExpired);
    }
    Ok(())
}

/// Validates the token's signature and expiration against the current
/// time: reads the clock once and delegates to
/// [`validate_token_signature_and_expiration_at`].
///
/// Whatever the clock read, a wrong signature is reported as
/// `TokenSignatureMismatch` and a correctly signed token with unparsable
/// expiration as `TokenExpirationNotIso`; only `TokenExpired` depends on
/// the instant.
pub fn validate_token_signature_and_expiration(
    original_token: &Token,
    salt: &str,
    key: &[u8],
) -> (r: Result<(), Error>)
    ensures
        exists|at_time: Timestamp|
            at_time.in_clock_range() && r == #[trigger] validate_verdict(
                original_token.identifier@,
                original_token.expiration@,
                original_token.signature@,
                at_time,
                salt@,
                key@,
            ),
        r is Ok ==> original_token.signature@ == token_sign(
            original_token.identifier@,
            original_token.expiration@,
            salt@,
            key@,
        ) && rfc3339_instant(original_token.expiration@) is Some,
        r == Err::<(), Error>(Error::TokenSignatureMismatch) <==> original_token.signature@
            != token_sign(original_token.identifier@, original_token.expiration@, salt@, key@),
        r == Err::<(), Error>(Error::TokenExpirationNotIso) <==> (original_token.signature@
            == token_sign(original_token.identifier@, original_token.expiration@, salt@, key@)
            && rfc3339_instant(original_token.expiration@) is None),
        r == Err::<(), Error>(Error::TokenExpired) ==> original_token.signature@ == token_sign(
            original_token.identifier@,
            original_token.expiration@,
            salt@,
            key@,
        ) && rfc3339_instant(original_token.expiration@) is Some,
{
    let at_time = utc_fixed::now();
    let r = validate_token_signature_and_expiration_at(original_token, at_time, salt, key);
    proof {
        assert(r == validate_verdict(
            original_token.identifier@,
            original_token.expiration@,
            original_token.signature@,
            at_time,
            salt@,
            key@,
        ));
    }
    r
}

// -----------------------------------------------------------------------------
// Laws
// -----------------------------------------------------------------------------

/// The keyed digest is a pure function: two signatures computed over
/// identical `(content, salt, key)` are identical, which is what lets
/// verification recompute rather than decrypt.
pub proof fn lemma_sign_deterministic(
    content: Seq<char>,
    salt: Seq<char>,
    key: Seq<u8>,
    r1: Seq<char>,
    r2: Seq<char>,
)
    requires
        r1 == envelope_sign(content, salt, key),
        r2 == envelope_sign(content, salt, key),
    ensures
        r1 == r2,
{
}

/// Any token whose signature differs from the keyed digest recomputed over
/// its own fields is rejected as a signature mismatch, at every instant:
/// changing the identifier, the expiration, the salt or the key in a way
/// that changes the digest therefore invalidates the token.
pub proof fn lemma_signature_mismatch_rejected(
    identifier: Seq<char>,
    expiration: Seq<char>,
    signature: Seq<char>,
    at_time: Timestamp,
    salt: Seq<char>,
    key: Seq<u8>,
)
    requires
        signature != token_sign(identifier, expiration, salt, key),
    ensures
        validate_verdict(identifier, expiration, signature, at_time, salt, key) == Err::<
            (),
            Error,
        >(Error::TokenSignatureMismatch),
{
}

/// The expiration boundary: a token generated at `issued_at` with a
/// positive duration validates as `Ok` at every instant strictly before
/// `issued_at + duration`, and as `TokenExpired` at every instant strictly
/// after it.
pub proof fn lemma_expiration_boundary(
    token: Token,
    identifier: Seq<char>,
    issued_at: Timestamp,
    duration_in_seconds: i64,
    checked_at: Timestamp,
    salt: Seq<char>,
    key: Seq<u8>,
)
    requires
        issued_at.in_clock_range(),
        0 < duration_in_seconds <= MAX_DURATION_SECONDS,
        token_generated(
            token.identifier@,
            token.expiration@,
            token.signature@,
            identifier,
            issued_at,
            duration_in_seconds,
            salt,
            key,
        ),
    ensures
        ({
            let expires = Timestamp {
                seconds: (issued_at.seconds + duration_in_seconds) as i64,
                nanos: issued_at.nanos,
            };
            &&& checked_at.before(expires) ==> validate_verdict(
                token.identifier@,
                token.expiration@,
                token.signature@,
                checked_at,
                salt,
                key,
            ) == Ok::<(), Error>(())
            &&& expires.before(checked_at) ==> validate_verdict(
                token.identifier@,
                token.expiration@,
                token.signature@,
                checked_at,
                salt,
                key,
            ) == Err::<(), Error>(Error::TokenExpired)
        }),
{
}

/// A token string with any number of dot-delimited segments other than
/// three — none, one, two, four or more — always parses to the format
/// error, before any field is decoded.
pub proof fn lemma_format_rejected(s: Seq<char>)
    requires
        split_dots(s).len() != 3,
    ensures
        parse_spec(s) == Err::<(Seq<char>, Seq<char>, Seq<char>), Error>(
            Error::TokenFormatInvalid,
        ),
{
}

/// Every password digest begins with the version tag, so a stored
/// reference that does not begin with `"#01#"` can never equal a
/// recomputed digest: validating against it always fails with
/// `PasswordMismatch`.
pub proof fn lemma_untagged_reference_mismatches(
    reference: Seq<char>,
    content: Seq<char>,
    salt: Seq<char>,
    key: Seq<u8>,
)
    requires
        reference.len() < 4 || reference.subrange(0, 4) != password_tag(),
    ensures
        reference != password_digest(content, salt, key),
{
    let digest = password_digest(content, salt, key);
    assert(digest.subrange(0, 4) =~= password_tag());
}

} // verus!
