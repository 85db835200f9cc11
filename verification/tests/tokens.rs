//! Tests for the token life-cycle: serialization, parsing, generation and
//! combined signature-plus-expiration validation.

use sutorio_axum_utils_crypto::utc_fixed::Timestamp;
use sutorio_axum_utils_crypto::{
    generate_token, generate_token_at, validate_token_signature_and_expiration,
    validate_token_signature_and_expiration_at, token_sign_into_b64u, Error, Token,
};

const IDENTIFIER: &str = "user";
const KEY: &[u8] = b"key";
const SALT: &str = "salt";

#[test]
fn test_token_display_impl() {
    let stringified_input_token = Token {
        identifier: IDENTIFIER.to_string(),
        expiration: "expiration".to_string(),
        signature: "signature".to_string(),
    }
    .serialize();

    let expected_output_string = "dXNlcg==.ZXhwaXJhdGlvbg==.signature";

    assert_eq!(stringified_input_token, expected_output_string);
}

#[test]
fn test_token_from_string_impl() {
    let parsed_input_string: Token = "dXNlcg==.ZXhwaXJhdGlvbg==.signature".parse().unwrap();

    let expected_output_token = Token {
        identifier: IDENTIFIER.to_string(),
        expiration: "expiration".to_string(),
        signature: "signature".to_string(),
    };

    assert_eq!(
        format!("{parsed_input_string:?}"),
        format!("{expected_output_token:?}")
    );
}

#[test]
fn test_parse_scenario_fields() {
    let token = Token::parse("dXNlcg==.ZXhwaXJhdGlvbg==.signature").unwrap();
    assert_eq!(token.identifier, "user");
    assert_eq!(token.expiration, "expiration");
    assert_eq!(token.signature, "signature");
}

#[test]
fn test_serialize_parse_round_trip() {
    let token = Token {
        identifier: "alice".to_string(),
        expiration: "2030-01-01T00:00:00+00:00".to_string(),
        signature: "c2lnbmF0dXJl".to_string(),
    };
    let parsed = Token::parse(&token.serialize()).unwrap();
    assert_eq!(parsed.identifier, token.identifier);
    assert_eq!(parsed.expiration, token.expiration);
    assert_eq!(parsed.signature, token.signature);
}

#[test]
fn test_round_trip_with_dots_in_fields() {
    // Dots inside identifier and expiration are covered by the encoding;
    // only the signature segment must stay dot-free.
    let token = Token {
        identifier: "a.b.c".to_string(),
        expiration: "ex.pi.ration".to_string(),
        signature: "sig".to_string(),
    };
    let parsed = Token::parse(&token.serialize()).unwrap();
    assert_eq!(parsed.identifier, "a.b.c");
    assert_eq!(parsed.expiration, "ex.pi.ration");
    assert_eq!(parsed.signature, "sig");
}

#[test]
fn test_parse_rejects_wrong_segment_counts() {
    assert_eq!(Token::parse("").unwrap_err(), Error::TokenFormatInvalid);
    assert_eq!(Token::parse("abc").unwrap_err(), Error::TokenFormatInvalid);
    assert_eq!(Token::parse("a.b").unwrap_err(), Error::TokenFormatInvalid);
    assert_eq!(Token::parse("a.b.c.d").unwrap_err(), Error::TokenFormatInvalid);
    assert_eq!(Token::parse("a.b.c.d.e").unwrap_err(), Error::TokenFormatInvalid);
    assert_eq!(Token::parse("...").unwrap_err(), Error::TokenFormatInvalid);
}

#[test]
fn test_parse_rejects_bad_identifier_field() {
    assert_eq!(
        Token::parse("###.ZXhwaXJhdGlvbg==.signature").unwrap_err(),
        Error::TokenIdentifierDecodeFailure
    );
}

#[test]
fn test_parse_rejects_bad_expiration_field() {
    assert_eq!(
        Token::parse("dXNlcg==.###.signature").unwrap_err(),
        Error::TokenExpirationDecodeFailure
    );
}

#[test]
fn test_token_signature_is_deterministic() {
    let first = token_sign_into_b64u(IDENTIFIER, "expiration", SALT, KEY).unwrap();
    let second = token_sign_into_b64u(IDENTIFIER, "expiration", SALT, KEY).unwrap();
    assert_eq!(first, second);
    assert!(!first.is_empty());
}

#[test]
fn test_validate_web_token() {
    // Input token expires in 4 seconds; validating right away succeeds.
    let input_token = generate_token(IDENTIFIER, 4, SALT, KEY).unwrap();

    let expected_result = validate_token_signature_and_expiration(&input_token, SALT, KEY);

    expected_result.unwrap();
}

#[test]
fn test_validate_web_token_expired() {
    // Input token expired one second before it was made.
    let input_token = generate_token(IDENTIFIER, -1, SALT, KEY).unwrap();

    let expected_result = validate_token_signature_and_expiration(&input_token, SALT, KEY);

    assert!(matches!(expected_result, Err(Error::TokenExpired)));
}

#[test]
fn test_signature_sensitivity() {
    let token = generate_token(IDENTIFIER, 60, SALT, KEY).unwrap();

    let mut tampered_identifier = Token {
        identifier: "vser".to_string(),
        expiration: token.expiration.clone(),
        signature: token.signature.clone(),
    };
    assert_eq!(
        validate_token_signature_and_expiration(&tampered_identifier, SALT, KEY),
        Err(Error::TokenSignatureMismatch)
    );

    tampered_identifier = Token {
        identifier: token.identifier.clone(),
        expiration: token.expiration.clone(),
        signature: token.signature.clone(),
    };
    assert_eq!(
        validate_token_signature_and_expiration(&tampered_identifier, "Salt", KEY),
        Err(Error::TokenSignatureMismatch)
    );
    assert_eq!(
        validate_token_signature_and_expiration(&tampered_identifier, SALT, b"kex"),
        Err(Error::TokenSignatureMismatch)
    );

    let tampered_signature = Token {
        identifier: token.identifier.clone(),
        expiration: token.expiration.clone(),
        signature: "AAAA".to_string(),
    };
    assert_eq!(
        validate_token_signature_and_expiration(&tampered_signature, SALT, KEY),
        Err(Error::TokenSignatureMismatch)
    );
}

#[test]
fn test_expiration_boundary_at_fixed_instants() {
    let issued_at = Timestamp { seconds: 1_700_000_000, nanos: 500 };
    let token = generate_token_at(IDENTIFIER, issued_at, 4, SALT, KEY).unwrap();

    // Strictly before the expiration instant: valid.
    let just_before = Timestamp { seconds: 1_700_000_004, nanos: 499 };
    validate_token_signature_and_expiration_at(&token, just_before, SALT, KEY).unwrap();

    // Exactly the expiration instant: not yet expired.
    let exactly = Timestamp { seconds: 1_700_000_004, nanos: 500 };
    validate_token_signature_and_expiration_at(&token, exactly, SALT, KEY).unwrap();

    // Strictly after: expired.
    let just_after = Timestamp { seconds: 1_700_000_004, nanos: 501 };
    assert_eq!(
        validate_token_signature_and_expiration_at(&token, just_after, SALT, KEY),
        Err(Error::TokenExpired)
    );
}

#[test]
fn test_generated_expiration_is_rfc3339() {
    let issued_at = Timestamp { seconds: 0, nanos: 0 };
    let token = generate_token_at(IDENTIFIER, issued_at, 1004, SALT, KEY).unwrap();
    assert_eq!(token.expiration, "1970-01-01T00:16:44+00:00");
    assert_eq!(token.identifier, IDENTIFIER);
}

#[test]
fn test_generate_at_top_of_clock_window_still_validates() {
    // The latest clock reading plus the largest accepted duration lands on
    // the last second of the four-digit-year window and still renders,
    // parses and validates.
    let issued_at = Timestamp { seconds: 250_248_700_799, nanos: 0 };
    let token = generate_token_at(IDENTIFIER, issued_at, 3_153_600_000, SALT, KEY).unwrap();
    assert_eq!(token.expiration, "9999-12-31T23:59:59+00:00");
    validate_token_signature_and_expiration_at(&token, issued_at, SALT, KEY).unwrap();
}

#[test]
fn test_zero_duration_token_is_immediately_expired() {
    // A sub-second duration truncates to zero whole seconds, so the token
    // expires at its own issue instant: one nanosecond later it is expired.
    let issued_at = Timestamp { seconds: 1_700_000_000, nanos: 0 };
    let token = generate_token_at(IDENTIFIER, issued_at, 0, SALT, KEY).unwrap();
    let a_moment_later = Timestamp { seconds: 1_700_000_000, nanos: 1 };
    assert_eq!(
        validate_token_signature_and_expiration_at(&token, a_moment_later, SALT, KEY),
        Err(Error::TokenExpired)
    );
}

#[test]
fn test_validate_rejects_unparsable_expiration() {
    let signature = token_sign_into_b64u(IDENTIFIER, "not a timestamp", SALT, KEY).unwrap();
    let token = Token {
        identifier: IDENTIFIER.to_string(),
        expiration: "not a timestamp".to_string(),
        signature,
    };
    let at_time = Timestamp { seconds: 1_700_000_000, nanos: 0 };
    assert_eq!(
        validate_token_signature_and_expiration_at(&token, at_time, SALT, KEY),
        Err(Error::TokenExpirationNotIso)
    );
}
