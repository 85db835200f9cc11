//! Tests for the url-safe base64 codec and the fixed-offset clock.

use sutorio_axum_utils_crypto::url_safe_base64::{encode, decode};
use sutorio_axum_utils_crypto::utc_fixed::{now, parse, add_seconds_and_format, Timestamp};
use sutorio_axum_utils_crypto::Error;

#[test]
fn test_encode_known_values() {
    assert_eq!(encode(b"user"), "dXNlcg==");
    assert_eq!(encode(b"expiration"), "ZXhwaXJhdGlvbg==");
    assert_eq!(encode(b""), "");
    // The url-safe alphabet keeps 0xfb 0xff out of `+` and `/`.
    assert_eq!(encode(&[0xfb, 0xff]), "-_8=");
}

#[test]
fn test_encode_length_is_a_function_of_input_length() {
    for n in 0..10usize {
        let bytes = vec![0x41u8; n];
        assert_eq!(encode(&bytes).len(), 4 * ((n + 2) / 3));
    }
}

#[test]
fn test_decode_inverts_encode() {
    for sample in ["", "a", "ab", "abc", "user", "salt & pepper", "päss.wörd"] {
        assert_eq!(decode(&encode(sample.as_bytes())).unwrap(), sample);
    }
}

#[test]
fn test_decode_rejects_malformed_base64() {
    assert_eq!(decode("###").unwrap_err(), Error::B64DecodingFailure);
    assert_eq!(decode("dXNlcg=").unwrap_err(), Error::B64DecodingFailure);
    assert_eq!(decode("a").unwrap_err(), Error::B64DecodingFailure);
}

#[test]
fn test_decode_rejects_invalid_utf8() {
    // `_w==` decodes to the lone byte 0xff, which is not UTF-8.
    assert_eq!(decode("_w==").unwrap_err(), Error::B64DecodingFailure);
}

#[test]
fn test_format_parse_round_trip() {
    let instant = Timestamp { seconds: 1_700_000_000, nanos: 123_000_000 };
    let text = sutorio_axum_utils_crypto::utc_fixed::format(instant).unwrap();
    assert_eq!(text, "2023-11-14T22:13:20.123+00:00");
    assert_eq!(parse(&text).unwrap(), instant);
}

#[test]
fn test_format_rejects_out_of_range_instant() {
    assert!(sutorio_axum_utils_crypto::utc_fixed::format(Timestamp { seconds: i64::MAX, nanos: 0 }).is_none());
    // The first second of the year 10000 lies just past the window.
    assert!(sutorio_axum_utils_crypto::utc_fixed::format(Timestamp { seconds: 253_402_300_800, nanos: 0 }).is_none());
    // The last second of the year 9999 is still rendered.
    let text = sutorio_axum_utils_crypto::utc_fixed::format(Timestamp { seconds: 253_402_300_799, nanos: 0 }).unwrap();
    assert_eq!(text, "9999-12-31T23:59:59+00:00");
}

#[test]
fn test_error_describe_names_the_variant() {
    assert_eq!(Error::TokenExpired.describe(), "TokenExpired");
    assert_eq!(Error::PasswordMismatch.describe(), "PasswordMismatch");
    assert_eq!(
        Error::UTCParsingFailure("x".to_string()).describe(),
        "UTCParsingFailure"
    );
}

#[test]
fn test_parse_rejects_non_iso_text() {
    let err = parse("not a timestamp").unwrap_err();
    assert_eq!(
        err,
        Error::UTCParsingFailure("not a timestamp".to_string())
    );
}

#[test]
fn test_now_is_within_clock_bounds() {
    let t = now();
    assert!(t.seconds <= 250_248_700_799);
    assert!(t.nanos < 1_000_000_000);
    // The current time is well past the Unix epoch.
    assert!(t.seconds > 1_600_000_000);
}

#[test]
fn test_add_seconds_and_format_moves_forward() {
    let before = now();
    let text = add_seconds_and_format(3600);
    let rendered = parse(&text).unwrap();
    let after = now();
    assert!(rendered.seconds >= before.seconds + 3600);
    assert!(rendered.seconds <= after.seconds + 3600);
}
