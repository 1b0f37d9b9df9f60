use backend::auth::{generate_jwt, validate_jwt, TOKEN_LIFETIME_SECS};
use backend::claims::{read_claims, write_claims};
use backend::decimal::{parse_decimal, push_decimal};
use backend::errors::AppError;

const SECRET: &[u8] = b"test-signing-secret";
const ISSUED: i64 = 1_700_000_000;

fn flip(c: u8) -> u8 {
    if c == b'A' {
        b'B'
    } else {
        b'A'
    }
}

#[test]
fn token_round_trip_within_window() {
    let t = generate_jwt(SECRET, 42, ISSUED).unwrap();
    assert!(matches!(validate_jwt(SECRET, &t, ISSUED), Ok(42)));
    assert!(matches!(validate_jwt(SECRET, &t, ISSUED + 3600), Ok(42)));
    assert!(matches!(validate_jwt(SECRET, &t, ISSUED + TOKEN_LIFETIME_SECS), Ok(42)));
}

#[test]
fn token_round_trip_for_extreme_identities() {
    for id in [i32::MIN, -1, 0, 1, i32::MAX] {
        let t = generate_jwt(SECRET, id, ISSUED).unwrap();
        assert_eq!(validate_jwt(SECRET, &t, ISSUED + 1).unwrap(), id);
    }
}

#[test]
fn token_rejected_after_expiry() {
    let t = generate_jwt(SECRET, 7, ISSUED).unwrap();
    let later = ISSUED + TOKEN_LIFETIME_SECS + 1;
    assert!(matches!(validate_jwt(SECRET, &t, later), Err(AppError::Unauthorized(_))));
    let skewed = ISSUED + 2 * TOKEN_LIFETIME_SECS;
    assert!(matches!(validate_jwt(SECRET, &t, skewed), Err(AppError::Unauthorized(_))));
}

#[test]
fn token_with_tampered_signature_rejected() {
    let t = generate_jwt(SECRET, 7, ISSUED).unwrap();
    let sig_start = t.rfind('.').unwrap() + 1;
    let mut bytes = t.clone().into_bytes();
    bytes[sig_start] = flip(bytes[sig_start]);
    let tampered = String::from_utf8(bytes).unwrap();
    assert_ne!(tampered, t);
    assert!(matches!(validate_jwt(SECRET, &tampered, ISSUED + 1), Err(AppError::Unauthorized(_))));
    let mut bytes = t.clone().into_bytes();
    let last = bytes.len() - 1;
    bytes[last] = flip(bytes[last]);
    let tampered = String::from_utf8(bytes).unwrap();
    assert!(matches!(validate_jwt(SECRET, &tampered, ISSUED + 1), Err(AppError::Unauthorized(_))));
}

#[test]
fn token_with_tampered_claims_rejected() {
    let t = generate_jwt(SECRET, 7, ISSUED).unwrap();
    let other = generate_jwt(SECRET, 8, ISSUED).unwrap();
    let parts: Vec<&str> = t.split('.').collect();
    let other_parts: Vec<&str> = other.split('.').collect();
    let forged = format!("{}.{}.{}", parts[0], other_parts[1], parts[2]);
    assert!(matches!(validate_jwt(SECRET, &forged, ISSUED + 1), Err(AppError::Unauthorized(_))));
}

#[test]
fn token_under_other_secret_rejected() {
    let t = generate_jwt(b"another-secret", 7, ISSUED).unwrap();
    assert!(matches!(validate_jwt(SECRET, &t, ISSUED + 1), Err(AppError::Unauthorized(_))));
}

#[test]
fn malformed_tokens_rejected() {
    for t in ["", "abc", "a.b", "a.b.c", "..", "eyJ0eXAiOiJKV1QiLCJhbGciOiJIUzI1NiJ9.e30.x"] {
        assert!(matches!(validate_jwt(SECRET, t, ISSUED), Err(AppError::Unauthorized(_))));
    }
}

#[test]
fn token_is_a_compact_hs256_jwt() {
    let t = generate_jwt(SECRET, 42, ISSUED).unwrap();
    let parts: Vec<&str> = t.split('.').collect();
    assert_eq!(parts.len(), 3);
    assert_eq!(parts[0], "eyJ0eXAiOiJKV1QiLCJhbGciOiJIUzI1NiJ9");
    // {"sub":"42","exp":1700086400}
    assert_eq!(parts[1], "eyJzdWIiOiI0MiIsImV4cCI6MTcwMDA4NjQwMH0");
    let message = format!("{}.{}", parts[0], parts[1]);
    let key = jsonwebtoken::DecodingKey::from_secret(SECRET);
    let ok = jsonwebtoken::crypto::verify(
        parts[2],
        message.as_bytes(),
        &key,
        jsonwebtoken::Algorithm::HS256,
    )
    .unwrap();
    assert!(ok);
}

#[test]
fn token_issue_fails_when_expiry_overflows() {
    assert!(matches!(
        generate_jwt(SECRET, 1, i64::MAX - 10),
        Err(AppError::InternalServerError(_))
    ));
}

#[test]
fn generated_token_validates_at_the_wall_clock() {
    let now = std::time::SystemTime::now()
        .duration_since(std::time::UNIX_EPOCH)
        .unwrap()
        .as_secs() as i64;
    let t = generate_jwt(SECRET, 5, now).unwrap();
    assert_eq!(validate_jwt(SECRET, &t, now).unwrap(), 5);
    assert!(matches!(validate_jwt(b"wrong", &t, now), Err(AppError::Unauthorized(_))));
}

#[test]
fn claims_text_round_trip() {
    let text = write_claims(42, 1_700_086_400);
    assert_eq!(text, br#"{"sub":"42","exp":1700086400}"#.to_vec());
    assert_eq!(read_claims(&text), Some((42, 1_700_086_400)));
    let neg = write_claims(-5, i64::MIN);
    assert_eq!(read_claims(&neg), Some((-5, i64::MIN)));
}

#[test]
fn claims_text_rejects_other_forms() {
    for t in [
        &br#"{"sub":"42","exp":1}x"#[..],
        br#"{"sub":42,"exp":1}"#,
        br#"{"exp":1,"sub":"42"}"#,
        br#"{"sub":"042","exp":1}"#,
        br#"{"sub":"4 2","exp":1}"#,
        br#"{"sub":"","exp":1}"#,
        b"",
    ] {
        assert_eq!(read_claims(t), None);
    }
}

#[test]
fn decimal_text_of_integers() {
    let mut out = Vec::new();
    push_decimal(&mut out, 0);
    push_decimal(&mut out, -17);
    push_decimal(&mut out, i64::MIN);
    assert_eq!(out, b"0-17-9223372036854775808".to_vec());
}

#[test]
fn decimal_parse_accepts_canonical_only() {
    let s = b"9223372036854775807";
    assert_eq!(parse_decimal(s, 0, s.len()), Some(i64::MAX));
    let s = b"-9223372036854775808";
    assert_eq!(parse_decimal(s, 0, s.len()), Some(i64::MIN));
    for s in [&b"9223372036854775808"[..], b"-0", b"007", b"+5", b"", b"-", b"1a"] {
        assert_eq!(parse_decimal(s, 0, s.len()), None);
    }
    let s = b"x123y";
    assert_eq!(parse_decimal(s, 1, 4), Some(123));
}

#[test]
fn token_with_other_algorithm_header_rejected() {
    let t = generate_jwt(SECRET, 7, ISSUED).unwrap();
    let parts: Vec<&str> = t.split('.').collect();
    // {"typ":"JWT","alg":"HS512"} and {"alg":"none"}
    for header in ["eyJ0eXAiOiJKV1QiLCJhbGciOiJIUzUxMiJ9", "eyJhbGciOiJub25lIn0"] {
        let forged = format!("{}.{}.{}", header, parts[1], parts[2]);
        assert!(matches!(validate_jwt(SECRET, &forged, ISSUED + 1), Err(AppError::Unauthorized(_))));
    }
}
