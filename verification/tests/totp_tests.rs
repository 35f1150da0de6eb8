use open_english::totp::{base32_decode, base32_encode, code_at, generate_secret, otpauth_uri, totp_qr_svg, verify_code};

#[test]
fn base32_round_trips() {
    let data = b"hello totp secret!!!";
    let encoded = base32_encode(data);
    let decoded = base32_decode(&encoded).unwrap();
    assert_eq!(decoded, data);
}

#[test]
fn code_at_produces_six_digits() {
    let secret = generate_secret().expect("system RNG failure");
    let code = code_at(&secret, 1_723_000_000).unwrap();
    assert_eq!(code.len(), 6);
    assert!(code.chars().all(|c| c.is_ascii_digit()));
}

#[test]
fn verify_code_accepts_correct_code_and_rejects_wrong_one() {
    let secret = generate_secret().expect("system RNG failure");
    let now = 1_723_000_000i64;
    let correct = code_at(&secret, now).unwrap();
    assert!(verify_code(&secret, &correct, now));
    assert!(!verify_code(&secret, "000000", now));
}

#[test]
fn otpauth_uri_url_encodes_and_embeds_the_secret() {
    let uri = otpauth_uri("ABCD1234", "user@example.com", "open-english");
    assert!(uri.starts_with("otpauth://totp/"));
    assert!(uri.contains("secret=ABCD1234"));
    assert!(uri.contains("user%40example.com"));
    assert!(!uri.contains(' '));
}

#[test]
fn totp_qr_svg_produces_a_non_empty_svg_document() {
    let secret = generate_secret().expect("system RNG failure");
    let svg = totp_qr_svg(&secret, "user@example.com", "open-english").expect("QR generation should succeed");
    assert!(svg.starts_with("<?xml") || svg.trim_start().starts_with("<svg"));
    assert!(svg.contains("<svg"));
    assert!(svg.len() > 100, "SVG should contain actual QR module data, not just a stub");
}

#[test]
fn verify_code_tolerates_one_step_of_clock_skew() {
    let secret = generate_secret().expect("system RNG failure");
    let now = 1_723_000_000i64;
    let code_30s_ago = code_at(&secret, now - 30).unwrap();
    assert!(verify_code(&secret, &code_30s_ago, now));
    let code_60s_ago = code_at(&secret, now - 60).unwrap();
    assert!(!verify_code(&secret, &code_60s_ago, now));
}

#[test]
fn rfc4226_style_known_code() {
    // RFC 6238 test secret "12345678901234567890" (ASCII), SHA-1, T = 59 s.
    let secret = base32_encode(b"12345678901234567890");
    assert_eq!(secret, "GEZDGNBVGY3TQOJQGEZDGNBVGY3TQOJQ");
    assert_eq!(code_at(&secret, 59), Some("287082".to_string()));
    assert_eq!(code_at(&secret, 1111111109), Some("081804".to_string()));
}

#[test]
fn base32_decode_accepts_lower_case_spaces_and_padding() {
    assert_eq!(base32_decode("mzxw6ytboi======"), Some(b"foobar".to_vec()));
    assert_eq!(base32_decode("MZXW6YTBOI"), Some(b"foobar".to_vec()));
    assert_eq!(base32_decode("MZ1W"), None);
    assert_eq!(base32_encode(b""), "");
    assert_eq!(base32_encode(b"f"), "MY");
}
