use open_english::auth::{
    access_allowed, constant_time_eq, extract_session_cookie, is_smtp_configured, is_sms_configured,
    is_valid_login_mode, is_webotp_domain_configured, login_mode_from, looks_like_phone_number, mask_identifier,
    normalize_identifier, otp_code_from_bytes, otp_email_body, qr_confirm_url, random_otp_code, request_host_scheme,
    requested_login_mode, session_clear_cookie, session_set_cookie, sms_body, sms_config, smtp_config,
    totp_secret_key, totp_setup, AuthError, AuthState, SmsSendOutcome, OTP_RESEND_COOLDOWN_MS, OTP_TTL_MS, QR_LOGIN_TTL_MS,
    SESSION_TTL_MS,
};
use open_english::totp::code_at;

const NOW: u64 = 1_723_000_000_000;

#[test]
fn constant_time_eq_matches_and_rejects() {
    assert!(constant_time_eq("123456", "123456"));
    assert!(!constant_time_eq("123456", "123457"));
    assert!(!constant_time_eq("123456", "12345"));
}

#[test]
fn random_otp_code_is_six_digits() {
    for _ in 0..20 {
        let code = random_otp_code().expect("system RNG failure");
        assert_eq!(code.len(), 6);
        assert!(code.chars().all(|c| c.is_ascii_digit()));
    }
}

#[test]
fn verify_otp_rejects_unknown_email() {
    let mut state = AuthState::new();
    let result = state.verify_otp("nobody-requested-this@example.com", "000000", NOW);
    assert!(result.is_err());
}

#[test]
fn request_otp_rejects_invalid_email2_before_checking_smtp() {
    let mut state = AuthState::new();
    let result = state.request_otp("valid@example.com", Some("not-an-email"), false, NOW);
    let err = match result {
        Err(e) => e,
        Ok(_) => panic!("invalid email2 should be rejected"),
    };
    assert!(err.message().contains("email2"), "error should mention email2: {}", err.message());
}

#[test]
fn request_otp_treats_identical_email2_as_no_backup() {
    let mut state = AuthState::new();
    let result = state.request_otp("Same@Example.com", Some("same@example.com"), false, NOW);
    let err = match result {
        Err(e) => e,
        Ok(_) => panic!("no SMTP configured in test environment"),
    };
    assert!(
        err.message().contains("SMTP not configured") || err.message().contains("SMTP"),
        "should fail on SMTP config, not on email2 validation: {}",
        err.message()
    );
}

#[test]
fn extract_session_cookie_finds_value_among_multiple_cookies() {
    let header = "foo=bar; oe_session=abc123; baz=qux";
    assert_eq!(extract_session_cookie(Some(header)), Some("abc123".to_string()));
    assert_eq!(extract_session_cookie(Some("foo=bar")), None);
    assert_eq!(extract_session_cookie(None), None);
}

#[test]
fn smtp_config_requires_all_four_vars() {
    assert!(!is_smtp_configured(None, None, None, None));
}

#[test]
fn smtp_config_reads_values_and_default_port() {
    let c = smtp_config(Some("smtp.example.com"), Some("me"), Some("pw"), Some("me@example.com"), None).expect("configured");
    assert_eq!(c.host, "smtp.example.com");
    assert_eq!(c.port, 587);
    let c = smtp_config(Some("h"), Some("u"), Some("p"), Some("f"), Some("2525")).expect("configured");
    assert_eq!(c.port, 2525);
    let c = smtp_config(Some("h"), Some("u"), Some("p"), Some("f"), Some("99999")).expect("configured");
    assert_eq!(c.port, 587);
    assert!(smtp_config(Some("h"), Some("  "), Some("p"), Some("f"), None).is_err());
    assert!(is_smtp_configured(Some("h"), Some("u"), Some("p"), Some("f")));
}

#[test]
fn sms_config_requires_all_three_values() {
    assert!(!is_sms_configured(Some("sid"), None, Some("+100")));
    assert!(is_sms_configured(Some("sid"), Some("tok"), Some("+100")));
    assert!(sms_config(Some(""), Some("tok"), Some("+100")).is_err());
    assert!(is_webotp_domain_configured(Some("easy-web.tokyo")));
    assert!(!is_webotp_domain_configured(Some("   ")));
    assert!(!is_webotp_domain_configured(None));
}

#[test]
fn login_modes_are_exactly_four() {
    for m in ["none", "otp", "qr", "otp_qr"] {
        assert!(is_valid_login_mode(m));
    }
    assert!(!is_valid_login_mode("password"));
    assert!(!is_valid_login_mode("OTP"));
}

#[test]
fn requested_code_verifies_once_for_either_address() {
    let mut state = AuthState::new();
    let d = state.request_otp(" User@Example.com ", Some("backup@example.com"), true, NOW).expect("request");
    assert_eq!(d.recipients, vec!["user@example.com".to_string(), "backup@example.com".to_string()]);
    assert_eq!(d.code.len(), 6);
    assert_eq!(d.body, otp_email_body(&d.code));
    assert!(d.body.contains(&d.code));
    // a wrong guess does not use the code up
    let wrong = if d.code == "000000" { "111111" } else { "000000" };
    assert_eq!(state.verify_otp("user@example.com", wrong, NOW + 1000), Err(AuthError::IncorrectCode));
    let token = state.verify_otp("USER@example.com", &d.code, NOW + 1000).expect("correct code");
    assert_eq!(token.len(), 64);
    assert_eq!(state.session_email(&token, NOW + 2000), Some("user@example.com".to_string()));
    // single use
    assert_eq!(state.verify_otp("user@example.com", &d.code, NOW + 3000), Err(AuthError::NoPendingCode));
    // the backup address got the same code
    let token2 = state.verify_otp("backup@example.com", &format!(" {} ", d.code), NOW + 3000).expect("backup works");
    assert_ne!(token, token2);
}

#[test]
fn expired_code_is_refused_and_dropped() {
    let mut state = AuthState::new();
    let d = state.request_otp("a@b.c", None, true, NOW).expect("request");
    assert_eq!(state.verify_otp("a@b.c", &d.code, NOW + OTP_TTL_MS + 1), Err(AuthError::CodeExpired));
    assert_eq!(state.verify_otp("a@b.c", &d.code, NOW + OTP_TTL_MS + 2), Err(AuthError::NoPendingCode));
}

#[test]
fn resend_waits_for_the_cooldown() {
    let mut state = AuthState::new();
    state.request_otp("a@b.c", None, true, NOW).expect("first");
    assert!(matches!(state.request_otp("a@b.c", None, true, NOW + 1000), Err(AuthError::ResendTooSoon)));
    assert!(state.request_otp("a@b.c", None, true, NOW + OTP_RESEND_COOLDOWN_MS).is_ok());
}

#[test]
fn invalid_email1_is_refused() {
    let mut state = AuthState::new();
    assert!(matches!(state.request_otp("not-an-email", None, true, NOW), Err(AuthError::InvalidEmail1)));
    assert!(matches!(state.request_otp("   ", None, true, NOW), Err(AuthError::InvalidEmail1)));
}

#[test]
fn sessions_expire_and_logout_ends_them() {
    let mut state = AuthState::new();
    state.issue_session("me@example.com", "tok", NOW);
    assert_eq!(state.session_email("tok", NOW + SESSION_TTL_MS - 1), Some("me@example.com".to_string()));
    assert_eq!(state.session_email("tok", NOW + SESSION_TTL_MS), None);
    state.issue_session("me@example.com", "tok2", NOW);
    state.logout("tok2");
    assert_eq!(state.session_email("tok2", NOW + 1), None);
}

#[test]
fn qr_login_needs_confirmation_before_finish() {
    let mut state = AuthState::new();
    let d = state.request_otp("qr@example.com", None, true, NOW).expect("request");
    let link = state.verify_otp_start_2fa("qr@example.com", &d.code, NOW).expect("first factor");
    assert_eq!(link.len(), 32);
    assert_eq!(state.qr_login_masked_identifier(&link, NOW + 1), Some("qr***@example.com".to_string()));
    assert_eq!(state.qr_login_status(&link, NOW + 1), Some(false));
    assert_eq!(state.qr_login_finish(&link, NOW + 2), Err(AuthError::NotConfirmed));
    assert_eq!(state.qr_login_confirm(&link, NOW + 3), Ok(()));
    assert_eq!(state.qr_login_status(&link, NOW + 4), Some(true));
    let token = state.qr_login_finish(&link, NOW + 5).expect("confirmed link finishes");
    assert_eq!(state.session_email(&token, NOW + 6), Some("qr@example.com".to_string()));
    assert_eq!(state.qr_login_finish(&link, NOW + 7), Err(AuthError::QrLinkInvalid));
}

#[test]
fn qr_link_expires() {
    let mut state = AuthState::new();
    let link = state.start_qr_only_login(NOW).expect("link");
    assert_eq!(state.qr_login_masked_identifier(&link, NOW), Some("(qr-only login)".to_string()));
    assert_eq!(state.qr_login_status(&link, NOW + QR_LOGIN_TTL_MS), None);
    assert_eq!(state.qr_login_confirm(&link, NOW + QR_LOGIN_TTL_MS + 1), Err(AuthError::QrLinkExpired));
    assert_eq!(state.qr_login_confirm(&link, NOW + QR_LOGIN_TTL_MS + 2), Err(AuthError::QrLinkInvalid));
}

#[test]
fn masks_identifiers() {
    assert_eq!(mask_identifier("user@example.com"), "us***@example.com");
    assert_eq!(mask_identifier("u@example.com"), "u***@example.com");
    assert_eq!(mask_identifier("+81 90 1234 5678"), "+8***78");
    assert_eq!(mask_identifier("abcd"), "***");
    assert_eq!(mask_identifier("(qr-only login)"), "(qr-only login)");
}

#[test]
fn phone_numbers_are_checked_loosely() {
    assert!(looks_like_phone_number(" +81 (90) 1234-5678 "));
    assert!(!looks_like_phone_number("12345"));
    assert!(!looks_like_phone_number("81+901234"));
    assert!(!looks_like_phone_number("090-1234-abcd"));
}

#[test]
fn sms_request_and_body_with_webotp_line() {
    let mut state = AuthState::new();
    assert!(matches!(state.request_sms_otp("abc", true, None, NOW), Err(AuthError::InvalidPhone)));
    assert!(matches!(state.request_sms_otp("+81 90 1234 5678", false, None, NOW), Err(AuthError::SmsNotConfigured)));
    let d = state.request_sms_otp(" +81 90 1234 5678 ", true, Some(" easy-web.tokyo "), NOW).expect("sms");
    assert_eq!(d.to, "+81 90 1234 5678");
    assert_eq!(
        d.body,
        format!("Your open-english login code / open-englishのログインコード: {}\n@easy-web.tokyo #{}", d.code, d.code)
    );
    assert_eq!(sms_body("123456", None), "Your open-english login code / open-englishのログインコード: 123456");
    let token = state.verify_otp("+81 90 1234 5678", &d.code, NOW + 10).expect("phone code");
    assert_eq!(state.session_email(&token, NOW + 11), Some("+81 90 1234 5678".to_string()));
}

#[test]
fn totp_setup_keeps_an_existing_secret_and_labels() {
    let t = totp_setup(" Me@Example.com ", Some("JBSWY3DPEHPK3PXP"), Some("  my phone  ")).expect("setup");
    assert_eq!(t.secret, "JBSWY3DPEHPK3PXP");
    assert!(!t.newly_generated);
    assert_eq!(t.secret_setting_key, "totp_secret:me@example.com");
    assert_eq!(t.phone_label_setting, Some(("totp_phone_label:me@example.com".to_string(), "my phone".to_string())));
    assert!(t.qr_svg.expect("qr").contains("<svg"));
    let fresh = totp_setup("me@example.com", Some("  "), None).expect("setup");
    assert!(fresh.newly_generated);
    assert_eq!(fresh.secret.len(), 32);
    assert!(fresh.phone_label_setting.is_none());
    assert!(matches!(totp_setup("no-at-sign", None, None), Err(AuthError::InvalidEmail)));
    assert_eq!(totp_secret_key("A@B.C"), "totp_secret:a@b.c");
}

#[test]
fn totp_verify_opens_a_session() {
    let mut state = AuthState::new();
    let secret = "JBSWY3DPEHPK3PXP";
    let now_ms = NOW;
    let code = code_at(secret, (now_ms / 1000) as i64).expect("code");
    assert!(matches!(state.totp_verify("me@example.com", None, &code, now_ms), Err(AuthError::TotpNotSetUp)));
    let wrong = if code == "000000" { "111111" } else { "000000" };
    assert!(matches!(state.totp_verify("me@example.com", Some(secret), wrong, now_ms), Err(AuthError::IncorrectTotp)));
    let token = state.totp_verify(" ME@example.com", Some(secret), &code, now_ms).expect("totp");
    assert_eq!(state.session_email(&token, now_ms + 1), Some("me@example.com".to_string()));
}

#[test]
fn login_mode_settings() {
    assert_eq!(login_mode_from(Some("otp_qr"), Some("false")), "otp_qr");
    assert_eq!(login_mode_from(Some("bogus"), Some("true")), "otp");
    assert_eq!(login_mode_from(None, None), "none");
    assert_eq!(requested_login_mode(Some("qr"), None), Ok("qr".to_string()));
    assert_eq!(requested_login_mode(None, Some(true)), Ok("otp".to_string()));
    assert_eq!(requested_login_mode(None, Some(false)), Ok("none".to_string()));
    assert!(requested_login_mode(Some("x"), Some(true)).is_err());
    assert!(requested_login_mode(None, None).is_err());
    assert!(access_allowed("none", false));
    assert!(!access_allowed("otp", false));
    assert!(access_allowed("otp", true));
}

#[test]
fn http_helpers() {
    assert_eq!(session_set_cookie("abc"), "oe_session=abc; HttpOnly; SameSite=Lax; Path=/; Max-Age=86400");
    assert_eq!(session_clear_cookie(), "oe_session=; HttpOnly; SameSite=Lax; Path=/; Max-Age=0");
    assert_eq!(request_host_scheme(None, None), ("localhost".to_string(), "http"));
    assert_eq!(request_host_scheme(Some("ex.com"), Some("https")), ("ex.com".to_string(), "https"));
    assert_eq!(qr_confirm_url("https", "ex.com", "ab12"), "https://ex.com/qr-confirm.html?id=ab12");
    assert_eq!(normalize_identifier("  MiXed@Case.COM "), "mixed@case.com");
}

#[test]
fn fresh_totp_secret_signs_in_with_current_and_neighbouring_codes() {
    let setup = totp_setup("me@example.com", None, None).expect("setup");
    assert!(setup.newly_generated);
    let now_ms: u64 = 1_723_000_015_000;
    let now = (now_ms / 1000) as i64;
    for shown_at in [now - 30, now, now + 30] {
        let code = code_at(&setup.secret, shown_at).expect("valid secret");
        let mut state = AuthState::new();
        let token = state.totp_verify("Me@Example.com", Some(&setup.secret), &code, now_ms).expect("signs in");
        assert_eq!(state.session_email(&token, now_ms), Some("me@example.com".to_string()));
    }
}

#[test]
fn otp_code_from_bytes_reads_little_endian_modulo_a_million() {
    assert_eq!(otp_code_from_bytes(&[1, 0, 0, 0]), "000001");
    assert_eq!(otp_code_from_bytes(&[0x40, 0x42, 0x0f, 0x00]), "000000");
    assert_eq!(otp_code_from_bytes(&[0x39, 0x30, 0, 0]), "012345");
    assert_eq!(otp_code_from_bytes(&[0xff, 0xff, 0xff, 0xff]), "967295");
}

#[test]
fn refused_sms_withdraws_its_code() {
    let mut state = AuthState::new();
    let d = state.request_sms_otp("+81 90-1234-5678", true, None, NOW).expect("code stored");
    state.finish_sms_send(&d.to, SmsSendOutcome::RequestFailed);
    assert_eq!(state.verify_otp(&d.to, "abc", NOW + 1000), Err(AuthError::IncorrectCode));
    state.finish_sms_send(&d.to, SmsSendOutcome::Refused);
    assert_eq!(state.verify_otp(&d.to, &d.code, NOW + 1000), Err(AuthError::NoPendingCode));
}
