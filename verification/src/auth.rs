//! E-mail / SMS one-time codes, QR-confirmed second factor, TOTP sign-in
//! and cookie sessions. The login state lives in `AuthState`; every
//! operation takes the current time in milliseconds since the UNIX epoch.

use vstd::prelude::*;
use vstd::string::StringSliceAdditionalSpecFns;
use crate::text::{
    chars_of, chars_eq, string_from_chars, trim, trimmed, trim_chars, unicode_lowercase, lowercase,
    is_ascii_digit, starts_with, push_str, push_chars, first_index_of, index_of_char, slice_chars, split_on, lemma_split_on_nonempty, lemma_split_on_step, is_ws,
    parse_uint, parse_unsigned, starts_with_chars, opt_str, opt_string,
};
use crate::rng::{secure_random_bytes, random_hex, hex_of};
use vstd::utf8::encode_utf8;
use crate::totp::{
    six_digits, six_digit_chars, qr_svg_of, otpauth_uri_spec, totp_accepts, generate_secret,
    base32_encode_spec, totp_qr_svg, verify_code, totp_code, base32_round_trip, code_accepted_within_one_step,
    totp_code_is_six_digits,
};
use crate::table::Table;

verus! {

/// Lifetime of an e-mail / SMS code.
pub const OTP_TTL_MS: u64 = 600000;
/// Minimum time between two codes sent to the same address.
pub const OTP_RESEND_COOLDOWN_MS: u64 = 60000;
/// Lifetime of a login session.
pub const SESSION_TTL_MS: u64 = 86400000;
/// Lifetime of a QR confirmation link.
pub const QR_LOGIN_TTL_MS: u64 = 180000;
/// Clock values must stay below this (far beyond any real date), so that
/// adding a lifetime never overflows.
pub const MAX_CLOCK_MS: u64 = 4611686018427387904;

pub const SESSION_COOKIE_NAME: &'static str = "oe_session";
pub const LOGIN_REQUIRED_SETTING_KEY: &'static str = "login_required";
/// Login method setting: `"none"`, `"otp"`, `"qr"` or `"otp_qr"`.
pub const LOGIN_MODE_SETTING_KEY: &'static str = "login_mode";

/// How handing an SMS to the provider ended: sent, the request did not get
/// through, or the provider answered with an error status.
pub enum SmsSendOutcome {
    Sent,
    RequestFailed,
    Refused,
}

/// Why an authentication step was refused.
#[derive(PartialEq, Eq, Debug, Clone, Copy, Structural)]
pub enum AuthError {
    InvalidEmail1,
    InvalidEmail2,
    InvalidEmail,
    InvalidPhone,
    SmtpNotConfigured,
    SmsNotConfigured,
    ResendTooSoon,
    NoPendingCode,
    CodeExpired,
    IncorrectCode,
    RandomSourceFailed,
    QrLinkInvalid,
    QrLinkExpired,
    NotConfirmed,
    TotpNotSetUp,
    IncorrectTotp,
    QrRenderFailed,
}

/// The message shown to the user for each refusal.
pub open spec fn error_text(e: AuthError) -> Seq<char> {
    match e {
        AuthError::InvalidEmail1 => "invalid email address (email1)"@,
        AuthError::InvalidEmail2 => "invalid email address (email2)"@,
        AuthError::InvalidEmail => "invalid email address"@,
        AuthError::InvalidPhone => "invalid phone number (use digits, spaces, -, (), and an optional leading + for the country code)"@,
        AuthError::SmtpNotConfigured => "SMTP not configured: SMTP is not configured (set OPEN_ENGLISH_SMTP_HOST/_USER/_PASSWORD/_FROM)"@,
        AuthError::SmsNotConfigured => "SMS not configured: SMS is not configured (set OPEN_ENGLISH_TWILIO_ACCOUNT_SID/_AUTH_TOKEN/_FROM_NUMBER)"@,
        AuthError::ResendTooSoon => "please wait before requesting another code"@,
        AuthError::NoPendingCode => "no pending code for this identifier (request one first)"@,
        AuthError::CodeExpired => "code expired, please request a new one"@,
        AuthError::IncorrectCode => "incorrect code"@,
        AuthError::RandomSourceFailed => "system RNG failure"@,
        AuthError::QrLinkInvalid => "this QR login link is invalid or has expired"@,
        AuthError::QrLinkExpired => "this QR login link has expired, please try again"@,
        AuthError::NotConfirmed => "not confirmed yet"@,
        AuthError::TotpNotSetUp => "TOTP is not set up for this email yet (set it up first) / このメールアドレスにはまだTOTPが設定されていません(先に設定してください)"@,
        AuthError::IncorrectTotp => "incorrect or expired TOTP code / TOTPコードが正しくないか期限切れです"@,
        AuthError::QrRenderFailed => "QRコード生成に失敗しました / QR code generation failed"@,
    }
}

impl AuthError {
    /// The message shown to the user.
    pub fn message(&self) -> (m: String)
        ensures
            m@ == error_text(*self),
    {
        let s = match self {
            AuthError::InvalidEmail1 => "invalid email address (email1)",
            AuthError::InvalidEmail2 => "invalid email address (email2)",
            AuthError::InvalidEmail => "invalid email address",
            AuthError::InvalidPhone => "invalid phone number (use digits, spaces, -, (), and an optional leading + for the country code)",
            AuthError::SmtpNotConfigured => "SMTP not configured: SMTP is not configured (set OPEN_ENGLISH_SMTP_HOST/_USER/_PASSWORD/_FROM)",
            AuthError::SmsNotConfigured => "SMS not configured: SMS is not configured (set OPEN_ENGLISH_TWILIO_ACCOUNT_SID/_AUTH_TOKEN/_FROM_NUMBER)",
            AuthError::ResendTooSoon => "please wait before requesting another code",
            AuthError::NoPendingCode => "no pending code for this identifier (request one first)",
            AuthError::CodeExpired => "code expired, please request a new one",
            AuthError::IncorrectCode => "incorrect code",
            AuthError::RandomSourceFailed => "system RNG failure",
            AuthError::QrLinkInvalid => "this QR login link is invalid or has expired",
            AuthError::QrLinkExpired => "this QR login link has expired, please try again",
            AuthError::NotConfirmed => "not confirmed yet",
            AuthError::TotpNotSetUp => "TOTP is not set up for this email yet (set it up first) / このメールアドレスにはまだTOTPが設定されていません(先に設定してください)",
            AuthError::IncorrectTotp => "incorrect or expired TOTP code / TOTPコードが正しくないか期限切れです",
            AuthError::QrRenderFailed => "QRコード生成に失敗しました / QR code generation failed",
        };
        String::from_str(s)
    }
}

/// Whether `s` names a login method.
pub fn is_valid_login_mode(s: &str) -> (b: bool)
    ensures
        b == (s@ == "none"@ || s@ == "otp"@ || s@ == "qr"@ || s@ == "otp_qr"@),
{
    let cs = chars_of(s);
    chars_eq(&cs, &chars_of("none")) || chars_eq(&cs, &chars_of("otp")) || chars_eq(
        &cs,
        &chars_of("qr"),
    ) || chars_eq(&cs, &chars_of("otp_qr"))
}

/// Compares two strings byte by byte, looking at every byte whatever the
/// earlier ones were (only the lengths are compared early).
pub fn constant_time_eq(a: &str, b: &str) -> (r: bool)
    ensures
        r == (a@ == b@),
{
    let x = a.as_bytes();
    let y = b.as_bytes();
    proof {
        vstd::utf8::encode_utf8_decode_utf8(a@);
        vstd::utf8::encode_utf8_decode_utf8(b@);
    }
    if x.len() != y.len() {
        return false;
    }
    let mut diff: u8 = 0;
    let mut i: usize = 0;
    while i < x.len()
        invariant
            i <= x.len(),
            x.len() == y.len(),
            (diff == 0) == (forall|j: int| 0 <= j < i ==> x@[j] == y@[j]),
        decreases x.len() - i,
    {
        let xi = x[i];
        let yi = y[i];
        let nd = diff | (xi ^ yi);
        assert(nd == 0 <==> (diff == 0 && xi == yi)) by (bit_vector)
            requires
                nd == diff | (xi ^ yi),
        ;
        diff = nd;
        i = i + 1;
    }
    let r = diff == 0;
    if r {
        assert(x@ =~= y@);
    }
    r
}

// ---------------------------------------------------------------------------
// Codes

/// Every character of a six-digit code is a digit, none is white space.
pub proof fn lemma_six_digits(n: int)
    requires
        0 <= n < 1000000,
    ensures
        six_digits(n).len() == 6,
        forall|i: int| 0 <= i < 6 ==> is_ascii_digit(#[trigger] six_digits(n)[i]),
        trim(six_digits(n)) == six_digits(n),
{
    let s = six_digits(n);
    assert(!is_ws(s[0]));
    assert(!is_ws(s.last()));
}

/// The number that four bytes give read little-endian (`u32::from_le_bytes`).
pub open spec fn le_u32(b: Seq<u8>) -> int {
    b[0] as int + b[1] as int * 256 + b[2] as int * 65536 + b[3] as int * 16777216
}

/// The login code that four random bytes give: their little-endian number
/// modulo 1,000,000, as six digits.
pub open spec fn otp_code_of(b: Seq<u8>) -> Seq<char> {
    six_digits(le_u32(b) % 1000000)
}

/// A code drawn from four random bytes.
pub open spec fn is_drawn_code(c: Seq<char>) -> bool {
    exists|b: Seq<u8>| b.len() == 4 && c == otp_code_of(b)
}

/// A drawn code is a six-digit code.
pub proof fn lemma_drawn_code_is_code(c: Seq<char>)
    requires
        is_drawn_code(c),
    ensures
        is_code(c),
{
    let b = choose|b: Seq<u8>| b.len() == 4 && c == otp_code_of(b);
    let n = le_u32(b) % 1000000;
    assert(0 <= n < 1000000 && c == six_digits(n));
}

/// The six-digit code of four bytes.
pub fn otp_code_from_bytes(b: &[u8]) -> (s: String)
    requires
        b@.len() == 4,
    ensures
        s@ == otp_code_of(b@),
{
    let n: u32 = b[0] as u32 + b[1] as u32 * 256 + b[2] as u32 * 65536 + b[3] as u32 * 16777216;
    let c = six_digit_chars(n % 1000000);
    string_from_chars(&c)
}

/// A six-digit code from four secure random bytes (little-endian, modulo
/// 1,000,000); `None` when the random source fails.
pub fn random_otp_code() -> (res: Option<String>)
    ensures
        res matches Some(s) ==> is_drawn_code(s@),
{
    match secure_random_bytes(4) {
        None => None,
        Some(b) => {
            let s = otp_code_from_bytes(b.as_slice());
            assert(b@.len() == 4 && s@ == otp_code_of(b@));
            Some(s)
        },
    }
}

/// Identifiers are compared after trimming and Unicode lower-casing.
pub open spec fn normalize(s: Seq<char>) -> Seq<char> {
    unicode_lowercase(trim(s))
}

pub fn normalize_identifier(s: &str) -> (res: String)
    ensures
        res@ == normalize(s@),
{
    let t = string_from_chars(&trimmed(s));
    lowercase(t.as_str())
}

/// A usable e-mail address after normalizing: not empty, contains `@`.
pub open spec fn email_ok(e: Seq<char>) -> bool {
    e.len() > 0 && e.contains('@')
}

fn email_valid(e: &String) -> (b: bool)
    ensures
        b == email_ok(e@),
{
    let cs = chars_of(e.as_str());
    cs.len() > 0 && crate::text::has_char(&cs, '@')
}

/// The addresses a code goes to: `email1` normalized, and `email2` normalized
/// unless it is blank or the same as `email1`.
pub open spec fn otp_recipients_spec(email1: Seq<char>, email2: Option<Seq<char>>) -> Result<(Seq<char>, Option<Seq<char>>), AuthError> {
    let e1 = normalize(email1);
    if !email_ok(e1) {
        Err(AuthError::InvalidEmail1)
    } else {
        match email2 {
            None => Ok((e1, None)),
            Some(raw) => {
                let e2 = normalize(raw);
                if e2.len() == 0 {
                    Ok((e1, None))
                } else if !e2.contains('@') {
                    Err(AuthError::InvalidEmail2)
                } else if e2 == e1 {
                    Ok((e1, None))
                } else {
                    Ok((e1, Some(e2)))
                }
            },
        }
    }
}

/// Validates and normalizes the primary and backup addresses of a code request.
pub fn otp_recipients(email1: &str, email2: Option<&str>) -> (res: Result<(String, Option<String>), AuthError>)
    ensures
        match (res, otp_recipients_spec(email1@, opt_str(email2))) {
            (Ok((a, b)), Ok((sa, sb))) => a@ == sa && opt_string(b) == sb,
            (Err(e), Err(se)) => e == se,
            _ => false,
        },
{
    let e1 = normalize_identifier(email1);
    if !email_valid(&e1) {
        return Err(AuthError::InvalidEmail1);
    }
    match email2 {
        None => Ok((e1, None)),
        Some(raw) => {
            let e2 = normalize_identifier(raw);
            let c2 = chars_of(e2.as_str());
            if c2.len() == 0 {
                Ok((e1, None))
            } else if !crate::text::has_char(&c2, '@') {
                Err(AuthError::InvalidEmail2)
            } else if e2 == e1 {
                Ok((e1, None))
            } else {
                Ok((e1, Some(e2)))
            }
        },
    }
}

/// Body of the e-mail that carries a code.
pub open spec fn otp_email_body_spec(code: Seq<char>) -> Seq<char> {
    "Your open-english login code / open-englishのログインコード: "@ + code
        + "\n\nThis code expires in 10 minutes. / このコードは10分で失効します。\nIf you did not request this, you can safely ignore this email. / 心当たりが無い場合は、このメールを無視して構いません。"@
}

pub fn otp_email_body(code: &str) -> (res: String)
    ensures
        res@ == otp_email_body_spec(code@),
{
    let mut out: Vec<char> = Vec::new();
    push_str(&mut out, "Your open-english login code / open-englishのログインコード: ");
    push_str(&mut out, code);
    push_str(
        &mut out,
        "\n\nThis code expires in 10 minutes. / このコードは10分で失効します。\nIf you did not request this, you can safely ignore this email. / 心当たりが無い場合は、このメールを無視して構いません。",
    );
    string_from_chars(&out)
}

// ---------------------------------------------------------------------------
// Masking, phone numbers, cookies

/// The identifier as shown on the confirmation page: placeholders in
/// parentheses as they are; e-mail addresses with the local part cut to its
/// first two characters; other identifiers longer than four characters as
/// first two and last two characters; anything else fully hidden.
pub open spec fn mask_spec(s: Seq<char>) -> Seq<char> {
    if s.len() > 0 && s[0] == '(' {
        s
    } else if s.contains('@') {
        let at = first_index_of(s, '@');
        s.take(if at < 2 { at } else { 2 }) + "***"@ + s.skip(at)
    } else if s.len() > 4 {
        s.take(2) + "***"@ + s.skip(s.len() - 2)
    } else {
        "***"@
    }
}

pub fn mask_identifier(s: &str) -> (res: String)
    ensures
        res@ == mask_spec(s@),
{
    let cs = chars_of(s);
    if cs.len() > 0 && cs[0] == '(' {
        return string_from_chars(&cs);
    }
    let mut out: Vec<char> = Vec::new();
    match index_of_char(&cs, '@') {
        Some(at) => {
            let keep = if at < 2 {
                at
            } else {
                2
            };
            push_chars(&mut out, &slice_chars(&cs, 0, keep));
            push_str(&mut out, "***");
            push_chars(&mut out, &slice_chars(&cs, at, cs.len()));
            proof {
                assert(cs@.subrange(0, keep as int) =~= cs@.take(keep as int));
                assert(cs@.subrange(at as int, cs@.len() as int) =~= cs@.skip(at as int));
            }
        },
        None => {
            if cs.len() > 4 {
                push_chars(&mut out, &slice_chars(&cs, 0, 2));
                push_str(&mut out, "***");
                push_chars(&mut out, &slice_chars(&cs, cs.len() - 2, cs.len()));
                proof {
                    assert(cs@.subrange(0, 2) =~= cs@.take(2));
                    assert(cs@.subrange(cs@.len() - 2, cs@.len() as int) =~= cs@.skip(cs@.len() - 2));
                }
            } else {
                push_str(&mut out, "***");
            }
        },
    }
    string_from_chars(&out)
}

/// Characters allowed at position `i` of a phone number.
pub open spec fn phone_char_ok(c: char, i: int) -> bool {
    is_ascii_digit(c) || c == ' ' || c == '-' || c == '(' || c == ')' || (i == 0 && c == '+')
}

/// After trimming: 6 to 20 characters, each a digit, space, `-`, `(`, `)`,
/// or a leading `+`. (Every accepted character is ASCII, so the length in
/// characters is also the length in bytes.)
pub open spec fn phone_ok(s: Seq<char>) -> bool {
    let t = trim(s);
    6 <= t.len() <= 20 && forall|i: int| 0 <= i < t.len() ==> phone_char_ok(#[trigger] t[i], i)
}

pub fn looks_like_phone_number(s: &str) -> (b: bool)
    ensures
        b == phone_ok(s@),
{
    let t = trimmed(s);
    if t.len() < 6 || t.len() > 20 {
        return false;
    }
    let mut i: usize = 0;
    while i < t.len()
        invariant
            i <= t.len(),
            t@ == trim(s@),
            forall|j: int| 0 <= j < i ==> phone_char_ok(#[trigger] t@[j], j),
        decreases t.len() - i,
    {
        let c = t[i];
        if !(('0' <= c && c <= '9') || c == ' ' || c == '-' || c == '(' || c == ')' || (i == 0 && c
            == '+')) {
            assert(!phone_char_ok(t@[i as int], i as int));
            assert(trim(s@)[i as int] == t@[i as int]);
            return false;
        }
        i = i + 1;
    }
    true
}

/// `piece` (trimmed) carries the session cookie.
pub open spec fn is_session_piece(piece: Seq<char>) -> bool {
    starts_with(trim(piece), "oe_session="@)
}

/// `j` is the first `;`-separated piece of `h` that carries the session cookie.
pub open spec fn first_session_piece(h: Seq<char>, j: int) -> bool {
    let ps = split_on(h, ';');
    0 <= j < ps.len() && is_session_piece(ps[j]) && forall|i: int|
        0 <= i < j ==> !is_session_piece(#[trigger] ps[i])
}

/// The value of the first `oe_session=` cookie in a `Cookie` header.
pub open spec fn session_cookie_spec(header: Option<Seq<char>>) -> Option<Seq<char>> {
    match header {
        None => None,
        Some(h) => if exists|j: int| first_session_piece(h, j) {
            let j = choose|j: int| first_session_piece(h, j);
            Some(trim(split_on(h, ';')[j]).skip(11))
        } else {
            None
        },
    }
}

fn piece_is_session(piece: &Vec<char>) -> (r: Option<Vec<char>>)
    ensures
        r is Some <==> is_session_piece(piece@),
        r matches Some(v) ==> v@ == trim(piece@).skip(11),
{
    let t = trim_chars(piece);
    let name = chars_of("oe_session=");
    assert(name@.len() == 11) by {
        reveal_strlit("oe_session=");
    }
    if starts_with_chars(&t, &name) {
        let v = slice_chars(&t, 11, t.len());
        assert(v@ =~= t@.skip(11));
        Some(v)
    } else {
        None
    }
}

/// The value of the `oe_session` cookie in a `Cookie` request header.
pub fn extract_session_cookie(cookie_header: Option<&str>) -> (res: Option<String>)
    ensures
        match (res, session_cookie_spec(opt_str(cookie_header))) {
            (Some(v), Some(sv)) => v@ == sv,
            (None, None) => true,
            _ => false,
        },
{
    let header = match cookie_header {
        None => return None,
        Some(h) => h,
    };
    let h = chars_of(header);
    let mut piece: Vec<char> = Vec::new();
    let mut i: usize = 0;
    let ghost mut done: int = 0;
    proof {
        assert(h@.take(0) =~= seq![]);
    }
    while i < h.len()
        invariant
            i <= h.len(),
            h@ == header@,
            cookie_header == Some(header),
            done + 1 == split_on(h@.take(i as int), ';').len(),
            piece@ == split_on(h@.take(i as int), ';').last(),
            forall|k: int|
                0 <= k < done ==> !is_session_piece(#[trigger] split_on(h@.take(i as int), ';')[k]),
        decreases h.len() - i,
    {
        proof {
            lemma_split_on_step(h@, i as int, ';');
            lemma_split_on_nonempty(h@.take(i as int), ';');
        }
        if h[i] == ';' {
            match piece_is_session(&piece) {
                Some(v) => {
                    proof {
                        let ps = split_on(h@, ';');
                        let pi = split_on(h@.take(i as int), ';');
                        let pn = split_on(h@.take(i + 1), ';');
                        assert(pn == pi.push(seq![]));
                        assert(pn.len() == done + 2);
                        assert(pn[done] == pi[done]);
                        lemma_split_prefix(h@, i as int + 1);
                        assert(ps[done] == pn[done]);
                        assert(ps[done] == pi[done]);
                        assert(piece@ == pi[done]);
                        assert forall|k: int| 0 <= k < done implies !is_session_piece(#[trigger] ps[k]) by {
                            assert(ps[k] == pn[k]);
                            assert(pn[k] == pi[k]);
                        }
                        assert(first_session_piece(h@, done));
                        lemma_first_piece_unique(h@, done);
                        assert(opt_str(cookie_header) == Some(h@));
                        assert(session_cookie_spec(Some(h@)) == Some(trim(ps[done]).skip(11)));
                    }
                    return Some(string_from_chars(&v));
                },
                None => {
                    piece = Vec::new();
                    proof {
                        done = done + 1;
                    }
                },
            }
        } else {
            piece.push(h[i]);
        }
        i = i + 1;
    }
    proof {
        assert(h@.take(i as int) =~= h@);
        assert(split_on(h@.take(i as int), ';') == split_on(h@, ';'));
        lemma_split_on_nonempty(h@, ';');
    }
    match piece_is_session(&piece) {
        Some(v) => {
            proof {
                let ps = split_on(h@, ';');
                assert(piece@ == ps[done]);
                assert(first_session_piece(h@, done));
                lemma_first_piece_unique(h@, done);
                assert(session_cookie_spec(Some(h@)) == Some(trim(ps[done]).skip(11)));
            }
            Some(string_from_chars(&v))
        },
        None => {
            proof {
                let ps = split_on(h@, ';');
                assert(piece@ == ps[done]);
                assert forall|j: int| !first_session_piece(h@, j) by {
                    if first_session_piece(h@, j) {
                        assert(j <= done);
                        if j < done {
                            assert(!is_session_piece(ps[j]));
                        }
                    }
                }
                assert(session_cookie_spec(Some(h@)) is None);
            }
            None
        },
    }
}

proof fn lemma_first_piece_unique(h: Seq<char>, j: int)
    requires
        first_session_piece(h, j),
    ensures
        (choose|k: int| first_session_piece(h, k)) == j,
{
    let k = choose|k: int| first_session_piece(h, k);
    assert(first_session_piece(h, k));
    if k < j {
        assert(!is_session_piece(split_on(h, ';')[k]));
    }
    if j < k {
        assert(!is_session_piece(split_on(h, ';')[j]));
    }
}

/// The pieces of a prefix that ends just after a separator stay pieces of
/// the whole string.
proof fn lemma_split_prefix(h: Seq<char>, n: int)
    requires
        0 < n <= h.len(),
        h[n - 1] == ';',
    ensures
        forall|k: int|
            0 <= k < split_on(h.take(n), ';').len() - 1 ==> #[trigger] split_on(h, ';')[k]
                == split_on(h.take(n), ';')[k],
        split_on(h.take(n), ';').len() <= split_on(h, ';').len(),
    decreases h.len() - n,
{
    lemma_split_prefix_ext(h, n, h.len() as int);
    assert(h.take(h.len() as int) =~= h);
}

proof fn lemma_split_prefix_ext(h: Seq<char>, n: int, m: int)
    requires
        0 < n <= m <= h.len(),
        h[n - 1] == ';',
    ensures
        forall|k: int|
            0 <= k < split_on(h.take(n), ';').len() - 1 ==> #[trigger] split_on(h.take(m), ';')[k]
                == split_on(h.take(n), ';')[k],
        split_on(h.take(n), ';').len() <= split_on(h.take(m), ';').len(),
    decreases m - n,
{
    if m > n {
        lemma_split_prefix_ext(h, n, m - 1);
        lemma_split_on_step(h, m - 1, ';');
        lemma_split_on_nonempty(h.take(m - 1), ';');
    }
    if m == h.len() {
        assert(h.take(m) =~= h);
    }
}

// ---------------------------------------------------------------------------
// Login state

/// A code waiting to be entered.
pub struct OtpRecord {
    pub code: Seq<char>,
    pub expires_at: int,
    pub last_sent_at: int,
}

/// A signed-in session.
pub struct SessionRecord {
    pub email: Seq<char>,
    pub expires_at: int,
}

/// A QR confirmation link.
pub struct QrRecord {
    pub identifier: Seq<char>,
    pub confirmed: bool,
    pub expires_at: int,
}

/// The login state: pending codes by identifier, sessions by token, QR
/// confirmations by link id.
pub struct AuthView {
    pub otps: Map<Seq<char>, OtpRecord>,
    pub sessions: Map<Seq<char>, SessionRecord>,
    pub qr_logins: Map<Seq<char>, QrRecord>,
}

struct OtpEntry {
    code: String,
    expires_at: u64,
    last_sent_at: u64,
}

impl View for OtpEntry {
    type V = OtpRecord;

    closed spec fn view(&self) -> OtpRecord {
        OtpRecord {
            code: self.code@,
            expires_at: self.expires_at as int,
            last_sent_at: self.last_sent_at as int,
        }
    }
}

struct SessionEntry {
    email: String,
    expires_at: u64,
}

impl View for SessionEntry {
    type V = SessionRecord;

    closed spec fn view(&self) -> SessionRecord {
        SessionRecord { email: self.email@, expires_at: self.expires_at as int }
    }
}

struct QrLoginEntry {
    identifier: String,
    confirmed: bool,
    expires_at: u64,
}

impl View for QrLoginEntry {
    type V = QrRecord;

    closed spec fn view(&self) -> QrRecord {
        QrRecord {
            identifier: self.identifier@,
            confirmed: self.confirmed,
            expires_at: self.expires_at as int,
        }
    }
}

/// Pending codes, sessions and QR confirmations of one server.
pub struct AuthState {
    otps: Table<OtpEntry>,
    sessions: Table<SessionEntry>,
    qr_logins: Table<QrLoginEntry>,
}

impl View for AuthState {
    type V = AuthView;

    closed spec fn view(&self) -> AuthView {
        AuthView { otps: self.otps@, sessions: self.sessions@, qr_logins: self.qr_logins@ }
    }
}

/// The state with `sessions` replaced.
pub open spec fn with_sessions(v: AuthView, s: Map<Seq<char>, SessionRecord>) -> AuthView {
    AuthView { otps: v.otps, sessions: s, qr_logins: v.qr_logins }
}

/// The state with `otps` replaced.
pub open spec fn with_otps(v: AuthView, o: Map<Seq<char>, OtpRecord>) -> AuthView {
    AuthView { otps: o, sessions: v.sessions, qr_logins: v.qr_logins }
}

/// The state with `qr_logins` replaced.
pub open spec fn with_qr_logins(v: AuthView, q: Map<Seq<char>, QrRecord>) -> AuthView {
    AuthView { otps: v.otps, sessions: v.sessions, qr_logins: q }
}

/// A session for `email` under `token`, valid for `SESSION_TTL_MS`.
pub open spec fn open_session(v: AuthView, email: Seq<char>, token: Seq<char>, now: int) -> AuthView {
    with_sessions(v, v.sessions.insert(token, SessionRecord { email, expires_at: now + SESSION_TTL_MS }))
}

/// Looks a session up: its e-mail while it is live; an expired session is
/// dropped.
pub open spec fn session_lookup(v: AuthView, token: Seq<char>, now: int) -> (AuthView, Option<Seq<char>>) {
    if !v.sessions.contains_key(token) {
        (v, None)
    } else if v.sessions[token].expires_at > now {
        (v, Some(v.sessions[token].email))
    } else {
        (with_sessions(v, v.sessions.remove(token)), None)
    }
}

/// Checks a code for an identifier (normalized) and consumes it on success.
/// An expired code is dropped; a wrong code stays pending.
pub open spec fn check_code(v: AuthView, raw_id: Seq<char>, code: Seq<char>, now: int) -> (AuthView, Result<Seq<char>, AuthError>) {
    let id = normalize(raw_id);
    if !v.otps.contains_key(id) {
        (v, Err(AuthError::NoPendingCode))
    } else if now > v.otps[id].expires_at {
        (with_otps(v, v.otps.remove(id)), Err(AuthError::CodeExpired))
    } else if v.otps[id].code != trim(code) {
        (v, Err(AuthError::IncorrectCode))
    } else {
        (with_otps(v, v.otps.remove(id)), Ok(id))
    }
}

/// A session token: 32 random bytes in hexadecimal.
pub open spec fn is_session_token(t: Seq<char>) -> bool {
    exists|b: Seq<u8>| b.len() == 32 && t == hex_of(b)
}

/// A QR link id: 16 random bytes in hexadecimal.
pub open spec fn is_qr_link_id(t: Seq<char>) -> bool {
    exists|b: Seq<u8>| b.len() == 16 && t == hex_of(b)
}

impl AuthState {
    /// No codes, sessions or QR links.
    pub fn new() -> (s: Self)
        ensures
            s@.otps == Map::<Seq<char>, OtpRecord>::empty(),
            s@.sessions == Map::<Seq<char>, SessionRecord>::empty(),
            s@.qr_logins == Map::<Seq<char>, QrRecord>::empty(),
    {
        AuthState { otps: Table::new(), sessions: Table::new(), qr_logins: Table::new() }
    }

    /// Opens a session for `email` under `token` (a fresh random token).
    pub fn issue_session(&mut self, email: &str, token: &str, now_ms: u64)
        requires
            now_ms <= MAX_CLOCK_MS,
        ensures
            final(self)@ == open_session(old(self)@, email@, token@, now_ms as int),
    {
        let entry = SessionEntry {
            email: String::from_str(email),
            expires_at: now_ms + SESSION_TTL_MS,
        };
        self.sessions.insert(String::from_str(token), entry);
        assert(self@ =~= open_session(old(self)@, email@, token@, now_ms as int));
    }

    /// The e-mail signed in under `token`, if the session is live; an expired
    /// session is removed.
    pub fn session_email(&mut self, token: &str, now_ms: u64) -> (res: Option<String>)
        ensures
            (final(self)@, opt_string(res)) == session_lookup(old(self)@, token@, now_ms as int),
    {
        let found = match self.sessions.get(token) {
            None => None,
            Some(e) => Some((e.email.clone(), e.expires_at)),
        };
        match found {
            None => None,
            Some((email, expires_at)) => {
                if expires_at > now_ms {
                    Some(email)
                } else {
                    self.sessions.remove(token);
                    assert(self@ =~= with_sessions(old(self)@, old(self)@.sessions.remove(token@)));
                    None
                }
            },
        }
    }

    /// Ends the session under `token`.
    pub fn logout(&mut self, token: &str)
        ensures
            final(self)@ == with_sessions(old(self)@, old(self)@.sessions.remove(token@)),
    {
        self.sessions.remove(token);
        assert(self@ =~= with_sessions(old(self)@, old(self)@.sessions.remove(token@)));
    }

    /// Checks `code` against the pending code of `identifier` (normalized),
    /// consuming it when it matches; returns the normalized identifier.
    fn verify_otp_code_only(&mut self, identifier: &str, code: &str, now_ms: u64) -> (res: Result<String, AuthError>)
        ensures
            (final(self)@, res_str(res)) == check_code(old(self)@, identifier@, code@, now_ms as int),
    {
        let id = normalize_identifier(identifier);
        let found = match self.otps.get(id.as_str()) {
            None => None,
            Some(e) => Some((e.code.clone(), e.expires_at)),
        };
        match found {
            None => Err(AuthError::NoPendingCode),
            Some((stored, expires_at)) => {
                if now_ms > expires_at {
                    self.otps.remove(id.as_str());
                    assert(self@ =~= with_otps(old(self)@, old(self)@.otps.remove(id@)));
                    return Err(AuthError::CodeExpired);
                }
                let given = string_from_chars(&trimmed(code));
                if !constant_time_eq(stored.as_str(), given.as_str()) {
                    return Err(AuthError::IncorrectCode);
                }
                self.otps.remove(id.as_str());
                assert(self@ =~= with_otps(old(self)@, old(self)@.otps.remove(id@)));
                Ok(id)
            },
        }
    }

    /// Checks an e-mail code and, when it matches, opens a session under a
    /// fresh random token.
    pub fn verify_otp(&mut self, email: &str, code: &str, now_ms: u64) -> (res: Result<String, AuthError>)
        requires
            now_ms <= MAX_CLOCK_MS,
        ensures
            match check_code(old(self)@, email@, code@, now_ms as int) {
                (v1, Err(e)) => res_str(res) == Err::<Seq<char>, AuthError>(e) && final(self)@ == v1,
                (v1, Ok(id)) => match res {
                    Ok(tok) => is_session_token(tok@) && final(self)@ == open_session(v1, id, tok@, now_ms as int),
                    Err(e) => e == AuthError::RandomSourceFailed && final(self)@ == v1,
                },
            },
    {
        let id = self.verify_otp_code_only(email, code, now_ms)?;
        match random_hex(32) {
            None => Err(AuthError::RandomSourceFailed),
            Some(token) => {
                self.issue_session(id.as_str(), token.as_str(), now_ms);
                Ok(token)
            },
        }
    }

    /// Drops the QR links that have expired at `now`.
    fn prune_qr_logins(&mut self, now_ms: u64)
        ensures
            final(self)@ == with_qr_logins(old(self)@, live_qr(old(self)@.qr_logins, now_ms as int)),
    {
        let ghost q0 = self@.qr_logins;
        let ghost v0 = self@;
        let ks = self.qr_logins.keys();
        let mut i: usize = 0;
        while i < ks.len()
            invariant
                i <= ks.len(),
                v0 == old(self)@,
                q0 == v0.qr_logins,
                forall|j: int| 0 <= j < ks.len() ==> q0.contains_key(#[trigger] ks@[j]@),
                forall|k: Seq<char>| q0.contains_key(k) ==> exists|j: int| 0 <= j < ks.len() && #[trigger] ks@[j]@ == k,
                self@.otps == v0.otps,
                self@.sessions == v0.sessions,
                forall|k: Seq<char>| #![auto]
                    self@.qr_logins.contains_key(k) <==> (q0.contains_key(k) && !((exists|j: int| 0 <= j < i && ks@[j]@ == k) && q0[k].expires_at <= now_ms)),
                forall|k: Seq<char>| #![auto] self@.qr_logins.contains_key(k) ==> self@.qr_logins[k] == q0[k],
            decreases ks.len() - i,
        {
            let expired = match self.qr_logins.get(ks[i].as_str()) {
                None => false,
                Some(e) => e.expires_at <= now_ms,
            };
            if expired {
                self.qr_logins.remove(ks[i].as_str());
            }
            proof {
                assert forall|k: Seq<char>| #![auto]
                    self@.qr_logins.contains_key(k) <==> (q0.contains_key(k) && !((exists|j: int| 0 <= j < i + 1 && ks@[j]@ == k) && q0[k].expires_at <= now_ms)) by {
                    if exists|j: int| 0 <= j < i + 1 && ks@[j]@ == k {
                        if k != ks@[i as int]@ {
                            let j = choose|j: int| 0 <= j < i + 1 && ks@[j]@ == k;
                            assert(j < i);
                        }
                    } else {
                        assert(!(exists|j: int| 0 <= j < i && ks@[j]@ == k));
                    }
                }
            }
            i = i + 1;
        }
        proof {
            assert forall|k: Seq<char>| #![auto] q0.contains_key(k) implies (exists|j: int| 0 <= j < i && ks@[j]@ == k) by {
                let j = choose|j: int| 0 <= j < ks.len() && #[trigger] ks@[j]@ == k;
            }
            assert(self@.qr_logins =~= live_qr(q0, now_ms as int));
            assert(self@ =~= with_qr_logins(v0, live_qr(q0, now_ms as int)));
        }
    }

    /// Drops expired links and stores a new unconfirmed link for
    /// `identifier` under a fresh random id.
    fn start_qr_link(&mut self, identifier: String, now_ms: u64) -> (res: Option<String>)
        requires
            now_ms <= MAX_CLOCK_MS,
        ensures
            qr_started(old(self)@, final(self)@, identifier@, opt_string(res), now_ms as int),
    {
        self.prune_qr_logins(now_ms);
        match random_hex(16) {
            None => None,
            Some(id) => {
                let ghost v1 = self@;
                let entry = QrLoginEntry { identifier, confirmed: false, expires_at: now_ms + QR_LOGIN_TTL_MS };
                self.qr_logins.insert(id.clone(), entry);
                assert(self@ =~= with_qr_logins(v1, v1.qr_logins.insert(id@, qr_link(identifier@, now_ms as int))));
                Some(id)
            },
        }
    }

    /// After a correct code, starts the QR confirmation step: returns the id
    /// of the new QR link.
    pub fn verify_otp_start_2fa(&mut self, identifier: &str, code: &str, now_ms: u64) -> (res: Result<String, AuthError>)
        requires
            now_ms <= MAX_CLOCK_MS,
        ensures
            match check_code(old(self)@, identifier@, code@, now_ms as int) {
                (v1, Err(e)) => res_str(res) == Err::<Seq<char>, AuthError>(e) && final(self)@ == v1,
                (v1, Ok(id)) => match res {
                    Ok(link) => qr_started(v1, final(self)@, id, Some(link@), now_ms as int),
                    Err(e) => e == AuthError::RandomSourceFailed && qr_started(v1, final(self)@, id, None, now_ms as int),
                },
            },
    {
        let id = self.verify_otp_code_only(identifier, code, now_ms)?;
        match self.start_qr_link(id, now_ms) {
            None => Err(AuthError::RandomSourceFailed),
            Some(link) => Ok(link),
        }
    }

    /// Starts a QR-only login (no code first): returns the id of the new QR
    /// link, or `None` when no random id could be drawn.
    pub fn start_qr_only_login(&mut self, now_ms: u64) -> (res: Option<String>)
        requires
            now_ms <= MAX_CLOCK_MS,
        ensures
            qr_started(old(self)@, final(self)@, qr_only_identifier(), opt_string(res), now_ms as int),
    {
        self.start_qr_link(String::from_str("(qr-only login)"), now_ms)
    }

    /// The masked identifier of a live QR link, for the confirmation page.
    pub fn qr_login_masked_identifier(&self, id: &str, now_ms: u64) -> (res: Option<String>)
        ensures
            opt_string(res) == (if qr_live(self@, id@, now_ms as int) {
                Some(mask_spec(self@.qr_logins[id@].identifier))
            } else {
                None
            }),
    {
        match self.qr_logins.get(id) {
            Some(e) => {
                if e.expires_at > now_ms {
                    Some(mask_identifier(e.identifier.as_str()))
                } else {
                    None
                }
            },
            None => None,
        }
    }

    /// Marks a QR link as confirmed (the second device pressed "confirm").
    pub fn qr_login_confirm(&mut self, id: &str, now_ms: u64) -> (res: Result<(), AuthError>)
        ensures
            (final(self)@, res) == qr_confirm_spec(old(self)@, id@, now_ms as int),
    {
        let found = match self.qr_logins.get(id) {
            None => None,
            Some(e) => Some((e.identifier.clone(), e.expires_at)),
        };
        match found {
            None => Err(AuthError::QrLinkInvalid),
            Some((identifier, expires_at)) => {
                if now_ms > expires_at {
                    self.qr_logins.remove(id);
                    assert(self@ =~= with_qr_logins(old(self)@, old(self)@.qr_logins.remove(id@)));
                    return Err(AuthError::QrLinkExpired);
                }
                let entry = QrLoginEntry { identifier, confirmed: true, expires_at };
                self.qr_logins.insert(String::from_str(id), entry);
                assert(self@ =~= qr_confirm_spec(old(self)@, id@, now_ms as int).0);
                Ok(())
            },
        }
    }

    /// Whether a live QR link has been confirmed; `None` when there is no
    /// live link under `id`.
    pub fn qr_login_status(&self, id: &str, now_ms: u64) -> (res: Option<bool>)
        ensures
            res == (if qr_live(self@, id@, now_ms as int) {
                Some(self@.qr_logins[id@].confirmed)
            } else {
                None
            }),
    {
        match self.qr_logins.get(id) {
            Some(e) => {
                if e.expires_at > now_ms {
                    Some(e.confirmed)
                } else {
                    None
                }
            },
            None => None,
        }
    }

    /// Consumes a confirmed QR link and opens a session for its identifier
    /// under a fresh random token.
    pub fn qr_login_finish(&mut self, id: &str, now_ms: u64) -> (res: Result<String, AuthError>)
        requires
            now_ms <= MAX_CLOCK_MS,
        ensures
            match qr_finish_spec(old(self)@, id@, now_ms as int) {
                (v1, Err(e)) => res_str(res) == Err::<Seq<char>, AuthError>(e) && final(self)@ == v1,
                (v1, Ok(who)) => match res {
                    Ok(tok) => is_session_token(tok@) && final(self)@ == open_session(v1, who, tok@, now_ms as int),
                    Err(e) => e == AuthError::RandomSourceFailed && final(self)@ == v1,
                },
            },
    {
        let found = match self.qr_logins.get(id) {
            None => None,
            Some(e) => Some((e.identifier.clone(), e.confirmed, e.expires_at)),
        };
        match found {
            None => Err(AuthError::QrLinkInvalid),
            Some((identifier, confirmed, expires_at)) => {
                if now_ms > expires_at {
                    self.qr_logins.remove(id);
                    assert(self@ =~= with_qr_logins(old(self)@, old(self)@.qr_logins.remove(id@)));
                    return Err(AuthError::QrLinkExpired);
                }
                if !confirmed {
                    return Err(AuthError::NotConfirmed);
                }
                self.qr_logins.remove(id);
                assert(self@ =~= with_qr_logins(old(self)@, old(self)@.qr_logins.remove(id@)));
                match random_hex(32) {
                    None => Err(AuthError::RandomSourceFailed),
                    Some(token) => {
                        self.issue_session(identifier.as_str(), token.as_str(), now_ms);
                        Ok(token)
                    },
                }
            },
        }
    }
}

/// The QR links that have not expired at `now`.
pub open spec fn live_qr(q: Map<Seq<char>, QrRecord>, now: int) -> Map<Seq<char>, QrRecord> {
    Map::new(|k: Seq<char>| q.contains_key(k) && q[k].expires_at > now, |k: Seq<char>| q[k])
}

/// A new, unconfirmed QR link for `identifier`, valid for `QR_LOGIN_TTL_MS`.
pub open spec fn qr_link(identifier: Seq<char>, now: int) -> QrRecord {
    QrRecord { identifier, confirmed: false, expires_at: now + QR_LOGIN_TTL_MS }
}

/// Expired QR links are dropped and a new one is stored under `id`.
pub open spec fn start_qr(v: AuthView, identifier: Seq<char>, id: Seq<char>, now: int) -> AuthView {
    with_qr_logins(v, live_qr(v.qr_logins, now).insert(id, qr_link(identifier, now)))
}

/// The QR link `id` exists and has not expired.
pub open spec fn qr_live(v: AuthView, id: Seq<char>, now: int) -> bool {
    v.qr_logins.contains_key(id) && v.qr_logins[id].expires_at > now
}

/// Confirming a QR link from the second device.
pub open spec fn qr_confirm_spec(v: AuthView, id: Seq<char>, now: int) -> (AuthView, Result<(), AuthError>) {
    if !v.qr_logins.contains_key(id) {
        (v, Err(AuthError::QrLinkInvalid))
    } else if now > v.qr_logins[id].expires_at {
        (with_qr_logins(v, v.qr_logins.remove(id)), Err(AuthError::QrLinkExpired))
    } else {
        let e = v.qr_logins[id];
        (
            with_qr_logins(
                v,
                v.qr_logins.insert(id, QrRecord { identifier: e.identifier, confirmed: true, expires_at: e.expires_at }),
            ),
            Ok(()),
        )
    }
}

/// Finishing a QR login on the first device: the link is consumed once it
/// has been confirmed, giving the identifier to sign in.
pub open spec fn qr_finish_spec(v: AuthView, id: Seq<char>, now: int) -> (AuthView, Result<Seq<char>, AuthError>) {
    if !v.qr_logins.contains_key(id) {
        (v, Err(AuthError::QrLinkInvalid))
    } else if now > v.qr_logins[id].expires_at {
        (with_qr_logins(v, v.qr_logins.remove(id)), Err(AuthError::QrLinkExpired))
    } else if !v.qr_logins[id].confirmed {
        (v, Err(AuthError::NotConfirmed))
    } else {
        (with_qr_logins(v, v.qr_logins.remove(id)), Ok(v.qr_logins[id].identifier))
    }
}

/// What a new QR-link request leaves behind: a link under `id`, or, when no
/// id could be drawn, only the expired links dropped.
pub open spec fn qr_started(old_v: AuthView, new_v: AuthView, identifier: Seq<char>, res: Option<Seq<char>>, now: int) -> bool {
    match res {
        Some(id) => is_qr_link_id(id) && new_v == start_qr(old_v, identifier, id, now),
        None => new_v == with_qr_logins(old_v, live_qr(old_v.qr_logins, now)),
    }
}

/// The placeholder identifier of a QR-only login.
pub open spec fn qr_only_identifier() -> Seq<char> {
    "(qr-only login)"@
}

/// A code stored for `TTL` from `now`, sent at `now`.
pub open spec fn code_record(code: Seq<char>, now: int) -> OtpRecord {
    OtpRecord { code, expires_at: now + OTP_TTL_MS, last_sent_at: now }
}

/// A code went to `id` less than `OTP_RESEND_COOLDOWN_MS` ago. A send time
/// in the future (the clock went back) does not hold a new request up.
pub open spec fn cooling_down(v: AuthView, id: Seq<char>, now: int) -> bool {
    v.otps.contains_key(id) && v.otps[id].last_sent_at <= now && now - v.otps[id].last_sent_at
        < OTP_RESEND_COOLDOWN_MS
}

/// `code` stored for `id`.
pub open spec fn store_code(v: AuthView, id: Seq<char>, code: Seq<char>, now: int) -> AuthView {
    with_otps(v, v.otps.insert(id, code_record(code, now)))
}

/// `code` stored for the primary address and, if there is one, the backup.
pub open spec fn store_codes(v: AuthView, e1: Seq<char>, e2: Option<Seq<char>>, code: Seq<char>, now: int) -> AuthView {
    match e2 {
        None => store_code(v, e1, code, now),
        Some(e) => store_code(store_code(v, e1, code, now), e, code, now),
    }
}

/// The checks of an e-mail code request, in order: the addresses, the SMTP
/// configuration, then the resend cooldown of the primary address.
pub open spec fn otp_request_checked(v: AuthView, email1: Seq<char>, email2: Option<Seq<char>>, smtp_configured: bool, now: int) -> Result<(Seq<char>, Option<Seq<char>>), AuthError> {
    match otp_recipients_spec(email1, email2) {
        Err(e) => Err(e),
        Ok((e1, e2)) => if !smtp_configured {
            Err(AuthError::SmtpNotConfigured)
        } else if cooling_down(v, e1, now) {
            Err(AuthError::ResendTooSoon)
        } else {
            Ok((e1, e2))
        },
    }
}

/// The recipients of a code, primary first.
pub open spec fn recipient_list(e1: Seq<char>, e2: Option<Seq<char>>) -> Seq<Seq<char>> {
    match e2 {
        None => seq![e1],
        Some(e) => seq![e1, e],
    }
}

/// A six-digit code.
pub open spec fn is_code(c: Seq<char>) -> bool {
    exists|n: int| 0 <= n < 1000000 && c == six_digits(n)
}

/// The checks of an SMS code request, in order: the number, the SMS
/// configuration, then the resend cooldown; gives the trimmed number.
pub open spec fn sms_request_checked(v: AuthView, phone: Seq<char>, sms_configured: bool, now: int) -> Result<Seq<char>, AuthError> {
    if !phone_ok(phone) {
        Err(AuthError::InvalidPhone)
    } else if !sms_configured {
        Err(AuthError::SmsNotConfigured)
    } else if cooling_down(v, trim(phone), now) {
        Err(AuthError::ResendTooSoon)
    } else {
        Ok(trim(phone))
    }
}

/// A setting value that is there and not blank.
pub open spec fn present(v: Option<Seq<char>>) -> bool {
    v matches Some(s) && trim(s).len() > 0
}

/// Text of an SMS that carries a code. With a WebOTP domain the last line is
/// `@domain #code`, which lets the browser fill the code in.
pub open spec fn sms_body_spec(code: Seq<char>, webotp_domain: Option<Seq<char>>) -> Seq<char> {
    let head = "Your open-english login code / open-englishのログインコード: "@ + code;
    if present(webotp_domain) {
        head + "\n@"@ + trim(webotp_domain.unwrap()) + " #"@ + code
    } else {
        head
    }
}

/// The SMTP port: the configured value when it parses as a `u16`, else 587.
pub open spec fn smtp_port_spec(port: Option<Seq<char>>) -> int {
    match port {
        Some(p) => match parse_uint(p, 65535) {
            Some(n) => n,
            None => 587,
        },
        None => 587,
    }
}

/// The settings key under which the TOTP secret of `email` is kept.
pub open spec fn totp_secret_key_spec(email: Seq<char>) -> Seq<char> {
    "totp_secret:"@ + normalize(email)
}

/// The settings key under which the phone label of a TOTP account is kept.
pub open spec fn totp_label_key_spec(email: Seq<char>) -> Seq<char> {
    "totp_phone_label:"@ + normalize(email)
}

/// The QR code (SVG) that registers `secret` for the account `email`.
pub open spec fn totp_setup_qr(secret: Seq<char>, email: Seq<char>) -> Option<Seq<char>> {
    qr_svg_of(
        otpauth_uri_spec(secret, encode_utf8(email), encode_utf8("open-english"@)),
        220,
        "#000000"@,
        "#ffffff"@,
    )
}

/// The checks of a TOTP sign-in: a secret must be set up, and the code must
/// be accepted at the current second; gives the normalized e-mail.
pub open spec fn totp_check(email: Seq<char>, secret: Option<Seq<char>>, code: Seq<char>, now_ms: int) -> Result<Seq<char>, AuthError> {
    match secret {
        None => Err(AuthError::TotpNotSetUp),
        Some(sec) => if totp_accepts(sec, code, now_ms / 1000) {
            Ok(normalize(email))
        } else {
            Err(AuthError::IncorrectTotp)
        },
    }
}

/// The characters of a result's success value.
pub open spec fn res_str(r: Result<String, AuthError>) -> Result<Seq<char>, AuthError> {
    match r {
        Ok(s) => Ok(s@),
        Err(e) => Err(e),
    }
}

/// A code to send by e-mail.
pub struct OtpDelivery {
    pub recipients: Vec<String>,
    pub code: String,
    pub body: String,
}

/// A code to send by SMS.
pub struct SmsDelivery {
    pub to: String,
    pub code: String,
    pub body: String,
}

/// The characters of each string.
pub open spec fn string_views(v: Seq<String>) -> Seq<Seq<char>> {
    v.map_values(|s: String| s@)
}

impl AuthState {
    /// Stores `code` for `id` (valid for `OTP_TTL_MS`, sent at `now_ms`).
    pub fn record_code(&mut self, id: &str, code: &str, now_ms: u64)
        requires
            now_ms <= MAX_CLOCK_MS,
        ensures
            final(self)@ == store_code(old(self)@, id@, code@, now_ms as int),
    {
        let entry = OtpEntry {
            code: String::from_str(code),
            expires_at: now_ms + OTP_TTL_MS,
            last_sent_at: now_ms,
        };
        self.otps.insert(String::from_str(id), entry);
        assert(self@ =~= store_code(old(self)@, id@, code@, now_ms as int));
    }

    /// Settles a code after its SMS was handed to the provider: a message the
    /// provider refused never reaches the phone, so its code is withdrawn;
    /// after a send, or a request that failed on the way, the code stays.
    pub fn finish_sms_send(&mut self, to: &str, outcome: SmsSendOutcome)
        ensures
            outcome is Refused ==> final(self)@ == with_otps(old(self)@, old(self)@.otps.remove(to@)),
            !(outcome is Refused) ==> final(self)@ == old(self)@,
    {
        match outcome {
            SmsSendOutcome::Refused => {
                self.otps.remove(to);
                assert(self@ =~= with_otps(old(self)@, old(self)@.otps.remove(to@)));
            },
            _ => {},
        }
    }

    fn cooling(&self, id: &str, now_ms: u64) -> (b: bool)
        ensures
            b == cooling_down(self@, id@, now_ms as int),
    {
        match self.otps.get(id) {
            None => false,
            Some(e) => e.last_sent_at <= now_ms && now_ms - e.last_sent_at < OTP_RESEND_COOLDOWN_MS,
        }
    }

    /// Starts an e-mail login: checks the addresses, the SMTP configuration
    /// and the resend cooldown, then stores a fresh six-digit code for the
    /// primary and the backup address and returns what to send.
    pub fn request_otp(&mut self, email1: &str, email2: Option<&str>, smtp_configured: bool, now_ms: u64) -> (res: Result<OtpDelivery, AuthError>)
        requires
            now_ms <= MAX_CLOCK_MS,
        ensures
            match otp_request_checked(old(self)@, email1@, opt_str(email2), smtp_configured, now_ms as int) {
                Err(e) => (res matches Err(x) && x == e) && final(self)@ == old(self)@,
                Ok((e1, e2)) => match res {
                    Ok(d) => {
                        &&& is_code(d.code@)
                        &&& is_drawn_code(d.code@)
                        &&& string_views(d.recipients@) == recipient_list(e1, e2)
                        &&& d.body@ == otp_email_body_spec(d.code@)
                        &&& final(self)@ == store_codes(old(self)@, e1, e2, d.code@, now_ms as int)
                    },
                    Err(e) => e == AuthError::RandomSourceFailed && final(self)@ == old(self)@,
                },
            },
    {
        let (e1, e2) = otp_recipients(email1, email2)?;
        if !smtp_configured {
            return Err(AuthError::SmtpNotConfigured);
        }
        if self.cooling(e1.as_str(), now_ms) {
            return Err(AuthError::ResendTooSoon);
        }
        let code = match random_otp_code() {
            None => return Err(AuthError::RandomSourceFailed),
            Some(c) => c,
        };
        proof {
            lemma_drawn_code_is_code(code@);
        }
        self.record_code(e1.as_str(), code.as_str(), now_ms);
        let mut recipients: Vec<String> = Vec::new();
        recipients.push(e1);
        match e2 {
            None => {},
            Some(e) => {
                self.record_code(e.as_str(), code.as_str(), now_ms);
                recipients.push(e);
            },
        }
        let body = otp_email_body(code.as_str());
        assert(string_views(recipients@) =~= recipient_list(e1@, opt_string(e2)));
        Ok(OtpDelivery { recipients, code, body })
    }

    /// Starts an SMS login: checks the number, the SMS configuration and the
    /// resend cooldown, then stores a fresh six-digit code for the trimmed
    /// number and returns what to send.
    pub fn request_sms_otp(&mut self, phone: &str, sms_configured: bool, webotp_domain: Option<&str>, now_ms: u64) -> (res: Result<SmsDelivery, AuthError>)
        requires
            now_ms <= MAX_CLOCK_MS,
        ensures
            match sms_request_checked(old(self)@, phone@, sms_configured, now_ms as int) {
                Err(e) => (res matches Err(x) && x == e) && final(self)@ == old(self)@,
                Ok(p) => match res {
                    Ok(d) => {
                        &&& is_code(d.code@)
                        &&& is_drawn_code(d.code@)
                        &&& d.to@ == p
                        &&& d.body@ == sms_body_spec(d.code@, opt_str(webotp_domain))
                        &&& final(self)@ == store_code(old(self)@, p, d.code@, now_ms as int)
                    },
                    Err(e) => e == AuthError::RandomSourceFailed && final(self)@ == old(self)@,
                },
            },
    {
        if !looks_like_phone_number(phone) {
            return Err(AuthError::InvalidPhone);
        }
        if !sms_configured {
            return Err(AuthError::SmsNotConfigured);
        }
        let to = string_from_chars(&trimmed(phone));
        if self.cooling(to.as_str(), now_ms) {
            return Err(AuthError::ResendTooSoon);
        }
        let code = match random_otp_code() {
            None => return Err(AuthError::RandomSourceFailed),
            Some(c) => c,
        };
        proof {
            lemma_drawn_code_is_code(code@);
        }
        self.record_code(to.as_str(), code.as_str(), now_ms);
        let body = sms_body(code.as_str(), webotp_domain);
        Ok(SmsDelivery { to, code, body })
    }

    /// Signs in with a TOTP code: `stored_secret` is the secret kept for the
    /// account, if any. Opens a session under a fresh random token.
    pub fn totp_verify(&mut self, email: &str, stored_secret: Option<&str>, code: &str, now_ms: u64) -> (res: Result<String, AuthError>)
        requires
            now_ms <= MAX_CLOCK_MS,
        ensures
            match totp_check(email@, opt_str(stored_secret), code@, now_ms as int) {
                Err(e) => res_str(res) == Err::<Seq<char>, AuthError>(e) && final(self)@ == old(self)@,
                Ok(who) => match res {
                    Ok(tok) => is_session_token(tok@) && final(self)@ == open_session(old(self)@, who, tok@, now_ms as int),
                    Err(e) => e == AuthError::RandomSourceFailed && final(self)@ == old(self)@,
                },
            },
    {
        let who = normalize_identifier(email);
        let secret = match stored_secret {
            None => return Err(AuthError::TotpNotSetUp),
            Some(s) => s,
        };
        let now_unix = (now_ms / 1000) as i64;
        if !verify_code(secret, code, now_unix) {
            return Err(AuthError::IncorrectTotp);
        }
        match random_hex(32) {
            None => Err(AuthError::RandomSourceFailed),
            Some(token) => {
                self.issue_session(who.as_str(), token.as_str(), now_ms);
                Ok(token)
            },
        }
    }
}

/// The text of an SMS carrying `code`.
pub fn sms_body(code: &str, webotp_domain: Option<&str>) -> (res: String)
    ensures
        res@ == sms_body_spec(code@, opt_str(webotp_domain)),
{
    let mut out: Vec<char> = Vec::new();
    push_str(&mut out, "Your open-english login code / open-englishのログインコード: ");
    push_str(&mut out, code);
    if is_present(webotp_domain) {
        let d = match webotp_domain {
            Some(d) => d,
            None => "",
        };
        push_str(&mut out, "\n@");
        push_chars(&mut out, &trimmed(d));
        push_str(&mut out, " #");
        push_str(&mut out, code);
    }
    string_from_chars(&out)
}

/// Whether a setting value is there and not blank.
pub fn is_present(v: Option<&str>) -> (b: bool)
    ensures
        b == present(opt_str(v)),
{
    match v {
        None => false,
        Some(s) => trimmed(s).len() > 0,
    }
}

// ---------------------------------------------------------------------------
// Configuration

/// SMTP settings for sending codes by e-mail.
pub struct SmtpConfig {
    pub host: String,
    pub port: u16,
    pub user: String,
    pub password: String,
    pub from: String,
}

/// Twilio settings for sending codes by SMS.
pub struct SmsConfig {
    pub account_sid: String,
    pub auth_token: String,
    pub from_number: String,
}

fn present_string(v: Option<&str>) -> (r: Option<String>)
    ensures
        r is Some <==> present(opt_str(v)),
        r matches Some(s) ==> opt_str(v) == Some(s@),
{
    match v {
        None => None,
        Some(s) => if trimmed(s).len() > 0 {
            Some(String::from_str(s))
        } else {
            None
        },
    }
}

/// SMTP settings from the values of `OPEN_ENGLISH_SMTP_HOST`, `_USER`,
/// `_PASSWORD`, `_FROM` and `_PORT`: the first four must be there and not
/// blank (they are kept as given); the port defaults to 587.
pub fn smtp_config(host: Option<&str>, user: Option<&str>, password: Option<&str>, from: Option<&str>, port: Option<&str>) -> (res: Result<SmtpConfig, AuthError>)
    ensures
        res is Ok <==> (present(opt_str(host)) && present(opt_str(user)) && present(opt_str(password))
            && present(opt_str(from))),
        res matches Err(e) ==> e == AuthError::SmtpNotConfigured,
        res matches Ok(c) ==> {
            &&& opt_str(host) == Some(c.host@)
            &&& opt_str(user) == Some(c.user@)
            &&& opt_str(password) == Some(c.password@)
            &&& opt_str(from) == Some(c.from@)
            &&& c.port as int == smtp_port_spec(opt_str(port))
        },
{
    let h = present_string(host);
    let u = present_string(user);
    let pw = present_string(password);
    let f = present_string(from);
    let p: u16 = match port {
        None => 587,
        Some(s) => match parse_unsigned(s, 65535) {
            Some(n) => n as u16,
            None => 587,
        },
    };
    match (h, u, pw, f) {
        (Some(host), Some(user), Some(password), Some(from)) => Ok(SmtpConfig { host, port: p, user, password, from }),
        _ => Err(AuthError::SmtpNotConfigured),
    }
}

/// Whether the four required SMTP settings are there and not blank.
pub fn is_smtp_configured(host: Option<&str>, user: Option<&str>, password: Option<&str>, from: Option<&str>) -> (b: bool)
    ensures
        b == (present(opt_str(host)) && present(opt_str(user)) && present(opt_str(password)) && present(opt_str(from))),
{
    smtp_config(host, user, password, from, None).is_ok()
}

/// Twilio settings from the values of `OPEN_ENGLISH_TWILIO_ACCOUNT_SID`,
/// `_AUTH_TOKEN` and `_FROM_NUMBER`: all must be there and not blank.
pub fn sms_config(account_sid: Option<&str>, auth_token: Option<&str>, from_number: Option<&str>) -> (res: Result<SmsConfig, AuthError>)
    ensures
        res is Ok <==> (present(opt_str(account_sid)) && present(opt_str(auth_token)) && present(opt_str(from_number))),
        res matches Err(e) ==> e == AuthError::SmsNotConfigured,
        res matches Ok(c) ==> {
            &&& opt_str(account_sid) == Some(c.account_sid@)
            &&& opt_str(auth_token) == Some(c.auth_token@)
            &&& opt_str(from_number) == Some(c.from_number@)
        },
{
    match (present_string(account_sid), present_string(auth_token), present_string(from_number)) {
        (Some(account_sid), Some(auth_token), Some(from_number)) => Ok(SmsConfig { account_sid, auth_token, from_number }),
        _ => Err(AuthError::SmsNotConfigured),
    }
}

/// Whether the three Twilio settings are there and not blank.
pub fn is_sms_configured(account_sid: Option<&str>, auth_token: Option<&str>, from_number: Option<&str>) -> (b: bool)
    ensures
        b == (present(opt_str(account_sid)) && present(opt_str(auth_token)) && present(opt_str(from_number))),
{
    sms_config(account_sid, auth_token, from_number).is_ok()
}

/// Whether `OPEN_ENGLISH_WEBOTP_DOMAIN` is there and not blank.
pub fn is_webotp_domain_configured(domain: Option<&str>) -> (b: bool)
    ensures
        b == present(opt_str(domain)),
{
    is_present(domain)
}

// ---------------------------------------------------------------------------
// TOTP accounts

/// What setting up TOTP for an account gives: the secret to keep (and
/// whether it is new and must be saved), the phone label to save, and the
/// QR code an authenticator app reads.
pub struct TotpSetup {
    pub email: String,
    pub secret_setting_key: String,
    pub secret: String,
    pub newly_generated: bool,
    pub phone_label_setting: Option<(String, String)>,
    pub qr_svg: Result<String, String>,
}

/// The settings key of the TOTP secret of `email`.
pub fn totp_secret_key(email: &str) -> (res: String)
    ensures
        res@ == totp_secret_key_spec(email@),
{
    let e = normalize_identifier(email);
    let mut out: Vec<char> = Vec::new();
    push_str(&mut out, "totp_secret:");
    push_str(&mut out, e.as_str());
    string_from_chars(&out)
}

/// Sets TOTP up for `email` (normalized). An existing, non-blank secret is
/// kept; otherwise a new one is drawn. A non-blank phone label is kept,
/// trimmed, under its own key.
pub fn totp_setup(email: &str, existing_secret: Option<&str>, phone_label: Option<&str>) -> (res: Result<TotpSetup, AuthError>)
    ensures
        !email_ok(normalize(email@)) ==> (res matches Err(e) && e == AuthError::InvalidEmail),
        res matches Err(e) ==> (e == AuthError::InvalidEmail && !email_ok(normalize(email@)))
            || (e == AuthError::RandomSourceFailed && !present(opt_str(existing_secret))),
        present(opt_str(existing_secret)) && email_ok(normalize(email@)) ==> res is Ok,
        res matches Ok(t) ==> {
            &&& t.email@ == normalize(email@)
            &&& t.secret_setting_key@ == totp_secret_key_spec(email@)
            &&& t.newly_generated == !present(opt_str(existing_secret))
            &&& (present(opt_str(existing_secret)) ==> opt_str(existing_secret) == Some(t.secret@))
            &&& (t.newly_generated ==> exists|k: Seq<u8>| k.len() == 20 && t.secret@ == base32_encode_spec(k))
            &&& match t.phone_label_setting {
                Some((k, l)) => present(opt_str(phone_label)) && k@ == totp_label_key_spec(email@)
                    && l@ == trim(opt_str(phone_label).unwrap()),
                None => !present(opt_str(phone_label)),
            }
            &&& (t.qr_svg matches Ok(svg) ==> totp_setup_qr(t.secret@, t.email@) == Some(svg@))
            &&& (t.qr_svg matches Ok(svg) ==> starts_with(svg@, crate::totp::qr_svg_prefix()) && svg@.len() > 100)
            &&& (t.qr_svg is Err <==> totp_setup_qr(t.secret@, t.email@) is None)
        },
{
    let e = normalize_identifier(email);
    if !email_valid(&e) {
        return Err(AuthError::InvalidEmail);
    }
    let key = totp_secret_key(email);
    let (secret, newly_generated) = match present_string(existing_secret) {
        Some(s) => (s, false),
        None => match generate_secret() {
            None => return Err(AuthError::RandomSourceFailed),
            Some(s) => (s, true),
        },
    };
    let phone_label_setting = if is_present(phone_label) {
        let l = match phone_label {
            Some(l) => l,
            None => "",
        };
        let mut k: Vec<char> = Vec::new();
        push_str(&mut k, "totp_phone_label:");
        push_str(&mut k, e.as_str());
        Some((string_from_chars(&k), string_from_chars(&trimmed(l))))
    } else {
        None
    };
    let qr_svg = totp_qr_svg(secret.as_str(), e.as_str(), "open-english");
    Ok(TotpSetup { email: e, secret_setting_key: key, secret, newly_generated, phone_label_setting, qr_svg })
}

// ---------------------------------------------------------------------------
// Laws of the login state

/// A session can be read back, with its e-mail, until it expires; after
/// that it is gone.
pub proof fn session_readable_until_expiry(v: AuthView, email: Seq<char>, token: Seq<char>, now: int, t: int)
    ensures
        t < now + SESSION_TTL_MS ==> session_lookup(open_session(v, email, token, now), token, t) == (
            open_session(v, email, token, now),
            Some(email),
        ),
        t >= now + SESSION_TTL_MS ==> session_lookup(open_session(v, email, token, now), token, t).1 is None,
{
}

/// After logging out, the token no longer names a session.
pub proof fn logout_ends_session(v: AuthView, token: Seq<char>, t: int)
    ensures
        session_lookup(with_sessions(v, v.sessions.remove(token)), token, t).1 is None,
{
}

/// A code sent to the primary or backup address of a request is accepted,
/// for either address, until it expires, and opens nothing twice: once
/// used, the address has no pending code. A wrong guess before does not
/// use it up.
pub proof fn requested_code_verifies(
    v: AuthView,
    email1: Seq<char>,
    email2: Option<Seq<char>>,
    code: Seq<char>,
    wrong: Seq<char>,
    x: Seq<char>,
    now: int,
    t: int,
)
    requires
        otp_request_checked(v, email1, email2, true, now) is Ok,
        is_code(code),
        now <= t <= now + OTP_TTL_MS,
        ({
            let (e1, e2) = otp_request_checked(v, email1, email2, true, now).unwrap();
            normalize(x) == e1 || e2 == Some(normalize(x))
        }),
        trim(wrong) != code,
    ensures
        ({
            let (e1, e2) = otp_request_checked(v, email1, email2, true, now).unwrap();
            let v1 = store_codes(v, e1, e2, code, now);
            &&& check_code(v1, x, code, t).1 == Ok::<Seq<char>, AuthError>(normalize(x))
            &&& check_code(v1, x, wrong, t) == (v1, Err::<Seq<char>, AuthError>(AuthError::IncorrectCode))
            &&& check_code(check_code(v1, x, code, t).0, x, code, t).1 == Err::<Seq<char>, AuthError>(
                AuthError::NoPendingCode,
            )
        }),
{
    let n = choose|n: int| 0 <= n < 1000000 && code == six_digits(n);
    lemma_six_digits(n);
}

/// Checking a code touches the pending codes only: a failed check opens no
/// session and starts no QR link, so a refused second step leaves nothing
/// behind but the code's own bookkeeping.
pub proof fn code_check_touches_only_codes(v: AuthView, x: Seq<char>, code: Seq<char>, now: int)
    ensures
        check_code(v, x, code, now).0.sessions == v.sessions,
        check_code(v, x, code, now).0.qr_logins == v.qr_logins,
{
}

/// A code is refused once its lifetime is over, and is dropped.
pub proof fn expired_code_refused(v: AuthView, id: Seq<char>, x: Seq<char>, code: Seq<char>, now: int, t: int)
    requires
        normalize(x) == id,
        t > now + OTP_TTL_MS,
    ensures
        check_code(store_code(v, id, code, now), x, code, t) == (
            with_otps(v, v.otps.remove(id)),
            Err::<Seq<char>, AuthError>(AuthError::CodeExpired),
        ),
{
    assert(store_code(v, id, code, now).otps.remove(id) =~= v.otps.remove(id));
}

/// Within a minute of a code request, another request for the same primary
/// address is refused, and nothing changes.
pub proof fn resend_waits_for_cooldown(
    v: AuthView,
    email1: Seq<char>,
    email2: Option<Seq<char>>,
    again2: Option<Seq<char>>,
    code: Seq<char>,
    now: int,
    t: int,
)
    requires
        otp_request_checked(v, email1, email2, true, now) is Ok,
        otp_recipients_spec(email1, again2) is Ok,
        now <= t < now + OTP_RESEND_COOLDOWN_MS,
    ensures
        ({
            let (e1, e2) = otp_request_checked(v, email1, email2, true, now).unwrap();
            otp_request_checked(store_codes(v, e1, e2, code, now), email1, again2, true, t) == Err::<
                (Seq<char>, Option<Seq<char>>),
                AuthError,
            >(AuthError::ResendTooSoon)
        }),
{
    let (e1, e2) = otp_request_checked(v, email1, email2, true, now).unwrap();
    let v1 = store_codes(v, e1, e2, code, now);
    assert(v1.otps.contains_key(e1));
    assert(v1.otps[e1].last_sent_at == now);
}

/// A QR link cannot be finished before it is confirmed (and stays usable);
/// once confirmed it can be finished, once, for the identifier it was made
/// for, as long as it has not expired.
pub proof fn qr_login_needs_confirmation(v: AuthView, identifier: Seq<char>, id: Seq<char>, now: int, t1: int, t2: int)
    requires
        now <= t1 <= t2 <= now + QR_LOGIN_TTL_MS,
    ensures
        ({
            let v1 = start_qr(v, identifier, id, now);
            let v2 = qr_confirm_spec(v1, id, t1).0;
            &&& qr_finish_spec(v1, id, t1) == (v1, Err::<Seq<char>, AuthError>(AuthError::NotConfirmed))
            &&& qr_confirm_spec(v1, id, t1).1 is Ok
            &&& qr_finish_spec(v2, id, t2).1 == Ok::<Seq<char>, AuthError>(identifier)
            &&& qr_finish_spec(qr_finish_spec(v2, id, t2).0, id, t2).1 == Err::<Seq<char>, AuthError>(
                AuthError::QrLinkInvalid,
            )
        }),
{
}

/// A new QR link is live and unconfirmed, for the identifier it was made
/// for, until its lifetime is over, and then it is gone. The placeholder of
/// a QR-only login is shown as it is.
pub proof fn started_qr_link_pending(v: AuthView, identifier: Seq<char>, id: Seq<char>, now: int, t: int)
    requires
        now <= t,
    ensures
        ({
            let v1 = start_qr(v, identifier, id, now);
            &&& t < now + QR_LOGIN_TTL_MS ==> qr_live(v1, id, t) && !v1.qr_logins[id].confirmed
                && v1.qr_logins[id].identifier == identifier
            &&& t >= now + QR_LOGIN_TTL_MS ==> !qr_live(v1, id, t)
        }),
        mask_spec(qr_only_identifier()) == qr_only_identifier(),
{
    reveal_strlit("(qr-only login)");
}

/// A code request never mails the same address twice: the primary address
/// is the normalized `email1`; a backup address is kept only when it is a
/// different, usable address, and a backup equal to the primary one (up to
/// case and surrounding blanks) is dropped, so the code goes to the primary
/// address alone.
pub proof fn code_goes_to_each_address_once(email1: Seq<char>, email2: Option<Seq<char>>)
    ensures
        otp_recipients_spec(email1, email2) matches Ok((a, b)) ==> {
            &&& a == normalize(email1)
            &&& email_ok(a)
            &&& (b matches Some(x) ==> x != a && email2 is Some && x == normalize(email2.unwrap()) && email_ok(x))
            &&& (email2 is Some && normalize(email2.unwrap()) == a ==> b is None)
            &&& (email2 is Some && normalize(email2.unwrap()) != a && email_ok(normalize(email2.unwrap())) ==> b
                == Some(normalize(email2.unwrap())))
            &&& recipient_list(a, b).no_duplicates()
        },
        (email_ok(normalize(email1)) && email2 is Some && normalize(email2.unwrap()) == normalize(email1)) ==> (
            otp_recipients_spec(email1, email2) == Ok::<(Seq<char>, Option<Seq<char>>), AuthError>(
            (normalize(email1), None))
            && recipient_list(normalize(email1), None) == seq![normalize(email1)]),
{
}

/// A TOTP secret set up for an address is the one every later setup for
/// that address finds: the settings key depends on the normalized address
/// alone, and a newly drawn secret (20 bytes in base32) is never blank, so
/// it is kept rather than drawn again.
pub proof fn totp_secret_kept(a: Seq<char>, b: Seq<char>, key: Seq<u8>)
    requires
        normalize(a) == normalize(b),
        key.len() == 20,
    ensures
        totp_secret_key_spec(a) == totp_secret_key_spec(b),
        present(Some(crate::totp::base32_encode_spec(key))),
{
    let s = crate::totp::base32_encode_spec(key);
    let bw = crate::totp::byte_words(key);
    assert(s.len() == 32);
    crate::bits::lemma_val_bounds(bw, 8, 0int, 5);
    crate::bits::lemma_val_bounds(bw, 8, 155int, 5);
    vstd::arithmetic::power2::lemma2_to64();
    assert(!crate::text::is_ws(s[0]));
    assert(!crate::text::is_ws(s.last()));
    assert(crate::text::trim_start(s) == s);
    assert(crate::text::trim_end(s) == s);
}

/// Starting a QR link keeps every other link that is still live.
pub proof fn start_qr_keeps_live_links(v: AuthView, identifier: Seq<char>, id: Seq<char>, other: Seq<char>, now: int)
    requires
        other != id,
        qr_live(v, other, now),
    ensures
        start_qr(v, identifier, id, now).qr_logins.contains_key(other),
        start_qr(v, identifier, id, now).qr_logins[other] == v.qr_logins[other],
{
}

// ---------------------------------------------------------------------------
// Login method and HTTP glue

/// A login method name.
pub open spec fn valid_mode(m: Seq<char>) -> bool {
    m == "none"@ || m == "otp"@ || m == "qr"@ || m == "otp_qr"@
}

/// The login method in force: the `login_mode` setting when it names a
/// method; otherwise `"otp"` when the older `login_required` setting is
/// `"true"`, else `"none"`.
pub open spec fn login_mode_spec(mode_setting: Option<Seq<char>>, legacy_setting: Option<Seq<char>>) -> Seq<char> {
    match mode_setting {
        Some(m) if valid_mode(m) => m,
        _ => if legacy_setting == Some("true"@) {
            "otp"@
        } else {
            "none"@
        },
    }
}

/// The login method in force, from the two stored settings.
pub fn login_mode_from(mode_setting: Option<&str>, legacy_setting: Option<&str>) -> (r: String)
    ensures
        r@ == login_mode_spec(opt_str(mode_setting), opt_str(legacy_setting)),
{
    match mode_setting {
        Some(m) => if is_valid_login_mode(m) {
            return String::from_str(m);
        },
        None => {},
    }
    let legacy = match legacy_setting {
        Some(v) => chars_eq(&chars_of(v), &chars_of("true")),
        None => false,
    };
    if legacy {
        String::from_str("otp")
    } else {
        String::from_str("none")
    }
}

/// The method a configuration request sets: `login_mode` when given (it
/// must name a method), else `"otp"` or `"none"` from `login_required`.
pub open spec fn requested_mode_spec(login_mode: Option<Seq<char>>, login_required: Option<bool>) -> Result<Seq<char>, Seq<char>> {
    match login_mode {
        Some(m) => if valid_mode(m) {
            Ok(m)
        } else {
            Err("login_mode must be one of: none, otp, qr, otp_qr"@)
        },
        None => match login_required {
            Some(true) => Ok("otp"@),
            Some(false) => Ok("none"@),
            None => Err("login_mode or login_required is required"@),
        },
    }
}

/// The method a configuration request sets, or why it is refused.
pub fn requested_login_mode(login_mode: Option<&str>, login_required: Option<bool>) -> (r: Result<String, String>)
    ensures
        match (r, requested_mode_spec(opt_str(login_mode), login_required)) {
            (Ok(m), Ok(sm)) => m@ == sm,
            (Err(e), Err(se)) => e@ == se,
            _ => false,
        },
{
    match login_mode {
        Some(m) => if is_valid_login_mode(m) {
            Ok(String::from_str(m))
        } else {
            Err(String::from_str("login_mode must be one of: none, otp, qr, otp_qr"))
        },
        None => match login_required {
            Some(true) => Ok(String::from_str("otp")),
            Some(false) => Ok(String::from_str("none")),
            None => Err(String::from_str("login_mode or login_required is required")),
        },
    }
}

/// The older `login_required` value kept in step with a method.
pub fn login_required_value(mode: &str) -> (r: &'static str)
    ensures
        r@ == (if mode@ == "none"@ {
            "false"@
        } else {
            "true"@
        }),
{
    if chars_eq(&chars_of(mode), &chars_of("none")) {
        "false"
    } else {
        "true"
    }
}

/// After TOTP is set up with a fresh secret (20 random bytes in base32),
/// the code an authenticator app shows for it at the current second, or
/// one 30-second step before or after, signs in, as the normalized e-mail.
pub proof fn set_up_totp_code_signs_in(email: Seq<char>, key: Seq<u8>, now_ms: int, shown_at: int)
    requires
        key.len() == 20,
        shown_at == now_ms / 1000 || shown_at + 30 == now_ms / 1000 || shown_at - 30 == now_ms / 1000,
    ensures
        totp_code(base32_encode_spec(key), shown_at) is Some,
        totp_check(email, Some(base32_encode_spec(key)), totp_code(base32_encode_spec(key), shown_at).unwrap(), now_ms)
            == Ok::<Seq<char>, AuthError>(normalize(email)),
{
    let secret = base32_encode_spec(key);
    base32_round_trip(key);
    assert(totp_code(secret, shown_at) is Some);
    let code = totp_code(secret, shown_at).unwrap();
    totp_code_is_six_digits(secret, shown_at);
    assert(!is_ws(code[0]) && !is_ws(code[code.len() - 1]));
    assert(trim(code) == code);
    code_accepted_within_one_step(secret, code, shown_at);
    let n = now_ms / 1000;
    if shown_at + 30 == n {
        assert(shown_at + 30 == n);
    } else if shown_at - 30 == n {
        assert(shown_at - 30 == n);
    }
    assert(totp_accepts(secret, code, n));
}

/// A method stored by a configuration request is the one read back, and
/// login is required exactly when it is not `"none"`.
pub proof fn stored_login_mode_is_read_back(login_mode: Option<Seq<char>>, login_required: Option<bool>)
    requires
        requested_mode_spec(login_mode, login_required) is Ok,
    ensures
        ({
            let m = requested_mode_spec(login_mode, login_required)->Ok_0;
            let legacy: Seq<char> = if m == "none"@ {
                "false"@
            } else {
                "true"@
            };
            login_mode_spec(Some(m), Some(legacy)) == m
        }),
{
}

/// Whether a request may go on: always without login protection, else only
/// with a live session.
pub fn access_allowed(mode: &str, signed_in: bool) -> (b: bool)
    ensures
        b == (mode@ == "none"@ || signed_in),
{
    chars_eq(&chars_of(mode), &chars_of("none")) || signed_in
}

/// The `Set-Cookie` value that carries a new session token.
pub fn session_set_cookie(token: &str) -> (r: String)
    ensures
        r@ == "oe_session="@ + token@ + "; HttpOnly; SameSite=Lax; Path=/; Max-Age=86400"@,
{
    let mut out: Vec<char> = Vec::new();
    push_str(&mut out, "oe_session=");
    push_str(&mut out, token);
    push_str(&mut out, "; HttpOnly; SameSite=Lax; Path=/; Max-Age=86400");
    string_from_chars(&out)
}

/// The `Set-Cookie` value that clears the session cookie.
pub fn session_clear_cookie() -> (r: String)
    ensures
        r@ == "oe_session=; HttpOnly; SameSite=Lax; Path=/; Max-Age=0"@,
{
    String::from_str("oe_session=; HttpOnly; SameSite=Lax; Path=/; Max-Age=0")
}

/// The host and scheme a request was made to: the `Host` header (or
/// `localhost`), and `https` only when `X-Forwarded-Proto` says so.
pub fn request_host_scheme(host: Option<&str>, forwarded_proto: Option<&str>) -> (r: (String, &'static str))
    ensures
        r.0@ == match opt_str(host) {
            Some(h) => h,
            None => "localhost"@,
        },
        r.1@ == (if opt_str(forwarded_proto) == Some("https"@) {
            "https"@
        } else {
            "http"@
        }),
{
    let h = match host {
        Some(h) => String::from_str(h),
        None => String::from_str("localhost"),
    };
    let https = match forwarded_proto {
        Some(p) => chars_eq(&chars_of(p), &chars_of("https")),
        None => false,
    };
    (h, if https {
        "https"
    } else {
        "http"
    })
}

/// The page a second device opens to confirm a QR login.
pub fn qr_confirm_url(scheme: &str, host: &str, id: &str) -> (r: String)
    ensures
        r@ == scheme@ + "://"@ + host@ + "/qr-confirm.html?id="@ + id@,
{
    let mut out: Vec<char> = Vec::new();
    push_str(&mut out, scheme);
    push_str(&mut out, "://");
    push_str(&mut out, host);
    push_str(&mut out, "/qr-confirm.html?id=");
    push_str(&mut out, id);
    string_from_chars(&out)
}

} // verus!
