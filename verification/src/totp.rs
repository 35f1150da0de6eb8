//! TOTP (RFC 6238, 30-second steps, 6 digits, HMAC-SHA1) with its own
//! base32 codec, as used for authenticator-app sign-in.

use vstd::prelude::*;
use vstd::arithmetic::power2::{lemma_pow2_pos, lemma2_to64};
use vstd::arithmetic::div_mod::{lemma_fundamental_div_mod, lemma_fundamental_div_mod_converse};
use crate::bits::{stream_val, lemma_val_concat, lemma_val_bounds, lemma_val_word, lemma_val_past_end, lemma_val_push, lemma_val_bit, lemma_val_ext, same_bit, pow2_u32};
use crate::text::{
    ascii_upper, char_from_ascii, string_from_chars, to_ascii_upper, chars_of, chars_eq, trim,
    trimmed, digit_char, digit_to_char, percent_encode, percent_encode_str, push_str, starts_with,
};
use crate::rng::secure_random_bytes;
use vstd::string::StringSliceAdditionalSpecFns;

verus! {

// ---------------------------------------------------------------------------
// Base32 (RFC 4648 alphabet, no padding on output)

/// Symbol `v` (0..32) of the alphabet `A-Z2-7`.
pub open spec fn b32_char(v: int) -> char {
    if v < 26 {
        (65 + v) as char
    } else {
        (24 + v) as char
    }
}

/// Position of `c` in the alphabet `A-Z2-7`.
pub open spec fn b32_index(c: char) -> Option<int> {
    if 'A' <= c && c <= 'Z' {
        Some(c as int - 65)
    } else if '2' <= c && c <= '7' {
        Some(c as int - 24)
    } else {
        None
    }
}

pub fn b32_symbol(v: u32) -> (c: char)
    requires
        v < 32,
    ensures
        c == b32_char(v as int),
{
    if v < 26 {
        char_from_ascii(65 + v)
    } else {
        char_from_ascii(24 + v)
    }
}

pub fn b32_lookup(c: char) -> (r: Option<u32>)
    ensures
        r matches Some(x) ==> b32_index(c) == Some(x as int) && x < 32,
        r is None ==> b32_index(c) is None,
{
    if 'A' <= c && c <= 'Z' {
        Some((c as u32) - 65)
    } else if '2' <= c && c <= '7' {
        Some((c as u32) - 24)
    } else {
        None
    }
}

/// Bytes as a stream of 8-bit words.
pub open spec fn byte_words(d: Seq<u8>) -> Seq<int> {
    Seq::new(d.len(), |i: int| d[i] as int)
}

/// Number of symbols for `n` bytes: `ceil(8n / 5)`.
pub open spec fn encoded_len(n: nat) -> nat {
    ((8 * n + 4) / 5) as nat
}

/// Base32 of `d`: the bit stream of `d` cut into 5-bit symbols, the last one
/// filled with zero bits, no `=` padding.
pub open spec fn base32_encode_spec(d: Seq<u8>) -> Seq<char> {
    Seq::new(encoded_len(d.len()), |k: int| b32_char(stream_val(byte_words(d), 8, 5 * k, 5)))
}

/// Symbol values of `s`, skipping `=`, after ASCII upper-casing; `None` when
/// some other character is not in the alphabet.
pub open spec fn b32_values(s: Seq<char>) -> Option<Seq<int>>
    decreases s.len(),
{
    if s.len() == 0 {
        Some(seq![])
    } else {
        match b32_values(s.drop_last()) {
            None => None,
            Some(v) => if s.last() == '=' {
                Some(v)
            } else {
                match b32_index(ascii_upper(s.last())) {
                    None => None,
                    Some(x) => Some(v.push(x)),
                }
            },
        }
    }
}

/// The whole bytes of the bit stream of 5-bit symbols `v` (trailing bits dropped).
pub open spec fn bytes_from_symbols(v: Seq<int>) -> Seq<u8> {
    Seq::new((5 * v.len() / 8) as nat, |j: int| stream_val(v, 5, 8 * j, 8) as u8)
}

pub open spec fn base32_decode_spec(s: Seq<char>) -> Option<Seq<u8>> {
    match b32_values(s) {
        None => None,
        Some(v) => Some(bytes_from_symbols(v)),
    }
}

proof fn lemma_byte_word(d: Seq<u8>, k: int)
    requires
        0 <= k < d.len(),
    ensures
        stream_val(byte_words(d), 8, 8 * k, 8) == d[k] as int,
{
    lemma2_to64();
    lemma_val_word(byte_words(d), 8, k);
}

/// Base32 encoding of `data` (upper case, no padding).
pub fn base32_encode(data: &[u8]) -> (res: String)
    ensures
        res@ == base32_encode_spec(data@),
{
    let ghost d = byte_words(data@);
    let mut out: Vec<char> = Vec::new();
    let mut bits: u32 = 0;
    let mut value: u32 = 0;
    let mut k: usize = 0;
    proof {
        lemma2_to64();
    }
    while k < data.len()
        invariant
            k <= data@.len(),
            d == byte_words(data@),
            5 * (out@.len() as int) + bits == 8 * k,
            bits < 5,
            value == stream_val(d, 8, 5 * (out@.len() as int), bits as nat),
            forall|i: int|
                0 <= i < out@.len() ==> out@[i] == #[trigger] b32_char(stream_val(d, 8, 5 * i, 5)),
        decreases data@.len() - k,
    {
        let b = data[k];
        proof {
            lemma_val_concat(d, 8, 5 * (out@.len() as int), bits as nat, 8);
            lemma_byte_word(data@, k as int);
            lemma_val_bounds(d, 8, 5 * (out@.len() as int), bits as nat);
            lemma2_to64();
            vstd::arithmetic::power2::lemma_pow2_strictly_increases(bits as nat, 5);
        }
        value = value * 256 + b as u32;
        bits = bits + 8;
        while bits >= 5
            invariant
                k < data@.len(),
                d == byte_words(data@),
                5 * (out@.len() as int) + bits == 8 * (k + 1),
                bits < 13,
                value == stream_val(d, 8, 5 * (out@.len() as int), bits as nat),
                forall|i: int|
                    0 <= i < out@.len() ==> out@[i] == #[trigger] b32_char(
                        stream_val(d, 8, 5 * i, 5),
                    ),
            decreases bits,
        {
            let sh = pow2_u32(bits - 5);
            proof {
                let m = out@.len() as int;
                let rest = (bits - 5) as nat;
                lemma_val_concat(d, 8, 5 * m, 5, rest);
                assert((5 + rest) as nat == bits as nat);
                lemma_val_bounds(d, 8, 5 * m + 5, rest);
                lemma_val_bounds(d, 8, 5 * m, 5);
                lemma_pow2_pos(rest);
                lemma2_to64();
                lemma_fundamental_div_mod_converse(
                    value as int,
                    sh as int,
                    stream_val(d, 8, 5 * m, 5),
                    stream_val(d, 8, 5 * m + 5, rest),
                );
                assert(5 * (m + 1) == 5 * m + 5);
            }
            let sym = value / sh;
            value = value % sh;
            out.push(b32_symbol(sym));
            bits = bits - 5;
        }
        k = k + 1;
    }
    if bits > 0 {
        let sh = pow2_u32(5 - bits);
        proof {
            let m = out@.len() as int;
            let rest = (5 - bits) as nat;
            lemma_val_concat(d, 8, 5 * m, bits as nat, rest);
            assert((bits + rest) as nat == 5);
            assert(5 * m + bits == 8 * data@.len());
            assert(d.len() == data@.len());
            lemma_val_past_end(d, 8, 5 * m + bits, rest);
            lemma_val_bounds(d, 8, 5 * m, 5);
            lemma2_to64();
        }
        let sym = value * sh;
        out.push(b32_symbol(sym));
    }
    proof {
        assert(out@.len() == encoded_len(data@.len()));
        assert(out@ =~= base32_encode_spec(data@));
    }
    string_from_chars(&out)
}

proof fn lemma_values_none_extends(s: Seq<char>, i: int)
    requires
        0 <= i <= s.len(),
        b32_values(s.take(i)) is None,
    ensures
        b32_values(s) is None,
    decreases s.len() - i,
{
    if i < s.len() {
        assert(s.take(i + 1).drop_last() =~= s.take(i));
        lemma_values_none_extends(s, i + 1);
    } else {
        assert(s.take(i) =~= s);
    }
}

/// Base32 decoding: `=` is skipped, letters are taken in either case, any
/// other character outside `A-Z2-7` gives `None`; trailing bits that do not
/// fill a byte are dropped.
pub fn base32_decode(s: &str) -> (res: Option<Vec<u8>>)
    ensures
        res matches Some(v) ==> base32_decode_spec(s@) == Some(v@),
        res is None ==> base32_decode_spec(s@) is None,
{
    let cs = chars_of(s);
    let ghost mut v: Seq<int> = seq![];
    let mut out: Vec<u8> = Vec::new();
    let mut bits: u32 = 0;
    let mut value: u32 = 0;
    let mut i: usize = 0;
    proof {
        assert(cs@.take(0) =~= seq![]);
        lemma2_to64();
    }
    while i < cs.len()
        invariant
            i <= cs@.len(),
            cs@ == s@,
            b32_values(cs@.take(i as int)) == Some(v),
            forall|k: int| 0 <= k < v.len() ==> 0 <= #[trigger] v[k] < 32,
            8 * out@.len() + bits == 5 * v.len(),
            bits < 8,
            value == stream_val(v, 5, 8 * (out@.len() as int), bits as nat),
            forall|j: int|
                0 <= j < out@.len() ==> out@[j] == #[trigger] (stream_val(v, 5, 8 * j, 8) as u8),
        decreases cs@.len() - i,
    {
        let c = cs[i];
        proof {
            assert(cs@.take(i + 1).drop_last() =~= cs@.take(i as int));
            assert(cs@.take(i + 1).last() == c);
        }
        if c == '=' {
            i = i + 1;
            continue;
        }
        let u = to_ascii_upper(c);
        let x = match b32_lookup(u) {
            Some(x) => x,
            None => {
                proof {
                    lemma_values_none_extends(cs@, i + 1);
                }
                return None;
            },
        };
        let ghost v2 = v.push(x as int);
        proof {
            lemma2_to64();
            let n = out@.len() as int;
            assert forall|j: int| 0 <= j < out@.len() implies out@[j] == #[trigger] (stream_val(
                v2,
                5,
                8 * j,
                8,
            ) as u8) by {
                assert(8 * j + 8 <= 8 * n);
                lemma_val_push(v, 5, x as int, 8 * j, 8);
            }
            lemma_val_push(v, 5, x as int, 8 * n, bits as nat);
            lemma_val_concat(v2, 5, 8 * n, bits as nat, 5);
            assert(v2[v.len() as int] == x as int);
            lemma_val_word(v2, 5, v.len() as int);
            assert(8 * n + bits == 5 * v.len());
            lemma_val_bounds(v, 5, 8 * n, bits as nat);
            vstd::arithmetic::power2::lemma_pow2_strictly_increases(bits as nat, 8);
        }
        value = value * 32 + x;
        bits = bits + 5;
        proof {
            v = v2;
            assert forall|k: int| 0 <= k < v.len() implies 0 <= #[trigger] v[k] < 32 by {
                if k < v.len() - 1 {
                    assert(v[k] == v.drop_last()[k]);
                }
            }
        }
        if bits >= 8 {
            let sh = pow2_u32(bits - 8);
            proof {
                let n = out@.len() as int;
                let rest = (bits - 8) as nat;
                lemma_val_concat(v, 5, 8 * n, 8, rest);
                assert((8 + rest) as nat == bits as nat);
                lemma_val_bounds(v, 5, 8 * n + 8, rest);
                lemma_val_bounds(v, 5, 8 * n, 8);
                lemma_pow2_pos(rest);
                lemma_fundamental_div_mod_converse(
                    value as int,
                    sh as int,
                    stream_val(v, 5, 8 * n, 8),
                    stream_val(v, 5, 8 * n + 8, rest),
                );
                assert(8 * (n + 1) == 8 * n + 8);
            }
            let byte = (value / sh) as u8;
            value = value % sh;
            out.push(byte);
            bits = bits - 8;
        }
        i = i + 1;
    }
    proof {
        assert(cs@.take(cs@.len() as int) =~= cs@);
        assert(out@.len() == (5 * v.len() / 8) as nat);
        assert(out@ =~= bytes_from_symbols(v));
    }
    Some(out)
}

// ---------------------------------------------------------------------------
// Round trip

proof fn lemma_b32_char_index(x: int)
    requires
        0 <= x < 32,
    ensures
        b32_char(x) != '=',
        ascii_upper(b32_char(x)) == b32_char(x),
        b32_index(b32_char(x)) == Some(x),
{
}

proof fn lemma_values_of_encoding(d: Seq<u8>, i: int)
    requires
        0 <= i <= encoded_len(d.len()),
    ensures
        b32_values(base32_encode_spec(d).take(i)) == Some(
            Seq::new(i as nat, |k: int| stream_val(byte_words(d), 8, 5 * k, 5)),
        ),
    decreases i,
{
    let e = base32_encode_spec(d);
    if i == 0 {
        assert(e.take(0) =~= seq![]);
        assert(Seq::new(0, |k: int| stream_val(byte_words(d), 8, 5 * k, 5)) =~= seq![]);
    } else {
        lemma_values_of_encoding(d, i - 1);
        assert(e.take(i).drop_last() =~= e.take(i - 1));
        let x = stream_val(byte_words(d), 8, 5 * (i - 1), 5);
        lemma_val_bounds(byte_words(d), 8, 5 * (i - 1), 5);
        lemma2_to64();
        lemma_b32_char_index(x);
        assert(e.take(i).last() == b32_char(x));
        assert(Seq::new((i - 1) as nat, |k: int| stream_val(byte_words(d), 8, 5 * k, 5)).push(x)
            =~= Seq::new(i as nat, |k: int| stream_val(byte_words(d), 8, 5 * k, 5)));
    }
}

/// Decoding what `base32_encode` produced gives back the original bytes.
pub proof fn base32_round_trip(d: Seq<u8>)
    ensures
        base32_decode_spec(base32_encode_spec(d)) == Some(d),
{
    let m = encoded_len(d.len());
    let bw = byte_words(d);
    let v = Seq::new(m, |k: int| stream_val(bw, 8, 5 * k, 5));
    lemma_values_of_encoding(d, m as int);
    assert(base32_encode_spec(d).take(m as int) =~= base32_encode_spec(d));
    assert((5 * v.len() / 8) as nat == d.len());
    lemma2_to64();
    assert forall|j: int| 0 <= j < d.len() implies #[trigger] bytes_from_symbols(v)[j] == d[j] by {
        assert forall|t: int| 0 <= t < 8 implies #[trigger] same_bit(v, 5, 8 * j, bw, 8, 8 * j, t) by {
            let i = 8 * j + t;
            lemma_fundamental_div_mod(i, 5);
            let q = i / 5;
            let r = i % 5;
            assert(0 <= q < m);
            lemma_val_bounds(bw, 8, 5 * q, 5);
            lemma_val_bit(bw, 8, 5 * q, 5, r as nat);
            assert(5 * q + r == i);
        }
        lemma_val_ext(v, 5, 8 * j, bw, 8, 8 * j, 8);
        lemma_byte_word(d, j);
    }
    assert(bytes_from_symbols(v) =~= d);
}


// ---------------------------------------------------------------------------
// HMAC-SHA1 and the 6-digit code

/// Name for HMAC-SHA1 (RFC 2104 over SHA-1) of `msg` under `key`.
pub uninterp spec fn hmac_sha1(key: Seq<u8>, msg: Seq<u8>) -> Seq<u8>;

/// `hmac::Hmac::<sha1::Sha1>`: `new_from_slice`, `update`, `finalize`. The tag is
/// named by `hmac_sha1`; it is 20 bytes long (SHA-1's output size), and
/// `new_from_slice` accepts a key of any length, so the result is always `Some`.
#[verifier::external_body]
fn hmac_sha1_tag(key: &[u8], msg: &[u8]) -> (res: Option<Vec<u8>>)
    ensures
        res is Some,
        res matches Some(t) ==> t@ == hmac_sha1(key@, msg@),
        res matches Some(t) ==> t@.len() == 20,
{
    match <hmac::Hmac<sha1::Sha1> as hmac::Mac>::new_from_slice(key) {
        Ok(mut mac) => {
            hmac::Mac::update(&mut mac, msg);
            Some(hmac::Mac::finalize(mac).into_bytes().to_vec())
        },
        Err(_) => None,
    }
}

/// The 30-second step counter of UNIX time `t`, as `(t / 30) as u64` computes
/// it in Rust (division toward zero, then two's-complement wrap).
pub open spec fn totp_counter(t: int) -> int {
    if t >= 0 {
        t / 30
    } else {
        let q = (-t) / 30;
        if q == 0 {
            0
        } else {
            18446744073709551616 - q
        }
    }
}

/// `u64::to_be_bytes`.
pub open spec fn be_bytes8(c: int) -> Seq<u8> {
    seq![
        (c / 72057594037927936 % 256) as u8,
        (c / 281474976710656 % 256) as u8,
        (c / 1099511627776 % 256) as u8,
        (c / 4294967296 % 256) as u8,
        (c / 16777216 % 256) as u8,
        (c / 65536 % 256) as u8,
        (c / 256 % 256) as u8,
        (c % 256) as u8,
    ]
}

/// RFC 4226 dynamic truncation of a 20-byte HMAC-SHA1 tag.
pub open spec fn dynamic_truncation(h: Seq<u8>) -> int {
    let o = (h[19] % 16) as int;
    (h[o] % 128) as int * 16777216 + h[o + 1] as int * 65536 + h[o + 2] as int * 256 + h[o
        + 3] as int
}

/// `format!("{:06}", n)` for `n < 1_000_000`.
pub open spec fn six_digits(n: int) -> Seq<char> {
    seq![
        digit_char(n / 100000 % 10),
        digit_char(n / 10000 % 10),
        digit_char(n / 1000 % 10),
        digit_char(n / 100 % 10),
        digit_char(n / 10 % 10),
        digit_char(n % 10),
    ]
}

/// The TOTP code for base32 secret `secret` at UNIX time `t`; `None` when the
/// secret is not valid base32.
pub open spec fn totp_code(secret: Seq<char>, t: int) -> Option<Seq<char>> {
    match base32_decode_spec(secret) {
        None => None,
        Some(key) => Some(
            six_digits(dynamic_truncation(hmac_sha1(key, be_bytes8(totp_counter(t)))) % 1000000),
        ),
    }
}

/// The six digits of `n` (`n < 1_000_000`), zero-padded.
pub fn six_digit_chars(n: u32) -> (res: Vec<char>)
    requires
        n < 1000000,
    ensures
        res@ == six_digits(n as int),
{
    let mut out: Vec<char> = Vec::new();
    out.push(digit_to_char(n / 100000 % 10));
    out.push(digit_to_char(n / 10000 % 10));
    out.push(digit_to_char(n / 1000 % 10));
    out.push(digit_to_char(n / 100 % 10));
    out.push(digit_to_char(n / 10 % 10));
    out.push(digit_to_char(n % 10));
    assert(out@ =~= six_digits(n as int));
    out
}

fn step_counter(unix_time: i64) -> (c: u64)
    ensures
        c as int == totp_counter(unix_time as int),
{
    if unix_time >= 0 {
        (unix_time / 30) as u64
    } else {
        let m: u64 = ((-(unix_time + 1)) as u64) + 1;
        assert(m as int == -(unix_time as int));
        let q = m / 30;
        if q == 0 {
            0
        } else {
            u64::MAX - q + 1
        }
    }
}

fn be_bytes_of(c: u64) -> (res: Vec<u8>)
    ensures
        res@ == be_bytes8(c as int),
{
    let mut out: Vec<u8> = Vec::new();
    out.push((c / 72057594037927936 % 256) as u8);
    out.push((c / 281474976710656 % 256) as u8);
    out.push((c / 1099511627776 % 256) as u8);
    out.push((c / 4294967296 % 256) as u8);
    out.push((c / 16777216 % 256) as u8);
    out.push((c / 65536 % 256) as u8);
    out.push((c / 256 % 256) as u8);
    out.push((c % 256) as u8);
    assert(out@ =~= be_bytes8(c as int));
    out
}

/// The TOTP code as characters (see `code_at`).
pub fn code_chars_at(secret: &str, unix_time: i64) -> (res: Option<Vec<char>>)
    ensures
        res matches Some(c) ==> totp_code(secret@, unix_time as int) == Some(c@),
        res is None ==> totp_code(secret@, unix_time as int) is None,
{
    let key = match base32_decode(secret) {
        None => return None,
        Some(k) => k,
    };
    let counter = step_counter(unix_time);
    let msg = be_bytes_of(counter);
    let hash = match hmac_sha1_tag(key.as_slice(), msg.as_slice()) {
        None => return None,
        Some(h) => h,
    };
    let o = (hash[19] % 16) as usize;
    let binary: u32 = (hash[o] % 128) as u32 * 16777216 + hash[o + 1] as u32 * 65536 + hash[o
        + 2] as u32 * 256 + hash[o + 3] as u32;
    let code = six_digit_chars(binary % 1000000);
    Some(code)
}

/// The 6-digit TOTP code for base32 secret `secret` at UNIX time `unix_time`
/// (RFC 6238: 30-second steps, HMAC-SHA1); `None` when the secret is not
/// valid base32.
pub fn code_at(secret: &str, unix_time: i64) -> (res: Option<String>)
    ensures
        res matches Some(c) ==> totp_code(secret@, unix_time as int) == Some(c@),
        res is None ==> totp_code(secret@, unix_time as int) is None,
{
    match code_chars_at(secret, unix_time) {
        None => None,
        Some(c) => Some(string_from_chars(&c)),
    }
}

/// `code` (surrounding white space ignored) is the code of time `t`.
pub open spec fn code_matches(secret: Seq<char>, code: Seq<char>, t: int) -> bool {
    totp_code(secret, t) == Some(trim(code))
}

/// `code` is accepted at `now`: it is the code of the current step or of one
/// step before or after (90 seconds of clock skew).
pub open spec fn totp_accepts(secret: Seq<char>, code: Seq<char>, now: int) -> bool {
    ||| code_matches(secret, code, now - 30)
    ||| code_matches(secret, code, now)
    ||| code_matches(secret, code, now + 30)
}

fn matches_at_time(secret: &str, code: &Vec<char>, t: i64) -> (b: bool)
    ensures
        b == (totp_code(secret@, t as int) == Some(code@)),
{
    match code_chars_at(secret, t) {
        None => false,
        Some(expected) => chars_eq(&expected, code),
    }
}

/// Checks `code` against the codes of `now_unix - 30`, `now_unix` and
/// `now_unix + 30`.
pub fn verify_code(secret: &str, code: &str, now_unix: i64) -> (ok: bool)
    requires
        i64::MIN + 30 <= now_unix <= i64::MAX - 30,
    ensures
        ok == totp_accepts(secret@, code@, now_unix as int),
{
    let code = trimmed(code);
    if matches_at_time(secret, &code, now_unix - 30) {
        return true;
    }
    if matches_at_time(secret, &code, now_unix) {
        return true;
    }
    matches_at_time(secret, &code, now_unix + 30)
}

/// A code read at time `t` is accepted at `t` and one step later or earlier.
pub proof fn code_accepted_within_one_step(secret: Seq<char>, code: Seq<char>, t: int)
    requires
        totp_code(secret, t) == Some(code),
        trim(code) == code,
    ensures
        totp_accepts(secret, code, t),
        totp_accepts(secret, code, t + 30),
        totp_accepts(secret, code, t - 30),
{
    assert(t + 30 - 30 == t);
    assert(t - 30 + 30 == t);
}

/// Every TOTP code is six ASCII digits.
pub proof fn totp_code_is_six_digits(secret: Seq<char>, t: int)
    requires
        totp_code(secret, t) is Some,
    ensures
        totp_code(secret, t).unwrap().len() == 6,
        forall|i: int|
            0 <= i < 6 ==> '0' <= #[trigger] totp_code(secret, t).unwrap()[i] <= '9',
{
}

// ---------------------------------------------------------------------------
// Secrets and the key URI

/// A new 20-byte (160-bit) random secret, in base32; `None` when the
/// system random source fails.
pub fn generate_secret() -> (res: Option<String>)
    ensures
        res matches Some(s) ==> exists|k: Seq<u8>| k.len() == 20 && s@ == base32_encode_spec(k),
{
    match secure_random_bytes(20) {
        None => None,
        Some(buf) => Some(base32_encode(buf.as_slice())),
    }
}

/// The `otpauth://totp/...` key URI that authenticator apps read.
pub open spec fn otpauth_uri_spec(secret: Seq<char>, label: Seq<u8>, issuer: Seq<u8>) -> Seq<char> {
    "otpauth://totp/"@ + percent_encode(issuer) + ":"@ + percent_encode(label) + "?secret="@
        + secret + "&issuer="@ + percent_encode(issuer) + "&algorithm=SHA1&digits=6&period=30"@
}

/// The key URI for `secret`, with `issuer` and `account_label` percent-encoded.
pub fn otpauth_uri(secret: &str, account_label: &str, issuer: &str) -> (res: String)
    ensures
        res@ == otpauth_uri_spec(secret@, account_label.spec_bytes(), issuer.spec_bytes()),
{
    let enc_issuer = percent_encode_str(issuer);
    let enc_label = percent_encode_str(account_label);
    let mut out: Vec<char> = Vec::new();
    push_str(&mut out, "otpauth://totp/");
    push_str(&mut out, enc_issuer.as_str());
    push_str(&mut out, ":");
    push_str(&mut out, enc_label.as_str());
    push_str(&mut out, "?secret=");
    push_str(&mut out, secret);
    push_str(&mut out, "&issuer=");
    push_str(&mut out, enc_issuer.as_str());
    push_str(&mut out, "&algorithm=SHA1&digits=6&period=30");
    string_from_chars(&out)
}

// ---------------------------------------------------------------------------
// QR codes

/// Name for the SVG document that the `qrcode` crate renders for `text` at
/// error-correction level M with the given minimum size and colours; `None`
/// when the text does not fit in a QR code.
pub uninterp spec fn qr_svg_of(text: Seq<char>, min_size: u32, dark: Seq<char>, light: Seq<char>) -> Option<Seq<char>>;

/// How every SVG document of the `qrcode` crate begins: the XML declaration
/// and the `<svg` element up to its width.
pub open spec fn qr_svg_prefix() -> Seq<char> {
    "<?xml version=\"1.0\" standalone=\"yes\"?><svg xmlns=\"http://www.w3.org/2000/svg\" version=\"1.1\" width=\""@
}

/// `qrcode::QrCode::with_error_correction_level(text, EcLevel::M)`, then
/// `render::<svg::Color>().min_dimensions(..).dark_color(..).light_color(..).build()`.
/// The document is named by `qr_svg_of`; the crate's SVG canvas starts every
/// document with `qr_svg_prefix`, followed by the sizes, the background
/// rectangle and the path, so it is longer than 100 characters. The sizing
/// adds `min_size` to the module count in `u32`, so `min_size` is kept far
/// from overflow. The error text (the `Display` of `QrError`) is not stated.
#[verifier::external_body]
fn render_qr_svg(text: &str, min_size: u32, dark: &str, light: &str) -> (res: Result<String, String>)
    requires
        min_size <= 1_000_000,
    ensures
        res matches Ok(s) ==> qr_svg_of(text@, min_size, dark@, light@) == Some(s@),
        res is Err ==> qr_svg_of(text@, min_size, dark@, light@) is None,
        res matches Ok(s) ==> starts_with(s@, qr_svg_prefix()) && s@.len() > 100,
{
    match qrcode::QrCode::with_error_correction_level(text, qrcode::EcLevel::M) {
        Ok(code) => Ok(
            code.render().min_dimensions(min_size, min_size).dark_color(
                qrcode::render::svg::Color(dark),
            ).light_color(qrcode::render::svg::Color(light)).build(),
        ),
        Err(e) => Err(e.to_string()),
    }
}

/// Prefix of the error returned when a QR code cannot be made.
pub open spec fn qr_error_prefix() -> Seq<char> {
    "QRコード生成に失敗しました / QR code generation failed: "@
}

/// Renders `text` as a QR code SVG (at least 220×220, black on white).
pub fn text_qr_svg(text: &str) -> (res: Result<String, String>)
    ensures
        res matches Ok(s) ==> qr_svg_of(text@, 220, "#000000"@, "#ffffff"@) == Some(s@),
        res is Err <==> qr_svg_of(text@, 220, "#000000"@, "#ffffff"@) is None,
        res matches Err(m) ==> starts_with(m@, qr_error_prefix()),
        res matches Ok(s) ==> starts_with(s@, qr_svg_prefix()) && s@.len() > 100,
{
    match render_qr_svg(text, 220, "#000000", "#ffffff") {
        Ok(svg) => Ok(svg),
        Err(e) => {
            let mut out: Vec<char> = Vec::new();
            push_str(&mut out, "QRコード生成に失敗しました / QR code generation failed: ");
            let ghost pre = out@;
            push_str(&mut out, e.as_str());
            assert(out@.take(pre.len() as int) =~= pre);
            Err(string_from_chars(&out))
        },
    }
}

/// The key URI of `otpauth_uri` as a QR code SVG.
pub fn totp_qr_svg(secret: &str, account_label: &str, issuer: &str) -> (res: Result<String, String>)
    ensures
        res matches Ok(s) ==> qr_svg_of(
            otpauth_uri_spec(secret@, account_label.spec_bytes(), issuer.spec_bytes()),
            220,
            "#000000"@,
            "#ffffff"@,
        ) == Some(s@),
        res is Err <==> qr_svg_of(
            otpauth_uri_spec(secret@, account_label.spec_bytes(), issuer.spec_bytes()),
            220,
            "#000000"@,
            "#ffffff"@,
        ) is None,
        res matches Ok(s) ==> starts_with(s@, qr_svg_prefix()) && s@.len() > 100,
{
    let uri = otpauth_uri(secret, account_label, issuer);
    text_qr_svg(uri.as_str())
}

} // verus!
