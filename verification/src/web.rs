//! Small text rules of the HTTP side: query parameters and percent
//! decoding, the news feed for a language, RSS headline extraction and XML
//! entity decoding.

use vstd::prelude::*;
use crate::text::{
    chars_of, string_from_chars, trim, trim_chars, trimmed, push_str, split_on,
    split_chars, starts_with, starts_with_chars, chars_eq, first_occurrence, replace_all, split_str,
    strip_prefix_all, strip_suffix_all, replace_chars, split_str_chars, strip_prefix_chars,
    strip_suffix_chars, find_from, lemma_first_occurrence_skip,
    first_index_of, index_of_char, slice_chars, lemma_first_index_unique, opt_str,
};
use crate::worker::{lossy_string, utf8_lossy};
use crate::languages::{text_lt, text_less, texts};
use crate::text::{lowercase, unicode_lowercase};
use vstd::string::StringSliceAdditionalSpecFns;

verus! {

// ---------------------------------------------------------------------------
// Percent decoding and query parameters

/// Value of an ASCII hexadecimal digit byte.
pub open spec fn hex_digit(c: u8) -> Option<int> {
    if 48 <= c <= 57 {
        Some(c - 48)
    } else if 97 <= c <= 102 {
        Some(c - 87)
    } else if 65 <= c <= 70 {
        Some(c - 55)
    } else {
        None
    }
}

/// `u8::from_str_radix` in base 16 of the text of two bytes: two hex
/// digits, or a `+` and one hex digit.
pub open spec fn hex_pair(a: u8, b: u8) -> Option<int> {
    if a == 43 {
        hex_digit(b)
    } else {
        match (hex_digit(a), hex_digit(b)) {
            (Some(h), Some(l)) => Some(16 * h + l),
            _ => None,
        }
    }
}

/// The bytes a percent-encoded text stands for: `%XX` becomes the byte
/// `XX`, `+` a space, every other byte stays.
pub open spec fn percent_bytes(s: Seq<u8>) -> Seq<u8>
    decreases s.len(),
{
    if s.len() == 0 {
        seq![]
    } else if s[0] == 37 && 2 < s.len() && hex_pair(s[1], s[2]) is Some {
        seq![hex_pair(s[1], s[2]).unwrap() as u8] + percent_bytes(s.skip(3))
    } else if s[0] == 43 {
        seq![32u8] + percent_bytes(s.drop_first())
    } else {
        seq![s[0]] + percent_bytes(s.drop_first())
    }
}

/// Decoding reads the two bytes after a `%` (when there are two more) as a
/// slice of the text, which must end on a character boundary: the byte
/// after them is not a UTF-8 continuation byte.
pub open spec fn percent_slices_ok(s: Seq<u8>) -> bool {
    forall|i: int| 0 <= i && i + 3 < s.len() && #[trigger] s[i] == 37 ==> !vstd::utf8::is_continuation_byte(s[i + 3])
}

fn hex_digit_of(c: u8) -> (r: Option<u8>)
    ensures
        match (r, hex_digit(c)) {
            (Some(v), Some(sv)) => v as int == sv,
            (None, None) => true,
            _ => false,
        },
{
    if 48 <= c && c <= 57 {
        Some(c - 48)
    } else if 97 <= c && c <= 102 {
        Some(c - 87)
    } else if 65 <= c && c <= 70 {
        Some(c - 55)
    } else {
        None
    }
}

fn hex_pair_of(a: u8, b: u8) -> (r: Option<u8>)
    ensures
        match (r, hex_pair(a, b)) {
            (Some(v), Some(sv)) => v as int == sv,
            (None, None) => true,
            _ => false,
        },
{
    if a == 43 {
        hex_digit_of(b)
    } else {
        match (hex_digit_of(a), hex_digit_of(b)) {
            (Some(h), Some(l)) => Some(h * 16 + l),
            _ => None,
        }
    }
}

/// Decodes a percent-encoded query value; the bytes are read as UTF-8,
/// invalid sequences replaced.
pub fn percent_decode(s: &str) -> (r: String)
    requires
        percent_slices_ok(s.spec_bytes()),
    ensures
        r@ == utf8_lossy(percent_bytes(s.spec_bytes())),
        vstd::utf8::valid_utf8(percent_bytes(s.spec_bytes())) ==> r@ == vstd::utf8::decode_utf8(
            percent_bytes(s.spec_bytes()),
        ),
{
    let cs = s.as_bytes();
    let mut out: Vec<u8> = Vec::new();
    let mut i: usize = 0;
    assert(cs@.skip(0) =~= cs@);
    while i < cs.len()
        invariant
            i <= cs.len(),
            cs@ == s.spec_bytes(),
            out@ + percent_bytes(cs@.skip(i as int)) == percent_bytes(cs@),
        decreases cs.len() - i,
    {
        let ghost t = cs@.skip(i as int);
        let c = cs[i];
        assert(t[0] == c);
        if c == 37 && cs.len() - i > 2 {
            match hex_pair_of(cs[i + 1], cs[i + 2]) {
                Some(v) => {
                    assert(t[1] == cs@[i + 1] && t[2] == cs@[i + 2]);
                    assert(t.skip(3) =~= cs@.skip(i + 3));
                    out.push(v);
                    i = i + 3;
                    assert(out@ + percent_bytes(cs@.skip(i as int)) =~= percent_bytes(cs@));
                    continue;
                },
                None => {
                    assert(t[1] == cs@[i + 1] && t[2] == cs@[i + 2]);
                },
            }
        }
        assert(t.drop_first() =~= cs@.skip(i + 1));
        if c == 43 {
            out.push(32u8);
        } else {
            out.push(c);
        }
        i = i + 1;
        assert(out@ + percent_bytes(cs@.skip(i as int)) =~= percent_bytes(cs@));
    }
    assert(cs@.skip(i as int) =~= Seq::<u8>::empty());
    assert(out@ =~= percent_bytes(cs@));
    lossy_string(out.as_slice())
}

/// The byte of an upper-case hexadecimal digit for `d < 16`.
pub open spec fn hex_upper_byte(d: int) -> u8 {
    if d < 10 {
        (48 + d) as u8
    } else {
        (55 + d) as u8
    }
}

/// The percent-encoding of one byte, as bytes.
pub open spec fn encode_byte_bytes(b: u8) -> Seq<u8> {
    if crate::text::is_unreserved(b) {
        seq![b]
    } else {
        seq![37u8, hex_upper_byte((b / 16) as int), hex_upper_byte((b % 16) as int)]
    }
}

/// Percent-encoding of a byte sequence, as bytes.
pub open spec fn percent_encode_bytes(bs: Seq<u8>) -> Seq<u8>
    decreases bs.len(),
{
    if bs.len() == 0 {
        seq![]
    } else {
        percent_encode_bytes(bs.drop_last()) + encode_byte_bytes(bs.last())
    }
}

/// The characters of a percent-encoding are ASCII, and their UTF-8 bytes
/// are the byte form of the encoding.
proof fn lemma_encoding_bytes(bs: Seq<u8>)
    ensures
        vstd::utf8::is_ascii_chars(crate::text::percent_encode(bs)),
        vstd::utf8::encode_utf8(crate::text::percent_encode(bs)) == percent_encode_bytes(bs),
    decreases bs.len(),
{
    let p = crate::text::percent_encode(bs);
    if bs.len() == 0 {
    } else {
        lemma_encoding_bytes(bs.drop_last());
        let b = bs.last();
        let q = crate::text::percent_encode(bs.drop_last());
        let e = crate::text::encode_byte(b);
        assert(p == q + e);
        assert(vstd::utf8::is_ascii_chars(e));
        assert(vstd::utf8::is_ascii_chars(p)) by {
            assert forall|i: int| 0 <= i < p.len() implies '\0' <= #[trigger] p[i] <= '\u{7f}' by {
                if i < q.len() {
                    assert(p[i] == q[i]);
                } else {
                    assert(p[i] == e[i - q.len()]);
                }
            }
        }
        vstd::utf8::is_ascii_chars_encode_utf8(p);
        vstd::utf8::is_ascii_chars_encode_utf8(q);
        vstd::utf8::is_ascii_chars_encode_utf8(e);
        let eb = encode_byte_bytes(b);
        assert(vstd::utf8::encode_utf8(e) =~= eb) by {
            assert(vstd::utf8::encode_utf8(e).len() == e.len());
        }
        assert(vstd::utf8::encode_utf8(p) =~= percent_encode_bytes(bs.drop_last()) + eb) by {
            assert forall|i: int| 0 <= i < p.len() implies #[trigger] vstd::utf8::encode_utf8(p)[i] == (
            percent_encode_bytes(bs.drop_last()) + eb)[i] by {
                if i < q.len() {
                    assert(p[i] == q[i]);
                    assert(vstd::utf8::encode_utf8(q)[i] == q[i] as u8);
                } else {
                    assert(p[i] == e[i - q.len()]);
                    assert(vstd::utf8::encode_utf8(e)[i - q.len()] == e[i - q.len()] as u8);
                }
            }
        }
    }
}

/// Encoding one byte in front of others.
proof fn lemma_encode_front(b: u8, bs: Seq<u8>)
    ensures
        percent_encode_bytes(seq![b] + bs) == encode_byte_bytes(b) + percent_encode_bytes(bs),
    decreases bs.len(),
{
    let s = seq![b] + bs;
    if bs.len() == 0 {
        assert(s.drop_last() =~= Seq::<u8>::empty());
        assert(s.last() == b);
        assert(percent_encode_bytes(s) == percent_encode_bytes(s.drop_last()) + encode_byte_bytes(b));
        assert(Seq::<u8>::empty() + encode_byte_bytes(b) =~= encode_byte_bytes(b));
        assert(encode_byte_bytes(b) + percent_encode_bytes(bs) =~= encode_byte_bytes(b));
    } else {
        assert(s.drop_last() =~= seq![b] + bs.drop_last());
        assert(s.last() == bs.last());
        lemma_encode_front(b, bs.drop_last());
        assert(encode_byte_bytes(b) + percent_encode_bytes(bs.drop_last()) + encode_byte_bytes(bs.last())
            =~= encode_byte_bytes(b) + (percent_encode_bytes(bs.drop_last()) + encode_byte_bytes(bs.last())));
    }
}

/// Percent-encoded bytes are ASCII.
proof fn lemma_encoded_bytes_ascii(bs: Seq<u8>)
    ensures
        forall|i: int| 0 <= i < percent_encode_bytes(bs).len() ==> #[trigger] percent_encode_bytes(bs)[i] < 128,
    decreases bs.len(),
{
    if bs.len() > 0 {
        lemma_encoded_bytes_ascii(bs.drop_last());
        let p = percent_encode_bytes(bs.drop_last());
        let e = encode_byte_bytes(bs.last());
        assert forall|i: int| 0 <= i < (p + e).len() implies #[trigger] (p + e)[i] < 128 by {
            if i < p.len() {
                assert((p + e)[i] == p[i]);
            } else {
                assert((p + e)[i] == e[i - p.len()]);
            }
        }
    }
}

/// Reading percent-encoded bytes followed by more bytes gives the encoded
/// bytes, then whatever the rest gives.
proof fn lemma_decode_encoded(bs: Seq<u8>, rest: Seq<u8>)
    ensures
        percent_bytes(percent_encode_bytes(bs) + rest) == bs + percent_bytes(rest),
    decreases bs.len(),
{
    if bs.len() == 0 {
        assert(percent_encode_bytes(bs) + rest =~= rest);
        assert(bs + percent_bytes(rest) =~= percent_bytes(rest));
    } else {
        let b = bs[0];
        let tail = bs.drop_first();
        assert(bs =~= seq![b] + tail);
        lemma_encode_front(b, tail);
        lemma_decode_encoded(tail, rest);
        let x = percent_encode_bytes(tail) + rest;
        let s = percent_encode_bytes(bs) + rest;
        assert(s =~= encode_byte_bytes(b) + x);
        if crate::text::is_unreserved(b) {
            assert(s[0] == b);
            assert(s.drop_first() =~= x);
            assert(percent_bytes(s) == seq![b] + percent_bytes(x));
        } else {
            let hi = (b / 16) as int;
            let lo = (b % 16) as int;
            assert(s[0] == 37 && s[1] == hex_upper_byte(hi) && s[2] == hex_upper_byte(lo));
            assert(s.skip(3) =~= x);
            assert(hex_pair(s[1], s[2]) == Some(16 * hi + lo));
            assert(percent_bytes(s) == seq![b] + percent_bytes(x));
        }
        assert(bs + percent_bytes(rest) =~= seq![b] + (tail + percent_bytes(rest)));
    }
}

/// Decoding what `urlencoding_simple` made of a text gives the text back:
/// `percent_decode` accepts the encoding, the bytes it reads out are the
/// UTF-8 of the text, and those decode to the text.
pub proof fn percent_encoding_round_trip(s: Seq<char>)
    ensures
        percent_slices_ok(vstd::utf8::encode_utf8(crate::text::percent_encode(vstd::utf8::encode_utf8(s)))),
        percent_bytes(vstd::utf8::encode_utf8(crate::text::percent_encode(vstd::utf8::encode_utf8(s))))
            == vstd::utf8::encode_utf8(s),
        vstd::utf8::valid_utf8(vstd::utf8::encode_utf8(s)),
        vstd::utf8::decode_utf8(vstd::utf8::encode_utf8(s)) == s,
{
    let bs = vstd::utf8::encode_utf8(s);
    lemma_encoding_bytes(bs);
    lemma_encoded_bytes_ascii(bs);
    let e = percent_encode_bytes(bs);
    assert forall|i: int| 0 <= i && i + 3 < e.len() && #[trigger] e[i] == 37 implies !vstd::utf8::is_continuation_byte(
        e[i + 3],
    ) by {
        assert(e[i + 3] < 128);
    }
    lemma_decode_encoded(bs, seq![]);
    assert(e + Seq::<u8>::empty() =~= e);
    assert(bs + percent_bytes(Seq::<u8>::empty()) =~= bs);
    vstd::utf8::encode_utf8_valid_utf8(s);
    vstd::utf8::encode_utf8_decode_utf8(s);
}

/// The name of a `name=value` pair (all of it when there is no `=`).
pub open spec fn pair_name(p: Seq<char>) -> Seq<char> {
    if p.contains('=') {
        p.take(first_index_of(p, '='))
    } else {
        p
    }
}

/// The value of a `name=value` pair (empty when there is no `=`).
pub open spec fn pair_value(p: Seq<char>) -> Seq<char> {
    if p.contains('=') {
        p.skip(first_index_of(p, '=') + 1)
    } else {
        seq![]
    }
}

/// The first `&`-separated pair named `key`.
pub open spec fn first_pair_named(q: Seq<char>, key: Seq<char>, j: int) -> bool {
    let ps = split_on(q, '&');
    0 <= j < ps.len() && pair_name(ps[j]) == key && forall|i: int| 0 <= i < j ==> pair_name(#[trigger] ps[i]) != key
}

/// Decoding the value of the first parameter named `key` does not read a
/// slice that ends inside a character.
pub open spec fn query_value_ok(q: Seq<char>, key: Seq<char>) -> bool {
    forall|j: int| #[trigger] first_pair_named(q, key, j) ==> percent_slices_ok(
        vstd::utf8::encode_utf8(pair_value(split_on(q, '&')[j])),
    )
}

/// The decoded value of the first query parameter named `key`.
pub open spec fn query_param_spec(query: Option<Seq<char>>, key: Seq<char>) -> Option<Seq<char>> {
    match query {
        None => None,
        Some(q) => if exists|j: int| first_pair_named(q, key, j) {
            let j = choose|j: int| first_pair_named(q, key, j);
            Some(utf8_lossy(percent_bytes(vstd::utf8::encode_utf8(pair_value(split_on(q, '&')[j])))))
        } else {
            None
        },
    }
}

proof fn lemma_first_pair_unique(q: Seq<char>, key: Seq<char>, j: int)
    requires
        first_pair_named(q, key, j),
    ensures
        (choose|k: int| first_pair_named(q, key, k)) == j,
{
    let k = choose|k: int| first_pair_named(q, key, k);
    let ps = split_on(q, '&');
    if k < j {
        assert(pair_name(ps[k]) != key);
    }
    if j < k {
        assert(pair_name(ps[j]) != key);
    }
}

/// The decoded value of the first parameter named `key` in a URI query
/// string.
#[verifier::spinoff_prover]
pub fn query_param(query: Option<&str>, key: &str) -> (r: Option<String>)
    requires
        query matches Some(q) ==> query_value_ok(q@, key@),
    ensures
        opt_string_view(r) == query_param_spec(opt_str(query), key@),
{
    let q = match query {
        None => return None,
        Some(q) => q,
    };
    let qc = chars_of(q);
    let pairs = split_chars(&qc, '&');
    let kc = chars_of(key);
    let ghost ps = split_on(q@, '&');
    let mut j: usize = 0;
    while j < pairs.len()
        invariant
            j <= pairs.len(),
            qc@ == q@,
            kc@ == key@,
            query == Some(q),
            query_value_ok(q@, key@),
            ps == split_on(q@, '&'),
            pairs@.len() == ps.len(),
            forall|k: int| 0 <= k < pairs@.len() ==> #[trigger] pairs@[k]@ == ps[k],
            forall|i: int| 0 <= i < j ==> pair_name(#[trigger] ps[i]) != key@,
        decreases pairs.len() - j,
    {
        let p = &pairs[j];
        let (name, value) = match index_of_char(p, '=') {
            Some(e) => {
                proof {
                    lemma_first_index_unique(p@, '=', e as int);
                }
                assert(e < p.len());
                (slice_chars(p, 0, e), slice_chars(p, e + 1, p.len()))
            },
            None => (slice_chars(p, 0, p.len()), Vec::new()),
        };
        assert(name@ =~= pair_name(ps[j as int]));
        assert(value@ =~= pair_value(ps[j as int]));
        if chars_eq(&name, &kc) {
            proof {
                assert(first_pair_named(q@, key@, j as int));
                lemma_first_pair_unique(q@, key@, j as int);
            }
            let v = string_from_chars(&value);
            assert(v@ == pair_value(ps[j as int]));
            let d = percent_decode(v.as_str());
            assert(opt_str(query) == Some(q@));
            proof {
                let jj = j as int;
                assert(first_pair_named(q@, key@, jj));
                assert(exists|k: int| first_pair_named(q@, key@, k));
                let ch = choose|k: int| first_pair_named(q@, key@, k);
                lemma_first_pair_unique(q@, key@, jj);
                assert(ch == jj);
                assert(query_param_spec(Some(q@), key@) == Some(
                    utf8_lossy(percent_bytes(vstd::utf8::encode_utf8(pair_value(split_on(q@, '&')[ch])))),
                ));
            }
            return Some(d);
        }
        j = j + 1;
    }
    proof {
        assert forall|k: int| !first_pair_named(q@, key@, k) by {
            if first_pair_named(q@, key@, k) {
                assert(pair_name(ps[k]) != key@);
            }
        }
    }
    None
}

/// The characters of an optional string.
pub open spec fn opt_string_view(o: Option<String>) -> Option<Seq<char>> {
    match o {
        Some(s) => Some(s@),
        None => None,
    }
}

/// Percent-encodes every byte outside `A-Z a-z 0-9 - _ . ~` (upper-case hex).
pub fn urlencoding_simple(s: &str) -> (r: String)
    ensures
        r@ == crate::text::percent_encode(s.spec_bytes()),
{
    crate::text::percent_encode_str(s)
}

/// `a` does not come after `b` when names are compared by their lower-case
/// form (`str::to_lowercase`).
pub open spec fn not_after_ignoring_case(a: Seq<char>, b: Seq<char>) -> bool {
    !text_lt(unicode_lowercase(b), unicode_lowercase(a))
}

/// Names in listing order: none comes after the next one, compared by their
/// lower-case form.
pub open spec fn sorted_ignoring_case(s: Seq<Seq<char>>) -> bool {
    forall|i: int| 0 <= i < s.len() - 1 ==> #[trigger] not_after_ignoring_case(s[i], s[i + 1])
}

/// `from` takes each place of `r` to a place of `names` holding the same
/// name, no place twice, and names that are equal ignoring case come in
/// the order they had in `names`.
pub open spec fn stable_arrangement(names: Seq<Seq<char>>, r: Seq<Seq<char>>, from: Seq<int>) -> bool {
    &&& from.len() == r.len()
    &&& forall|i: int| 0 <= i < r.len() ==> 0 <= #[trigger] from[i] < names.len() && r[i] == names[from[i]]
    &&& forall|i: int, k: int| 0 <= i < k < r.len() ==> #[trigger] from[i] != #[trigger] from[k]
    &&& forall|i: int, k: int|
        0 <= i < k < r.len() && unicode_lowercase(r[i]) == unicode_lowercase(r[k]) ==> #[trigger] from[i]
            < #[trigger] from[k]
}

/// "Not after" is transitive.
proof fn lemma_text_le_trans(a: Seq<char>, b: Seq<char>, c: Seq<char>)
    requires
        !text_lt(b, a),
        !text_lt(c, b),
    ensures
        !text_lt(c, a),
{
    crate::languages::lemma_text_lt_total(a, b);
    if text_lt(c, a) && a != b {
        crate::languages::lemma_text_lt_trans(c, a, b);
    }
}

/// In a listing sorted ignoring case, no name comes after a later one.
proof fn lemma_sorted_ignoring_case_pairwise(t: Seq<Seq<char>>, a: int, b: int)
    requires
        sorted_ignoring_case(t),
        0 <= a <= b < t.len(),
    ensures
        not_after_ignoring_case(t[a], t[b]),
    decreases b - a,
{
    if a == b {
        crate::languages::lemma_text_lt_total(unicode_lowercase(t[a]), unicode_lowercase(t[a]));
    } else {
        lemma_sorted_ignoring_case_pairwise(t, a, b - 1);
        let k = b - 1;
        assert(not_after_ignoring_case(t[k], t[k + 1]));
        assert(k + 1 == b);
        lemma_text_le_trans(unicode_lowercase(t[a]), unicode_lowercase(t[b - 1]), unicode_lowercase(t[b]));
    }
}

/// Sorts the names of a directory listing by their lower-case form; names
/// equal ignoring case keep their order (a stable sort).
pub fn sort_names_ignoring_case(names: &Vec<String>) -> (r: Vec<String>)
    ensures
        texts(r@).to_multiset() == texts(names@).to_multiset(),
        sorted_ignoring_case(texts(r@)),
        exists|from: Seq<int>| stable_arrangement(texts(names@), texts(r@), from),
{
    let mut out: Vec<String> = Vec::new();
    let mut keys: Vec<Vec<char>> = Vec::new();
    let mut j: usize = 0;
    let ghost mut from: Seq<int> = Seq::empty();
    assert(texts(names@).take(0) =~= Seq::<Seq<char>>::empty());
    assert(texts(out@) =~= Seq::<Seq<char>>::empty());
    while j < names.len()
        invariant
            j <= names.len(),
            stable_arrangement(texts(names@), texts(out@), from),
            forall|i: int| 0 <= i < from.len() ==> #[trigger] from[i] < j,
            keys.len() == out.len(),
            forall|k: int| 0 <= k < out.len() ==> #[trigger] keys@[k]@ == unicode_lowercase(out@[k]@),
            texts(out@).to_multiset() == texts(names@).take(j as int).to_multiset(),
            sorted_ignoring_case(texts(out@)),
        decreases names.len() - j,
    {
        let key = chars_of(lowercase(names[j].as_str()).as_str());
        let ghost before = texts(out@);
        let mut pos: usize = 0;
        while pos < out.len() && !text_less(&key, &keys[pos])
            invariant
                pos <= out.len(),
                keys.len() == out.len(),
                before == texts(out@),
                forall|k: int| 0 <= k < out.len() ==> #[trigger] keys@[k]@ == unicode_lowercase(out@[k]@),
                pos > 0 ==> !text_lt(key@, unicode_lowercase(before[pos - 1])),
            decreases out.len() - pos,
        {
            pos = pos + 1;
        }
        let x = names[j].clone();
        let ghost xv = names@[j as int]@;
        assert(x@ == xv);
        assert(key@ == unicode_lowercase(xv));
        proof {
            if pos < out.len() {
                assert(text_lt(key@, keys@[pos as int]@));
                crate::languages::lemma_text_lt_total(key@, unicode_lowercase(before[pos as int]));
            }
        }
        let ghost out_before = out@;
        let ghost keys_before = keys@;
        out.insert(pos, x);
        keys.insert(pos, key);
        proof {
            let t = texts(out@);
            assert(t =~= before.insert(pos as int, xv));
            assert(texts(names@).take(j + 1) =~= texts(names@).take(j as int).push(xv));
            vstd::seq_lib::to_multiset_insert(before, pos as int, xv);
            vstd::seq_lib::to_multiset_build(texts(names@).take(j as int), xv);
            assert(t.to_multiset() == before.to_multiset().insert(xv));
            assert(texts(names@).take(j + 1).to_multiset() == texts(names@).take(j as int).to_multiset().insert(xv));
            assert forall|k: int| 0 <= k < out.len() implies #[trigger] keys@[k]@ == unicode_lowercase(out@[k]@) by {
                if k < pos {
                    assert(out@[k] == out_before[k] && keys@[k] == keys_before[k]);
                } else if k == pos {
                } else {
                    assert(out@[k] == out_before[k - 1] && keys@[k] == keys_before[k - 1]);
                }
            }
            assert forall|i: int| 0 <= i < t.len() - 1 implies #[trigger] not_after_ignoring_case(t[i], t[i + 1]) by {
                if i + 1 < pos {
                    assert(t[i] == before[i] && t[i + 1] == before[i + 1]);
                    assert(not_after_ignoring_case(before[i], before[i + 1]));
                } else if i + 1 == pos {
                    assert(t[i] == before[i] && t[i + 1] == xv);
                } else if i == pos {
                    assert(t[i] == xv && t[i + 1] == before[i]);
                } else {
                    assert(t[i] == before[i - 1] && t[i + 1] == before[i]);
                    let k = i - 1;
                    assert(0 <= k < before.len() - 1);
                    assert(not_after_ignoring_case(before[k], before[k + 1]));
                    assert(k + 1 == i);
                }
            }
            let from_before = from;
            let names_t = texts(names@);
            from = from_before.insert(pos as int, j as int);
            assert forall|i: int| 0 <= i < t.len() implies 0 <= #[trigger] from[i] < names_t.len() && t[i]
                == names_t[from[i]] by {
                if i < pos {
                    assert(t[i] == before[i] && from[i] == from_before[i]);
                } else if i == pos {
                    assert(names_t[j as int] == xv);
                } else {
                    assert(t[i] == before[i - 1] && from[i] == from_before[i - 1]);
                }
            }
            assert forall|i: int| 0 <= i < from.len() implies #[trigger] from[i] < j + 1 by {
                if i < pos {
                    assert(from[i] == from_before[i]);
                } else if i > pos {
                    assert(from[i] == from_before[i - 1]);
                }
            }
            assert forall|i: int, k: int| 0 <= i < k < t.len() implies #[trigger] from[i] != #[trigger] from[k] by {
                let fi = if i < pos { i } else { i - 1 };
                let fk = if k < pos { k } else { k - 1 };
                if i != pos && k != pos {
                    assert(from[i] == from_before[fi] && from[k] == from_before[fk]);
                } else if i == pos {
                    assert(from[k] == from_before[fk]);
                } else {
                    assert(from[i] == from_before[fi]);
                }
            }
            assert forall|i: int, k: int|
                0 <= i < k < t.len() && unicode_lowercase(t[i]) == unicode_lowercase(t[k]) implies #[trigger] from[i]
                < #[trigger] from[k] by {
                let fi = if i < pos { i } else { i - 1 };
                let fk = if k < pos { k } else { k - 1 };
                if i != pos && k != pos {
                    assert(from[i] == from_before[fi] && from[k] == from_before[fk]);
                    assert(t[i] == before[fi] && t[k] == before[fk]);
                } else if i == pos {
                    assert(from[k] == from_before[fk]);
                    assert(t[k] == before[fk]);
                    assert(t[i] == xv);
                    lemma_sorted_ignoring_case_pairwise(before, pos as int, fk);
                    assert(text_lt(key@, unicode_lowercase(before[pos as int])));
                    assert(false);
                } else {
                    assert(from[i] == from_before[fi]);
                }
            }
        }
        j = j + 1;
    }
    assert(texts(names@).take(names.len() as int) =~= texts(names@));
    assert(stable_arrangement(texts(names@), texts(out@), from));
    out
}

/// Drops the `\\?\` prefix that `canonicalize` puts on Windows paths.
pub fn strip_windows_verbatim_prefix(s: &str) -> (r: String)
    ensures
        r@ == (if starts_with(s@, "\\\\?\\"@) {
            s@.skip(4)
        } else {
            s@
        }),
{
    let cs = chars_of(s);
    let p = chars_of("\\\\?\\");
    assert(p@.len() == 4) by {
        reveal_strlit("\\\\?\\");
    }
    if starts_with_chars(&cs, &p) {
        let rest = slice_chars(&cs, 4, cs.len());
        assert(rest@ =~= s@.skip(4));
        string_from_chars(&rest)
    } else {
        String::from_str(s)
    }
}

// ---------------------------------------------------------------------------
// News feed

/// Google News `hl` and `gl` for a language code; English (US) for a
/// language without its own feed.
pub open spec fn news_locale_spec(lang: Seq<char>) -> (Seq<char>, Seq<char>) {
    if lang == "ja"@ {
        ("ja"@, "JP"@)
    } else if lang == "es"@ {
        ("es"@, "ES"@)
    } else if lang == "fr"@ {
        ("fr"@, "FR"@)
    } else if lang == "de"@ {
        ("de"@, "DE"@)
    } else if lang == "it"@ {
        ("it"@, "IT"@)
    } else if lang == "pt"@ {
        ("pt-PT"@, "PT"@)
    } else if lang == "nl"@ {
        ("nl"@, "NL"@)
    } else if lang == "sv"@ {
        ("sv"@, "SE"@)
    } else if lang == "no"@ {
        ("no"@, "NO"@)
    } else if lang == "da"@ {
        ("da"@, "DK"@)
    } else if lang == "fi"@ {
        ("fi"@, "FI"@)
    } else if lang == "pl"@ {
        ("pl"@, "PL"@)
    } else if lang == "cs"@ {
        ("cs"@, "CZ"@)
    } else if lang == "hu"@ {
        ("hu"@, "HU"@)
    } else if lang == "ro"@ {
        ("ro"@, "RO"@)
    } else if lang == "ru"@ {
        ("ru"@, "RU"@)
    } else if lang == "uk"@ {
        ("uk"@, "UA"@)
    } else if lang == "el"@ {
        ("el"@, "GR"@)
    } else if lang == "tr"@ {
        ("tr"@, "TR"@)
    } else if lang == "ar"@ {
        ("ar"@, "EG"@)
    } else if lang == "he"@ {
        ("he"@, "IL"@)
    } else if lang == "fa"@ {
        ("fa"@, "IR"@)
    } else if lang == "hi"@ {
        ("hi"@, "IN"@)
    } else if lang == "bn"@ {
        ("bn"@, "BD"@)
    } else if lang == "id"@ {
        ("id"@, "ID"@)
    } else if lang == "ms"@ {
        ("ms"@, "MY"@)
    } else if lang == "vi"@ {
        ("vi"@, "VN"@)
    } else if lang == "th"@ {
        ("th"@, "TH"@)
    } else if lang == "tl"@ {
        ("en"@, "PH"@)
    } else if lang == "zh"@ {
        ("zh-CN"@, "CN"@)
    } else if lang == "zh-Hant"@ {
        ("zh-TW"@, "TW"@)
    } else if lang == "ko"@ {
        ("ko"@, "KR"@)
    } else if lang == "ta"@ {
        ("ta"@, "IN"@)
    } else if lang == "te"@ {
        ("te"@, "IN"@)
    } else if lang == "ur"@ {
        ("ur"@, "PK"@)
    } else if lang == "mr"@ {
        ("mr"@, "IN"@)
    } else if lang == "pa"@ {
        ("pa"@, "IN"@)
    } else if lang == "sw"@ {
        ("sw"@, "KE"@)
    } else if lang == "rm"@ {
        ("de"@, "CH"@)
    } else {
        ("en"@, "US"@)
    }
}

/// The languages that have a Google News edition of their own.
pub open spec fn news_edition_languages() -> Seq<Seq<char>> {
    seq![
        "ja"@,
        "es"@,
        "fr"@,
        "de"@,
        "it"@,
        "pt"@,
        "nl"@,
        "sv"@,
        "no"@,
        "da"@,
        "fi"@,
        "pl"@,
        "cs"@,
        "hu"@,
        "ro"@,
        "ru"@,
        "uk"@,
        "el"@,
        "tr"@,
        "ar"@,
        "he"@,
        "fa"@,
        "hi"@,
        "bn"@,
        "id"@,
        "ms"@,
        "vi"@,
        "th"@,
        "tl"@,
        "zh"@,
        "zh-Hant"@,
        "ko"@,
        "ta"@,
        "te"@,
        "ur"@,
        "mr"@,
        "pa"@,
        "sw"@,
        "rm"@
    ]
}

/// Every language with a Google News edition of its own gets that edition,
/// never the English (United States) fallback: the edition is in the
/// learner's language (the first two letters agree), save Tagalog, read in
/// the English edition for the Philippines, and Romansh, read in the German
/// edition for Switzerland, and its region is a two-letter country code
/// other than the United States. Every other language gets the English (United States) edition.
pub proof fn news_uses_the_language_edition(lang: Seq<char>)
    ensures
        news_edition_languages().contains(lang) ==> {
            let (hl, gl) = news_locale_spec(lang);
            &&& (hl, gl) != ("en"@, "US"@)
            &&& gl != "US"@
            &&& gl.len() == 2
            &&& (lang != "tl"@ && lang != "rm"@ ==> hl.len() >= 2 && lang.len() >= 2 && hl.take(2) == lang.take(2))
        },
        !news_edition_languages().contains(lang) ==> news_locale_spec(lang) == ("en"@, "US"@),
{
    reveal_strlit("BD");
    reveal_strlit("CH");
    reveal_strlit("CN");
    reveal_strlit("CZ");
    reveal_strlit("DE");
    reveal_strlit("DK");
    reveal_strlit("EG");
    reveal_strlit("ES");
    reveal_strlit("FI");
    reveal_strlit("FR");
    reveal_strlit("GR");
    reveal_strlit("HU");
    reveal_strlit("ID");
    reveal_strlit("IL");
    reveal_strlit("IN");
    reveal_strlit("IR");
    reveal_strlit("IT");
    reveal_strlit("JP");
    reveal_strlit("KE");
    reveal_strlit("KR");
    reveal_strlit("MY");
    reveal_strlit("NL");
    reveal_strlit("NO");
    reveal_strlit("PH");
    reveal_strlit("PK");
    reveal_strlit("PL");
    reveal_strlit("PT");
    reveal_strlit("RO");
    reveal_strlit("RU");
    reveal_strlit("SE");
    reveal_strlit("TH");
    reveal_strlit("TR");
    reveal_strlit("TW");
    reveal_strlit("UA");
    reveal_strlit("US");
    reveal_strlit("VN");
    reveal_strlit("ar");
    reveal_strlit("bn");
    reveal_strlit("cs");
    reveal_strlit("da");
    reveal_strlit("de");
    reveal_strlit("el");
    reveal_strlit("en");
    reveal_strlit("es");
    reveal_strlit("fa");
    reveal_strlit("fi");
    reveal_strlit("fr");
    reveal_strlit("he");
    reveal_strlit("hi");
    reveal_strlit("hu");
    reveal_strlit("id");
    reveal_strlit("it");
    reveal_strlit("ja");
    reveal_strlit("ko");
    reveal_strlit("mr");
    reveal_strlit("ms");
    reveal_strlit("nl");
    reveal_strlit("no");
    reveal_strlit("pa");
    reveal_strlit("pl");
    reveal_strlit("pt");
    reveal_strlit("pt-PT");
    reveal_strlit("rm");
    reveal_strlit("ro");
    reveal_strlit("ru");
    reveal_strlit("sv");
    reveal_strlit("sw");
    reveal_strlit("ta");
    reveal_strlit("te");
    reveal_strlit("th");
    reveal_strlit("tl");
    reveal_strlit("tr");
    reveal_strlit("uk");
    reveal_strlit("ur");
    reveal_strlit("vi");
    reveal_strlit("zh");
    reveal_strlit("zh-CN");
    reveal_strlit("zh-Hant");
    reveal_strlit("zh-TW");
    if news_edition_languages().contains(lang) {
        let i = choose|i: int| 0 <= i < news_edition_languages().len() && news_edition_languages()[i] == lang;
        if i == 0 {
            assert(lang == "ja"@);
            assert(news_locale_spec(lang) == ("ja"@, "JP"@));
            assert(("JP"@)[0] != ("US"@)[0]);
            assert("ja"@.take(2) =~= "ja"@.take(2));
        } else if i == 1 {
            assert(lang == "es"@);
            assert(lang[0] != ("ja"@)[0]);
            assert(news_locale_spec(lang) == ("es"@, "ES"@));
            assert(("ES"@)[0] != ("US"@)[0]);
            assert("es"@.take(2) =~= "es"@.take(2));
        } else if i == 2 {
            assert(lang == "fr"@);
            assert(lang[0] != ("ja"@)[0]);
            assert(lang[0] != ("es"@)[0]);
            assert(news_locale_spec(lang) == ("fr"@, "FR"@));
            assert(("FR"@)[0] != ("US"@)[0]);
            assert("fr"@.take(2) =~= "fr"@.take(2));
        } else if i == 3 {
            assert(lang == "de"@);
            assert(lang[0] != ("ja"@)[0]);
            assert(lang[0] != ("es"@)[0]);
            assert(lang[0] != ("fr"@)[0]);
            assert(news_locale_spec(lang) == ("de"@, "DE"@));
            assert(("DE"@)[0] != ("US"@)[0]);
            assert("de"@.take(2) =~= "de"@.take(2));
        } else if i == 4 {
            assert(lang == "it"@);
            assert(lang[0] != ("ja"@)[0]);
            assert(lang[0] != ("es"@)[0]);
            assert(lang[0] != ("fr"@)[0]);
            assert(lang[0] != ("de"@)[0]);
            assert(news_locale_spec(lang) == ("it"@, "IT"@));
            assert(("IT"@)[0] != ("US"@)[0]);
            assert("it"@.take(2) =~= "it"@.take(2));
        } else if i == 5 {
            assert(lang == "pt"@);
            assert(lang[0] != ("ja"@)[0]);
            assert(lang[0] != ("es"@)[0]);
            assert(lang[0] != ("fr"@)[0]);
            assert(lang[0] != ("de"@)[0]);
            assert(lang[0] != ("it"@)[0]);
            assert(news_locale_spec(lang) == ("pt-PT"@, "PT"@));
            assert(("PT"@)[0] != ("US"@)[0]);
            assert("pt-PT"@.take(2) =~= "pt"@.take(2));
        } else if i == 6 {
            assert(lang == "nl"@);
            assert(lang[0] != ("ja"@)[0]);
            assert(lang[0] != ("es"@)[0]);
            assert(lang[0] != ("fr"@)[0]);
            assert(lang[0] != ("de"@)[0]);
            assert(lang[0] != ("it"@)[0]);
            assert(lang[0] != ("pt"@)[0]);
            assert(news_locale_spec(lang) == ("nl"@, "NL"@));
            assert(("NL"@)[0] != ("US"@)[0]);
            assert("nl"@.take(2) =~= "nl"@.take(2));
        } else if i == 7 {
            assert(lang == "sv"@);
            assert(lang[0] != ("ja"@)[0]);
            assert(lang[0] != ("es"@)[0]);
            assert(lang[0] != ("fr"@)[0]);
            assert(lang[0] != ("de"@)[0]);
            assert(lang[0] != ("it"@)[0]);
            assert(lang[0] != ("pt"@)[0]);
            assert(lang[0] != ("nl"@)[0]);
            assert(news_locale_spec(lang) == ("sv"@, "SE"@));
            assert(("SE"@)[0] != ("US"@)[0]);
            assert("sv"@.take(2) =~= "sv"@.take(2));
        } else if i == 8 {
            assert(lang == "no"@);
            assert(lang[0] != ("ja"@)[0]);
            assert(lang[0] != ("es"@)[0]);
            assert(lang[0] != ("fr"@)[0]);
            assert(lang[0] != ("de"@)[0]);
            assert(lang[0] != ("it"@)[0]);
            assert(lang[0] != ("pt"@)[0]);
            assert(lang[1] != ("nl"@)[1]);
            assert(lang[0] != ("sv"@)[0]);
            assert(news_locale_spec(lang) == ("no"@, "NO"@));
            assert(("NO"@)[0] != ("US"@)[0]);
            assert("no"@.take(2) =~= "no"@.take(2));
        } else if i == 9 {
            assert(lang == "da"@);
            assert(lang[0] != ("ja"@)[0]);
            assert(lang[0] != ("es"@)[0]);
            assert(lang[0] != ("fr"@)[0]);
            assert(lang[1] != ("de"@)[1]);
            assert(lang[0] != ("it"@)[0]);
            assert(lang[0] != ("pt"@)[0]);
            assert(lang[0] != ("nl"@)[0]);
            assert(lang[0] != ("sv"@)[0]);
            assert(lang[0] != ("no"@)[0]);
            assert(news_locale_spec(lang) == ("da"@, "DK"@));
            assert(("DK"@)[0] != ("US"@)[0]);
            assert("da"@.take(2) =~= "da"@.take(2));
        } else if i == 10 {
            assert(lang == "fi"@);
            assert(lang[0] != ("ja"@)[0]);
            assert(lang[0] != ("es"@)[0]);
            assert(lang[1] != ("fr"@)[1]);
            assert(lang[0] != ("de"@)[0]);
            assert(lang[0] != ("it"@)[0]);
            assert(lang[0] != ("pt"@)[0]);
            assert(lang[0] != ("nl"@)[0]);
            assert(lang[0] != ("sv"@)[0]);
            assert(lang[0] != ("no"@)[0]);
            assert(lang[0] != ("da"@)[0]);
            assert(news_locale_spec(lang) == ("fi"@, "FI"@));
            assert(("FI"@)[0] != ("US"@)[0]);
            assert("fi"@.take(2) =~= "fi"@.take(2));
        } else if i == 11 {
            assert(lang == "pl"@);
            assert(lang[0] != ("ja"@)[0]);
            assert(lang[0] != ("es"@)[0]);
            assert(lang[0] != ("fr"@)[0]);
            assert(lang[0] != ("de"@)[0]);
            assert(lang[0] != ("it"@)[0]);
            assert(lang[1] != ("pt"@)[1]);
            assert(lang[0] != ("nl"@)[0]);
            assert(lang[0] != ("sv"@)[0]);
            assert(lang[0] != ("no"@)[0]);
            assert(lang[0] != ("da"@)[0]);
            assert(lang[0] != ("fi"@)[0]);
            assert(news_locale_spec(lang) == ("pl"@, "PL"@));
            assert(("PL"@)[0] != ("US"@)[0]);
            assert("pl"@.take(2) =~= "pl"@.take(2));
        } else if i == 12 {
            assert(lang == "cs"@);
            assert(lang[0] != ("ja"@)[0]);
            assert(lang[0] != ("es"@)[0]);
            assert(lang[0] != ("fr"@)[0]);
            assert(lang[0] != ("de"@)[0]);
            assert(lang[0] != ("it"@)[0]);
            assert(lang[0] != ("pt"@)[0]);
            assert(lang[0] != ("nl"@)[0]);
            assert(lang[0] != ("sv"@)[0]);
            assert(lang[0] != ("no"@)[0]);
            assert(lang[0] != ("da"@)[0]);
            assert(lang[0] != ("fi"@)[0]);
            assert(lang[0] != ("pl"@)[0]);
            assert(news_locale_spec(lang) == ("cs"@, "CZ"@));
            assert(("CZ"@)[0] != ("US"@)[0]);
            assert("cs"@.take(2) =~= "cs"@.take(2));
        } else if i == 13 {
            assert(lang == "hu"@);
            assert(lang[0] != ("ja"@)[0]);
            assert(lang[0] != ("es"@)[0]);
            assert(lang[0] != ("fr"@)[0]);
            assert(lang[0] != ("de"@)[0]);
            assert(lang[0] != ("it"@)[0]);
            assert(lang[0] != ("pt"@)[0]);
            assert(lang[0] != ("nl"@)[0]);
            assert(lang[0] != ("sv"@)[0]);
            assert(lang[0] != ("no"@)[0]);
            assert(lang[0] != ("da"@)[0]);
            assert(lang[0] != ("fi"@)[0]);
            assert(lang[0] != ("pl"@)[0]);
            assert(lang[0] != ("cs"@)[0]);
            assert(news_locale_spec(lang) == ("hu"@, "HU"@));
            assert(("HU"@)[0] != ("US"@)[0]);
            assert("hu"@.take(2) =~= "hu"@.take(2));
        } else if i == 14 {
            assert(lang == "ro"@);
            assert(lang[0] != ("ja"@)[0]);
            assert(lang[0] != ("es"@)[0]);
            assert(lang[0] != ("fr"@)[0]);
            assert(lang[0] != ("de"@)[0]);
            assert(lang[0] != ("it"@)[0]);
            assert(lang[0] != ("pt"@)[0]);
            assert(lang[0] != ("nl"@)[0]);
            assert(lang[0] != ("sv"@)[0]);
            assert(lang[0] != ("no"@)[0]);
            assert(lang[0] != ("da"@)[0]);
            assert(lang[0] != ("fi"@)[0]);
            assert(lang[0] != ("pl"@)[0]);
            assert(lang[0] != ("cs"@)[0]);
            assert(lang[0] != ("hu"@)[0]);
            assert(news_locale_spec(lang) == ("ro"@, "RO"@));
            assert(("RO"@)[0] != ("US"@)[0]);
            assert("ro"@.take(2) =~= "ro"@.take(2));
        } else if i == 15 {
            assert(lang == "ru"@);
            assert(lang[0] != ("ja"@)[0]);
            assert(lang[0] != ("es"@)[0]);
            assert(lang[0] != ("fr"@)[0]);
            assert(lang[0] != ("de"@)[0]);
            assert(lang[0] != ("it"@)[0]);
            assert(lang[0] != ("pt"@)[0]);
            assert(lang[0] != ("nl"@)[0]);
            assert(lang[0] != ("sv"@)[0]);
            assert(lang[0] != ("no"@)[0]);
            assert(lang[0] != ("da"@)[0]);
            assert(lang[0] != ("fi"@)[0]);
            assert(lang[0] != ("pl"@)[0]);
            assert(lang[0] != ("cs"@)[0]);
            assert(lang[0] != ("hu"@)[0]);
            assert(lang[1] != ("ro"@)[1]);
            assert(news_locale_spec(lang) == ("ru"@, "RU"@));
            assert(("RU"@)[0] != ("US"@)[0]);
            assert("ru"@.take(2) =~= "ru"@.take(2));
        } else if i == 16 {
            assert(lang == "uk"@);
            assert(lang[0] != ("ja"@)[0]);
            assert(lang[0] != ("es"@)[0]);
            assert(lang[0] != ("fr"@)[0]);
            assert(lang[0] != ("de"@)[0]);
            assert(lang[0] != ("it"@)[0]);
            assert(lang[0] != ("pt"@)[0]);
            assert(lang[0] != ("nl"@)[0]);
            assert(lang[0] != ("sv"@)[0]);
            assert(lang[0] != ("no"@)[0]);
            assert(lang[0] != ("da"@)[0]);
            assert(lang[0] != ("fi"@)[0]);
            assert(lang[0] != ("pl"@)[0]);
            assert(lang[0] != ("cs"@)[0]);
            assert(lang[0] != ("hu"@)[0]);
            assert(lang[0] != ("ro"@)[0]);
            assert(lang[0] != ("ru"@)[0]);
            assert(news_locale_spec(lang) == ("uk"@, "UA"@));
            assert(("UA"@)[1] != ("US"@)[1]);
            assert("uk"@.take(2) =~= "uk"@.take(2));
        } else if i == 17 {
            assert(lang == "el"@);
            assert(lang[0] != ("ja"@)[0]);
            assert(lang[1] != ("es"@)[1]);
            assert(lang[0] != ("fr"@)[0]);
            assert(lang[0] != ("de"@)[0]);
            assert(lang[0] != ("it"@)[0]);
            assert(lang[0] != ("pt"@)[0]);
            assert(lang[0] != ("nl"@)[0]);
            assert(lang[0] != ("sv"@)[0]);
            assert(lang[0] != ("no"@)[0]);
            assert(lang[0] != ("da"@)[0]);
            assert(lang[0] != ("fi"@)[0]);
            assert(lang[0] != ("pl"@)[0]);
            assert(lang[0] != ("cs"@)[0]);
            assert(lang[0] != ("hu"@)[0]);
            assert(lang[0] != ("ro"@)[0]);
            assert(lang[0] != ("ru"@)[0]);
            assert(lang[0] != ("uk"@)[0]);
            assert(news_locale_spec(lang) == ("el"@, "GR"@));
            assert(("GR"@)[0] != ("US"@)[0]);
            assert("el"@.take(2) =~= "el"@.take(2));
        } else if i == 18 {
            assert(lang == "tr"@);
            assert(lang[0] != ("ja"@)[0]);
            assert(lang[0] != ("es"@)[0]);
            assert(lang[0] != ("fr"@)[0]);
            assert(lang[0] != ("de"@)[0]);
            assert(lang[0] != ("it"@)[0]);
            assert(lang[0] != ("pt"@)[0]);
            assert(lang[0] != ("nl"@)[0]);
            assert(lang[0] != ("sv"@)[0]);
            assert(lang[0] != ("no"@)[0]);
            assert(lang[0] != ("da"@)[0]);
            assert(lang[0] != ("fi"@)[0]);
            assert(lang[0] != ("pl"@)[0]);
            assert(lang[0] != ("cs"@)[0]);
            assert(lang[0] != ("hu"@)[0]);
            assert(lang[0] != ("ro"@)[0]);
            assert(lang[0] != ("ru"@)[0]);
            assert(lang[0] != ("uk"@)[0]);
            assert(lang[0] != ("el"@)[0]);
            assert(news_locale_spec(lang) == ("tr"@, "TR"@));
            assert(("TR"@)[0] != ("US"@)[0]);
            assert("tr"@.take(2) =~= "tr"@.take(2));
        } else if i == 19 {
            assert(lang == "ar"@);
            assert(lang[0] != ("ja"@)[0]);
            assert(lang[0] != ("es"@)[0]);
            assert(lang[0] != ("fr"@)[0]);
            assert(lang[0] != ("de"@)[0]);
            assert(lang[0] != ("it"@)[0]);
            assert(lang[0] != ("pt"@)[0]);
            assert(lang[0] != ("nl"@)[0]);
            assert(lang[0] != ("sv"@)[0]);
            assert(lang[0] != ("no"@)[0]);
            assert(lang[0] != ("da"@)[0]);
            assert(lang[0] != ("fi"@)[0]);
            assert(lang[0] != ("pl"@)[0]);
            assert(lang[0] != ("cs"@)[0]);
            assert(lang[0] != ("hu"@)[0]);
            assert(lang[0] != ("ro"@)[0]);
            assert(lang[0] != ("ru"@)[0]);
            assert(lang[0] != ("uk"@)[0]);
            assert(lang[0] != ("el"@)[0]);
            assert(lang[0] != ("tr"@)[0]);
            assert(news_locale_spec(lang) == ("ar"@, "EG"@));
            assert(("EG"@)[0] != ("US"@)[0]);
            assert("ar"@.take(2) =~= "ar"@.take(2));
        } else if i == 20 {
            assert(lang == "he"@);
            assert(lang[0] != ("ja"@)[0]);
            assert(lang[0] != ("es"@)[0]);
            assert(lang[0] != ("fr"@)[0]);
            assert(lang[0] != ("de"@)[0]);
            assert(lang[0] != ("it"@)[0]);
            assert(lang[0] != ("pt"@)[0]);
            assert(lang[0] != ("nl"@)[0]);
            assert(lang[0] != ("sv"@)[0]);
            assert(lang[0] != ("no"@)[0]);
            assert(lang[0] != ("da"@)[0]);
            assert(lang[0] != ("fi"@)[0]);
            assert(lang[0] != ("pl"@)[0]);
            assert(lang[0] != ("cs"@)[0]);
            assert(lang[1] != ("hu"@)[1]);
            assert(lang[0] != ("ro"@)[0]);
            assert(lang[0] != ("ru"@)[0]);
            assert(lang[0] != ("uk"@)[0]);
            assert(lang[0] != ("el"@)[0]);
            assert(lang[0] != ("tr"@)[0]);
            assert(lang[0] != ("ar"@)[0]);
            assert(news_locale_spec(lang) == ("he"@, "IL"@));
            assert(("IL"@)[0] != ("US"@)[0]);
            assert("he"@.take(2) =~= "he"@.take(2));
        } else if i == 21 {
            assert(lang == "fa"@);
            assert(lang[0] != ("ja"@)[0]);
            assert(lang[0] != ("es"@)[0]);
            assert(lang[1] != ("fr"@)[1]);
            assert(lang[0] != ("de"@)[0]);
            assert(lang[0] != ("it"@)[0]);
            assert(lang[0] != ("pt"@)[0]);
            assert(lang[0] != ("nl"@)[0]);
            assert(lang[0] != ("sv"@)[0]);
            assert(lang[0] != ("no"@)[0]);
            assert(lang[0] != ("da"@)[0]);
            assert(lang[1] != ("fi"@)[1]);
            assert(lang[0] != ("pl"@)[0]);
            assert(lang[0] != ("cs"@)[0]);
            assert(lang[0] != ("hu"@)[0]);
            assert(lang[0] != ("ro"@)[0]);
            assert(lang[0] != ("ru"@)[0]);
            assert(lang[0] != ("uk"@)[0]);
            assert(lang[0] != ("el"@)[0]);
            assert(lang[0] != ("tr"@)[0]);
            assert(lang[0] != ("ar"@)[0]);
            assert(lang[0] != ("he"@)[0]);
            assert(news_locale_spec(lang) == ("fa"@, "IR"@));
            assert(("IR"@)[0] != ("US"@)[0]);
            assert("fa"@.take(2) =~= "fa"@.take(2));
        } else if i == 22 {
            assert(lang == "hi"@);
            assert(lang[0] != ("ja"@)[0]);
            assert(lang[0] != ("es"@)[0]);
            assert(lang[0] != ("fr"@)[0]);
            assert(lang[0] != ("de"@)[0]);
            assert(lang[0] != ("it"@)[0]);
            assert(lang[0] != ("pt"@)[0]);
            assert(lang[0] != ("nl"@)[0]);
            assert(lang[0] != ("sv"@)[0]);
            assert(lang[0] != ("no"@)[0]);
            assert(lang[0] != ("da"@)[0]);
            assert(lang[0] != ("fi"@)[0]);
            assert(lang[0] != ("pl"@)[0]);
            assert(lang[0] != ("cs"@)[0]);
            assert(lang[1] != ("hu"@)[1]);
            assert(lang[0] != ("ro"@)[0]);
            assert(lang[0] != ("ru"@)[0]);
            assert(lang[0] != ("uk"@)[0]);
            assert(lang[0] != ("el"@)[0]);
            assert(lang[0] != ("tr"@)[0]);
            assert(lang[0] != ("ar"@)[0]);
            assert(lang[1] != ("he"@)[1]);
            assert(lang[0] != ("fa"@)[0]);
            assert(news_locale_spec(lang) == ("hi"@, "IN"@));
            assert(("IN"@)[0] != ("US"@)[0]);
            assert("hi"@.take(2) =~= "hi"@.take(2));
        } else if i == 23 {
            assert(lang == "bn"@);
            assert(lang[0] != ("ja"@)[0]);
            assert(lang[0] != ("es"@)[0]);
            assert(lang[0] != ("fr"@)[0]);
            assert(lang[0] != ("de"@)[0]);
            assert(lang[0] != ("it"@)[0]);
            assert(lang[0] != ("pt"@)[0]);
            assert(lang[0] != ("nl"@)[0]);
            assert(lang[0] != ("sv"@)[0]);
            assert(lang[0] != ("no"@)[0]);
            assert(lang[0] != ("da"@)[0]);
            assert(lang[0] != ("fi"@)[0]);
            assert(lang[0] != ("pl"@)[0]);
            assert(lang[0] != ("cs"@)[0]);
            assert(lang[0] != ("hu"@)[0]);
            assert(lang[0] != ("ro"@)[0]);
            assert(lang[0] != ("ru"@)[0]);
            assert(lang[0] != ("uk"@)[0]);
            assert(lang[0] != ("el"@)[0]);
            assert(lang[0] != ("tr"@)[0]);
            assert(lang[0] != ("ar"@)[0]);
            assert(lang[0] != ("he"@)[0]);
            assert(lang[0] != ("fa"@)[0]);
            assert(lang[0] != ("hi"@)[0]);
            assert(news_locale_spec(lang) == ("bn"@, "BD"@));
            assert(("BD"@)[0] != ("US"@)[0]);
            assert("bn"@.take(2) =~= "bn"@.take(2));
        } else if i == 24 {
            assert(lang == "id"@);
            assert(lang[0] != ("ja"@)[0]);
            assert(lang[0] != ("es"@)[0]);
            assert(lang[0] != ("fr"@)[0]);
            assert(lang[0] != ("de"@)[0]);
            assert(lang[1] != ("it"@)[1]);
            assert(lang[0] != ("pt"@)[0]);
            assert(lang[0] != ("nl"@)[0]);
            assert(lang[0] != ("sv"@)[0]);
            assert(lang[0] != ("no"@)[0]);
            assert(lang[0] != ("da"@)[0]);
            assert(lang[0] != ("fi"@)[0]);
            assert(lang[0] != ("pl"@)[0]);
            assert(lang[0] != ("cs"@)[0]);
            assert(lang[0] != ("hu"@)[0]);
            assert(lang[0] != ("ro"@)[0]);
            assert(lang[0] != ("ru"@)[0]);
            assert(lang[0] != ("uk"@)[0]);
            assert(lang[0] != ("el"@)[0]);
            assert(lang[0] != ("tr"@)[0]);
            assert(lang[0] != ("ar"@)[0]);
            assert(lang[0] != ("he"@)[0]);
            assert(lang[0] != ("fa"@)[0]);
            assert(lang[0] != ("hi"@)[0]);
            assert(lang[0] != ("bn"@)[0]);
            assert(news_locale_spec(lang) == ("id"@, "ID"@));
            assert(("ID"@)[0] != ("US"@)[0]);
            assert("id"@.take(2) =~= "id"@.take(2));
        } else if i == 25 {
            assert(lang == "ms"@);
            assert(lang[0] != ("ja"@)[0]);
            assert(lang[0] != ("es"@)[0]);
            assert(lang[0] != ("fr"@)[0]);
            assert(lang[0] != ("de"@)[0]);
            assert(lang[0] != ("it"@)[0]);
            assert(lang[0] != ("pt"@)[0]);
            assert(lang[0] != ("nl"@)[0]);
            assert(lang[0] != ("sv"@)[0]);
            assert(lang[0] != ("no"@)[0]);
            assert(lang[0] != ("da"@)[0]);
            assert(lang[0] != ("fi"@)[0]);
            assert(lang[0] != ("pl"@)[0]);
            assert(lang[0] != ("cs"@)[0]);
            assert(lang[0] != ("hu"@)[0]);
            assert(lang[0] != ("ro"@)[0]);
            assert(lang[0] != ("ru"@)[0]);
            assert(lang[0] != ("uk"@)[0]);
            assert(lang[0] != ("el"@)[0]);
            assert(lang[0] != ("tr"@)[0]);
            assert(lang[0] != ("ar"@)[0]);
            assert(lang[0] != ("he"@)[0]);
            assert(lang[0] != ("fa"@)[0]);
            assert(lang[0] != ("hi"@)[0]);
            assert(lang[0] != ("bn"@)[0]);
            assert(lang[0] != ("id"@)[0]);
            assert(news_locale_spec(lang) == ("ms"@, "MY"@));
            assert(("MY"@)[0] != ("US"@)[0]);
            assert("ms"@.take(2) =~= "ms"@.take(2));
        } else if i == 26 {
            assert(lang == "vi"@);
            assert(lang[0] != ("ja"@)[0]);
            assert(lang[0] != ("es"@)[0]);
            assert(lang[0] != ("fr"@)[0]);
            assert(lang[0] != ("de"@)[0]);
            assert(lang[0] != ("it"@)[0]);
            assert(lang[0] != ("pt"@)[0]);
            assert(lang[0] != ("nl"@)[0]);
            assert(lang[0] != ("sv"@)[0]);
            assert(lang[0] != ("no"@)[0]);
            assert(lang[0] != ("da"@)[0]);
            assert(lang[0] != ("fi"@)[0]);
            assert(lang[0] != ("pl"@)[0]);
            assert(lang[0] != ("cs"@)[0]);
            assert(lang[0] != ("hu"@)[0]);
            assert(lang[0] != ("ro"@)[0]);
            assert(lang[0] != ("ru"@)[0]);
            assert(lang[0] != ("uk"@)[0]);
            assert(lang[0] != ("el"@)[0]);
            assert(lang[0] != ("tr"@)[0]);
            assert(lang[0] != ("ar"@)[0]);
            assert(lang[0] != ("he"@)[0]);
            assert(lang[0] != ("fa"@)[0]);
            assert(lang[0] != ("hi"@)[0]);
            assert(lang[0] != ("bn"@)[0]);
            assert(lang[0] != ("id"@)[0]);
            assert(lang[0] != ("ms"@)[0]);
            assert(news_locale_spec(lang) == ("vi"@, "VN"@));
            assert(("VN"@)[0] != ("US"@)[0]);
            assert("vi"@.take(2) =~= "vi"@.take(2));
        } else if i == 27 {
            assert(lang == "th"@);
            assert(lang[0] != ("ja"@)[0]);
            assert(lang[0] != ("es"@)[0]);
            assert(lang[0] != ("fr"@)[0]);
            assert(lang[0] != ("de"@)[0]);
            assert(lang[0] != ("it"@)[0]);
            assert(lang[0] != ("pt"@)[0]);
            assert(lang[0] != ("nl"@)[0]);
            assert(lang[0] != ("sv"@)[0]);
            assert(lang[0] != ("no"@)[0]);
            assert(lang[0] != ("da"@)[0]);
            assert(lang[0] != ("fi"@)[0]);
            assert(lang[0] != ("pl"@)[0]);
            assert(lang[0] != ("cs"@)[0]);
            assert(lang[0] != ("hu"@)[0]);
            assert(lang[0] != ("ro"@)[0]);
            assert(lang[0] != ("ru"@)[0]);
            assert(lang[0] != ("uk"@)[0]);
            assert(lang[0] != ("el"@)[0]);
            assert(lang[1] != ("tr"@)[1]);
            assert(lang[0] != ("ar"@)[0]);
            assert(lang[0] != ("he"@)[0]);
            assert(lang[0] != ("fa"@)[0]);
            assert(lang[0] != ("hi"@)[0]);
            assert(lang[0] != ("bn"@)[0]);
            assert(lang[0] != ("id"@)[0]);
            assert(lang[0] != ("ms"@)[0]);
            assert(lang[0] != ("vi"@)[0]);
            assert(news_locale_spec(lang) == ("th"@, "TH"@));
            assert(("TH"@)[0] != ("US"@)[0]);
            assert("th"@.take(2) =~= "th"@.take(2));
        } else if i == 28 {
            assert(lang == "tl"@);
            assert(lang[0] != ("ja"@)[0]);
            assert(lang[0] != ("es"@)[0]);
            assert(lang[0] != ("fr"@)[0]);
            assert(lang[0] != ("de"@)[0]);
            assert(lang[0] != ("it"@)[0]);
            assert(lang[0] != ("pt"@)[0]);
            assert(lang[0] != ("nl"@)[0]);
            assert(lang[0] != ("sv"@)[0]);
            assert(lang[0] != ("no"@)[0]);
            assert(lang[0] != ("da"@)[0]);
            assert(lang[0] != ("fi"@)[0]);
            assert(lang[0] != ("pl"@)[0]);
            assert(lang[0] != ("cs"@)[0]);
            assert(lang[0] != ("hu"@)[0]);
            assert(lang[0] != ("ro"@)[0]);
            assert(lang[0] != ("ru"@)[0]);
            assert(lang[0] != ("uk"@)[0]);
            assert(lang[0] != ("el"@)[0]);
            assert(lang[1] != ("tr"@)[1]);
            assert(lang[0] != ("ar"@)[0]);
            assert(lang[0] != ("he"@)[0]);
            assert(lang[0] != ("fa"@)[0]);
            assert(lang[0] != ("hi"@)[0]);
            assert(lang[0] != ("bn"@)[0]);
            assert(lang[0] != ("id"@)[0]);
            assert(lang[0] != ("ms"@)[0]);
            assert(lang[0] != ("vi"@)[0]);
            assert(lang[1] != ("th"@)[1]);
            assert(news_locale_spec(lang) == ("en"@, "PH"@));
            assert(("PH"@)[0] != ("US"@)[0]);
        } else if i == 29 {
            assert(lang == "zh"@);
            assert(lang[0] != ("ja"@)[0]);
            assert(lang[0] != ("es"@)[0]);
            assert(lang[0] != ("fr"@)[0]);
            assert(lang[0] != ("de"@)[0]);
            assert(lang[0] != ("it"@)[0]);
            assert(lang[0] != ("pt"@)[0]);
            assert(lang[0] != ("nl"@)[0]);
            assert(lang[0] != ("sv"@)[0]);
            assert(lang[0] != ("no"@)[0]);
            assert(lang[0] != ("da"@)[0]);
            assert(lang[0] != ("fi"@)[0]);
            assert(lang[0] != ("pl"@)[0]);
            assert(lang[0] != ("cs"@)[0]);
            assert(lang[0] != ("hu"@)[0]);
            assert(lang[0] != ("ro"@)[0]);
            assert(lang[0] != ("ru"@)[0]);
            assert(lang[0] != ("uk"@)[0]);
            assert(lang[0] != ("el"@)[0]);
            assert(lang[0] != ("tr"@)[0]);
            assert(lang[0] != ("ar"@)[0]);
            assert(lang[0] != ("he"@)[0]);
            assert(lang[0] != ("fa"@)[0]);
            assert(lang[0] != ("hi"@)[0]);
            assert(lang[0] != ("bn"@)[0]);
            assert(lang[0] != ("id"@)[0]);
            assert(lang[0] != ("ms"@)[0]);
            assert(lang[0] != ("vi"@)[0]);
            assert(lang[0] != ("th"@)[0]);
            assert(lang[0] != ("tl"@)[0]);
            assert(news_locale_spec(lang) == ("zh-CN"@, "CN"@));
            assert(("CN"@)[0] != ("US"@)[0]);
            assert("zh-CN"@.take(2) =~= "zh"@.take(2));
        } else if i == 30 {
            assert(lang == "zh-Hant"@);
            assert(lang.len() == 7);
            assert(lang != "zh"@);
            assert(news_locale_spec(lang) == ("zh-TW"@, "TW"@));
            assert(("TW"@)[0] != ("US"@)[0]);
            assert("zh-TW"@.take(2) =~= "zh-Hant"@.take(2));
        } else if i == 31 {
            assert(lang == "ko"@);
            assert(lang[0] != ("ja"@)[0]);
            assert(lang[0] != ("es"@)[0]);
            assert(lang[0] != ("fr"@)[0]);
            assert(lang[0] != ("de"@)[0]);
            assert(lang[0] != ("it"@)[0]);
            assert(lang[0] != ("pt"@)[0]);
            assert(lang[0] != ("nl"@)[0]);
            assert(lang[0] != ("sv"@)[0]);
            assert(lang[0] != ("no"@)[0]);
            assert(lang[0] != ("da"@)[0]);
            assert(lang[0] != ("fi"@)[0]);
            assert(lang[0] != ("pl"@)[0]);
            assert(lang[0] != ("cs"@)[0]);
            assert(lang[0] != ("hu"@)[0]);
            assert(lang[0] != ("ro"@)[0]);
            assert(lang[0] != ("ru"@)[0]);
            assert(lang[0] != ("uk"@)[0]);
            assert(lang[0] != ("el"@)[0]);
            assert(lang[0] != ("tr"@)[0]);
            assert(lang[0] != ("ar"@)[0]);
            assert(lang[0] != ("he"@)[0]);
            assert(lang[0] != ("fa"@)[0]);
            assert(lang[0] != ("hi"@)[0]);
            assert(lang[0] != ("bn"@)[0]);
            assert(lang[0] != ("id"@)[0]);
            assert(lang[0] != ("ms"@)[0]);
            assert(lang[0] != ("vi"@)[0]);
            assert(lang[0] != ("th"@)[0]);
            assert(lang[0] != ("tl"@)[0]);
            assert(lang[0] != ("zh"@)[0]);
            assert(news_locale_spec(lang) == ("ko"@, "KR"@));
            assert(("KR"@)[0] != ("US"@)[0]);
            assert("ko"@.take(2) =~= "ko"@.take(2));
        } else if i == 32 {
            assert(lang == "ta"@);
            assert(lang[0] != ("ja"@)[0]);
            assert(lang[0] != ("es"@)[0]);
            assert(lang[0] != ("fr"@)[0]);
            assert(lang[0] != ("de"@)[0]);
            assert(lang[0] != ("it"@)[0]);
            assert(lang[0] != ("pt"@)[0]);
            assert(lang[0] != ("nl"@)[0]);
            assert(lang[0] != ("sv"@)[0]);
            assert(lang[0] != ("no"@)[0]);
            assert(lang[0] != ("da"@)[0]);
            assert(lang[0] != ("fi"@)[0]);
            assert(lang[0] != ("pl"@)[0]);
            assert(lang[0] != ("cs"@)[0]);
            assert(lang[0] != ("hu"@)[0]);
            assert(lang[0] != ("ro"@)[0]);
            assert(lang[0] != ("ru"@)[0]);
            assert(lang[0] != ("uk"@)[0]);
            assert(lang[0] != ("el"@)[0]);
            assert(lang[1] != ("tr"@)[1]);
            assert(lang[0] != ("ar"@)[0]);
            assert(lang[0] != ("he"@)[0]);
            assert(lang[0] != ("fa"@)[0]);
            assert(lang[0] != ("hi"@)[0]);
            assert(lang[0] != ("bn"@)[0]);
            assert(lang[0] != ("id"@)[0]);
            assert(lang[0] != ("ms"@)[0]);
            assert(lang[0] != ("vi"@)[0]);
            assert(lang[1] != ("th"@)[1]);
            assert(lang[1] != ("tl"@)[1]);
            assert(lang[0] != ("zh"@)[0]);
            assert(lang[0] != ("ko"@)[0]);
            assert(news_locale_spec(lang) == ("ta"@, "IN"@));
            assert(("IN"@)[0] != ("US"@)[0]);
            assert("ta"@.take(2) =~= "ta"@.take(2));
        } else if i == 33 {
            assert(lang == "te"@);
            assert(lang[0] != ("ja"@)[0]);
            assert(lang[0] != ("es"@)[0]);
            assert(lang[0] != ("fr"@)[0]);
            assert(lang[0] != ("de"@)[0]);
            assert(lang[0] != ("it"@)[0]);
            assert(lang[0] != ("pt"@)[0]);
            assert(lang[0] != ("nl"@)[0]);
            assert(lang[0] != ("sv"@)[0]);
            assert(lang[0] != ("no"@)[0]);
            assert(lang[0] != ("da"@)[0]);
            assert(lang[0] != ("fi"@)[0]);
            assert(lang[0] != ("pl"@)[0]);
            assert(lang[0] != ("cs"@)[0]);
            assert(lang[0] != ("hu"@)[0]);
            assert(lang[0] != ("ro"@)[0]);
            assert(lang[0] != ("ru"@)[0]);
            assert(lang[0] != ("uk"@)[0]);
            assert(lang[0] != ("el"@)[0]);
            assert(lang[1] != ("tr"@)[1]);
            assert(lang[0] != ("ar"@)[0]);
            assert(lang[0] != ("he"@)[0]);
            assert(lang[0] != ("fa"@)[0]);
            assert(lang[0] != ("hi"@)[0]);
            assert(lang[0] != ("bn"@)[0]);
            assert(lang[0] != ("id"@)[0]);
            assert(lang[0] != ("ms"@)[0]);
            assert(lang[0] != ("vi"@)[0]);
            assert(lang[1] != ("th"@)[1]);
            assert(lang[1] != ("tl"@)[1]);
            assert(lang[0] != ("zh"@)[0]);
            assert(lang[0] != ("ko"@)[0]);
            assert(lang[1] != ("ta"@)[1]);
            assert(news_locale_spec(lang) == ("te"@, "IN"@));
            assert(("IN"@)[0] != ("US"@)[0]);
            assert("te"@.take(2) =~= "te"@.take(2));
        } else if i == 34 {
            assert(lang == "ur"@);
            assert(lang[0] != ("ja"@)[0]);
            assert(lang[0] != ("es"@)[0]);
            assert(lang[0] != ("fr"@)[0]);
            assert(lang[0] != ("de"@)[0]);
            assert(lang[0] != ("it"@)[0]);
            assert(lang[0] != ("pt"@)[0]);
            assert(lang[0] != ("nl"@)[0]);
            assert(lang[0] != ("sv"@)[0]);
            assert(lang[0] != ("no"@)[0]);
            assert(lang[0] != ("da"@)[0]);
            assert(lang[0] != ("fi"@)[0]);
            assert(lang[0] != ("pl"@)[0]);
            assert(lang[0] != ("cs"@)[0]);
            assert(lang[0] != ("hu"@)[0]);
            assert(lang[0] != ("ro"@)[0]);
            assert(lang[0] != ("ru"@)[0]);
            assert(lang[1] != ("uk"@)[1]);
            assert(lang[0] != ("el"@)[0]);
            assert(lang[0] != ("tr"@)[0]);
            assert(lang[0] != ("ar"@)[0]);
            assert(lang[0] != ("he"@)[0]);
            assert(lang[0] != ("fa"@)[0]);
            assert(lang[0] != ("hi"@)[0]);
            assert(lang[0] != ("bn"@)[0]);
            assert(lang[0] != ("id"@)[0]);
            assert(lang[0] != ("ms"@)[0]);
            assert(lang[0] != ("vi"@)[0]);
            assert(lang[0] != ("th"@)[0]);
            assert(lang[0] != ("tl"@)[0]);
            assert(lang[0] != ("zh"@)[0]);
            assert(lang[0] != ("ko"@)[0]);
            assert(lang[0] != ("ta"@)[0]);
            assert(lang[0] != ("te"@)[0]);
            assert(news_locale_spec(lang) == ("ur"@, "PK"@));
            assert(("PK"@)[0] != ("US"@)[0]);
            assert("ur"@.take(2) =~= "ur"@.take(2));
        } else if i == 35 {
            assert(lang == "mr"@);
            assert(lang[0] != ("ja"@)[0]);
            assert(lang[0] != ("es"@)[0]);
            assert(lang[0] != ("fr"@)[0]);
            assert(lang[0] != ("de"@)[0]);
            assert(lang[0] != ("it"@)[0]);
            assert(lang[0] != ("pt"@)[0]);
            assert(lang[0] != ("nl"@)[0]);
            assert(lang[0] != ("sv"@)[0]);
            assert(lang[0] != ("no"@)[0]);
            assert(lang[0] != ("da"@)[0]);
            assert(lang[0] != ("fi"@)[0]);
            assert(lang[0] != ("pl"@)[0]);
            assert(lang[0] != ("cs"@)[0]);
            assert(lang[0] != ("hu"@)[0]);
            assert(lang[0] != ("ro"@)[0]);
            assert(lang[0] != ("ru"@)[0]);
            assert(lang[0] != ("uk"@)[0]);
            assert(lang[0] != ("el"@)[0]);
            assert(lang[0] != ("tr"@)[0]);
            assert(lang[0] != ("ar"@)[0]);
            assert(lang[0] != ("he"@)[0]);
            assert(lang[0] != ("fa"@)[0]);
            assert(lang[0] != ("hi"@)[0]);
            assert(lang[0] != ("bn"@)[0]);
            assert(lang[0] != ("id"@)[0]);
            assert(lang[1] != ("ms"@)[1]);
            assert(lang[0] != ("vi"@)[0]);
            assert(lang[0] != ("th"@)[0]);
            assert(lang[0] != ("tl"@)[0]);
            assert(lang[0] != ("zh"@)[0]);
            assert(lang[0] != ("ko"@)[0]);
            assert(lang[0] != ("ta"@)[0]);
            assert(lang[0] != ("te"@)[0]);
            assert(lang[0] != ("ur"@)[0]);
            assert(news_locale_spec(lang) == ("mr"@, "IN"@));
            assert(("IN"@)[0] != ("US"@)[0]);
            assert("mr"@.take(2) =~= "mr"@.take(2));
        } else if i == 36 {
            assert(lang == "pa"@);
            assert(lang[0] != ("ja"@)[0]);
            assert(lang[0] != ("es"@)[0]);
            assert(lang[0] != ("fr"@)[0]);
            assert(lang[0] != ("de"@)[0]);
            assert(lang[0] != ("it"@)[0]);
            assert(lang[1] != ("pt"@)[1]);
            assert(lang[0] != ("nl"@)[0]);
            assert(lang[0] != ("sv"@)[0]);
            assert(lang[0] != ("no"@)[0]);
            assert(lang[0] != ("da"@)[0]);
            assert(lang[0] != ("fi"@)[0]);
            assert(lang[1] != ("pl"@)[1]);
            assert(lang[0] != ("cs"@)[0]);
            assert(lang[0] != ("hu"@)[0]);
            assert(lang[0] != ("ro"@)[0]);
            assert(lang[0] != ("ru"@)[0]);
            assert(lang[0] != ("uk"@)[0]);
            assert(lang[0] != ("el"@)[0]);
            assert(lang[0] != ("tr"@)[0]);
            assert(lang[0] != ("ar"@)[0]);
            assert(lang[0] != ("he"@)[0]);
            assert(lang[0] != ("fa"@)[0]);
            assert(lang[0] != ("hi"@)[0]);
            assert(lang[0] != ("bn"@)[0]);
            assert(lang[0] != ("id"@)[0]);
            assert(lang[0] != ("ms"@)[0]);
            assert(lang[0] != ("vi"@)[0]);
            assert(lang[0] != ("th"@)[0]);
            assert(lang[0] != ("tl"@)[0]);
            assert(lang[0] != ("zh"@)[0]);
            assert(lang[0] != ("ko"@)[0]);
            assert(lang[0] != ("ta"@)[0]);
            assert(lang[0] != ("te"@)[0]);
            assert(lang[0] != ("ur"@)[0]);
            assert(lang[0] != ("mr"@)[0]);
            assert(news_locale_spec(lang) == ("pa"@, "IN"@));
            assert(("IN"@)[0] != ("US"@)[0]);
            assert("pa"@.take(2) =~= "pa"@.take(2));
        } else if i == 37 {
            assert(lang == "sw"@);
            assert(lang[0] != ("ja"@)[0]);
            assert(lang[0] != ("es"@)[0]);
            assert(lang[0] != ("fr"@)[0]);
            assert(lang[0] != ("de"@)[0]);
            assert(lang[0] != ("it"@)[0]);
            assert(lang[0] != ("pt"@)[0]);
            assert(lang[0] != ("nl"@)[0]);
            assert(lang[1] != ("sv"@)[1]);
            assert(lang[0] != ("no"@)[0]);
            assert(lang[0] != ("da"@)[0]);
            assert(lang[0] != ("fi"@)[0]);
            assert(lang[0] != ("pl"@)[0]);
            assert(lang[0] != ("cs"@)[0]);
            assert(lang[0] != ("hu"@)[0]);
            assert(lang[0] != ("ro"@)[0]);
            assert(lang[0] != ("ru"@)[0]);
            assert(lang[0] != ("uk"@)[0]);
            assert(lang[0] != ("el"@)[0]);
            assert(lang[0] != ("tr"@)[0]);
            assert(lang[0] != ("ar"@)[0]);
            assert(lang[0] != ("he"@)[0]);
            assert(lang[0] != ("fa"@)[0]);
            assert(lang[0] != ("hi"@)[0]);
            assert(lang[0] != ("bn"@)[0]);
            assert(lang[0] != ("id"@)[0]);
            assert(lang[0] != ("ms"@)[0]);
            assert(lang[0] != ("vi"@)[0]);
            assert(lang[0] != ("th"@)[0]);
            assert(lang[0] != ("tl"@)[0]);
            assert(lang[0] != ("zh"@)[0]);
            assert(lang[0] != ("ko"@)[0]);
            assert(lang[0] != ("ta"@)[0]);
            assert(lang[0] != ("te"@)[0]);
            assert(lang[0] != ("ur"@)[0]);
            assert(lang[0] != ("mr"@)[0]);
            assert(lang[0] != ("pa"@)[0]);
            assert(news_locale_spec(lang) == ("sw"@, "KE"@));
            assert(("KE"@)[0] != ("US"@)[0]);
            assert("sw"@.take(2) =~= "sw"@.take(2));
        } else if i == 38 {
            assert(lang == "rm"@);
            assert(lang[0] != ("ja"@)[0]);
            assert(lang[0] != ("es"@)[0]);
            assert(lang[0] != ("fr"@)[0]);
            assert(lang[0] != ("de"@)[0]);
            assert(lang[0] != ("it"@)[0]);
            assert(lang[0] != ("pt"@)[0]);
            assert(lang[0] != ("nl"@)[0]);
            assert(lang[0] != ("sv"@)[0]);
            assert(lang[0] != ("no"@)[0]);
            assert(lang[0] != ("da"@)[0]);
            assert(lang[0] != ("fi"@)[0]);
            assert(lang[0] != ("pl"@)[0]);
            assert(lang[0] != ("cs"@)[0]);
            assert(lang[0] != ("hu"@)[0]);
            assert(lang[1] != ("ro"@)[1]);
            assert(lang[1] != ("ru"@)[1]);
            assert(lang[0] != ("uk"@)[0]);
            assert(lang[0] != ("el"@)[0]);
            assert(lang[0] != ("tr"@)[0]);
            assert(lang[0] != ("ar"@)[0]);
            assert(lang[0] != ("he"@)[0]);
            assert(lang[0] != ("fa"@)[0]);
            assert(lang[0] != ("hi"@)[0]);
            assert(lang[0] != ("bn"@)[0]);
            assert(lang[0] != ("id"@)[0]);
            assert(lang[0] != ("ms"@)[0]);
            assert(lang[0] != ("vi"@)[0]);
            assert(lang[0] != ("th"@)[0]);
            assert(lang[0] != ("tl"@)[0]);
            assert(lang[0] != ("zh"@)[0]);
            assert(lang[0] != ("ko"@)[0]);
            assert(lang[0] != ("ta"@)[0]);
            assert(lang[0] != ("te"@)[0]);
            assert(lang[0] != ("ur"@)[0]);
            assert(lang[0] != ("mr"@)[0]);
            assert(lang[0] != ("pa"@)[0]);
            assert(lang[0] != ("sw"@)[0]);
            assert(news_locale_spec(lang) == ("de"@, "CH"@));
            assert(("CH"@)[0] != ("US"@)[0]);
        }
    } else {
        assert(news_edition_languages()[0] == "ja"@);
        assert(news_edition_languages()[1] == "es"@);
        assert(news_edition_languages()[2] == "fr"@);
        assert(news_edition_languages()[3] == "de"@);
        assert(news_edition_languages()[4] == "it"@);
        assert(news_edition_languages()[5] == "pt"@);
        assert(news_edition_languages()[6] == "nl"@);
        assert(news_edition_languages()[7] == "sv"@);
        assert(news_edition_languages()[8] == "no"@);
        assert(news_edition_languages()[9] == "da"@);
        assert(news_edition_languages()[10] == "fi"@);
        assert(news_edition_languages()[11] == "pl"@);
        assert(news_edition_languages()[12] == "cs"@);
        assert(news_edition_languages()[13] == "hu"@);
        assert(news_edition_languages()[14] == "ro"@);
        assert(news_edition_languages()[15] == "ru"@);
        assert(news_edition_languages()[16] == "uk"@);
        assert(news_edition_languages()[17] == "el"@);
        assert(news_edition_languages()[18] == "tr"@);
        assert(news_edition_languages()[19] == "ar"@);
        assert(news_edition_languages()[20] == "he"@);
        assert(news_edition_languages()[21] == "fa"@);
        assert(news_edition_languages()[22] == "hi"@);
        assert(news_edition_languages()[23] == "bn"@);
        assert(news_edition_languages()[24] == "id"@);
        assert(news_edition_languages()[25] == "ms"@);
        assert(news_edition_languages()[26] == "vi"@);
        assert(news_edition_languages()[27] == "th"@);
        assert(news_edition_languages()[28] == "tl"@);
        assert(news_edition_languages()[29] == "zh"@);
        assert(news_edition_languages()[30] == "zh-Hant"@);
        assert(news_edition_languages()[31] == "ko"@);
        assert(news_edition_languages()[32] == "ta"@);
        assert(news_edition_languages()[33] == "te"@);
        assert(news_edition_languages()[34] == "ur"@);
        assert(news_edition_languages()[35] == "mr"@);
        assert(news_edition_languages()[36] == "pa"@);
        assert(news_edition_languages()[37] == "sw"@);
        assert(news_edition_languages()[38] == "rm"@);
    }
}

/// The feed language and region for `lang`.
pub fn news_locale(lang: &str) -> (r: (&'static str, &'static str))
    ensures
        (r.0@, r.1@) == news_locale_spec(lang@),
{
    let l = chars_of(lang);
    if chars_eq(&l, &chars_of("ja")) {
        ("ja", "JP")
    } else if chars_eq(&l, &chars_of("es")) {
        ("es", "ES")
    } else if chars_eq(&l, &chars_of("fr")) {
        ("fr", "FR")
    } else if chars_eq(&l, &chars_of("de")) {
        ("de", "DE")
    } else if chars_eq(&l, &chars_of("it")) {
        ("it", "IT")
    } else if chars_eq(&l, &chars_of("pt")) {
        ("pt-PT", "PT")
    } else if chars_eq(&l, &chars_of("nl")) {
        ("nl", "NL")
    } else if chars_eq(&l, &chars_of("sv")) {
        ("sv", "SE")
    } else if chars_eq(&l, &chars_of("no")) {
        ("no", "NO")
    } else if chars_eq(&l, &chars_of("da")) {
        ("da", "DK")
    } else if chars_eq(&l, &chars_of("fi")) {
        ("fi", "FI")
    } else if chars_eq(&l, &chars_of("pl")) {
        ("pl", "PL")
    } else if chars_eq(&l, &chars_of("cs")) {
        ("cs", "CZ")
    } else if chars_eq(&l, &chars_of("hu")) {
        ("hu", "HU")
    } else if chars_eq(&l, &chars_of("ro")) {
        ("ro", "RO")
    } else if chars_eq(&l, &chars_of("ru")) {
        ("ru", "RU")
    } else if chars_eq(&l, &chars_of("uk")) {
        ("uk", "UA")
    } else if chars_eq(&l, &chars_of("el")) {
        ("el", "GR")
    } else if chars_eq(&l, &chars_of("tr")) {
        ("tr", "TR")
    } else if chars_eq(&l, &chars_of("ar")) {
        ("ar", "EG")
    } else if chars_eq(&l, &chars_of("he")) {
        ("he", "IL")
    } else if chars_eq(&l, &chars_of("fa")) {
        ("fa", "IR")
    } else if chars_eq(&l, &chars_of("hi")) {
        ("hi", "IN")
    } else if chars_eq(&l, &chars_of("bn")) {
        ("bn", "BD")
    } else if chars_eq(&l, &chars_of("id")) {
        ("id", "ID")
    } else if chars_eq(&l, &chars_of("ms")) {
        ("ms", "MY")
    } else if chars_eq(&l, &chars_of("vi")) {
        ("vi", "VN")
    } else if chars_eq(&l, &chars_of("th")) {
        ("th", "TH")
    } else if chars_eq(&l, &chars_of("tl")) {
        ("en", "PH")
    } else if chars_eq(&l, &chars_of("zh")) {
        ("zh-CN", "CN")
    } else if chars_eq(&l, &chars_of("zh-Hant")) {
        ("zh-TW", "TW")
    } else if chars_eq(&l, &chars_of("ko")) {
        ("ko", "KR")
    } else if chars_eq(&l, &chars_of("ta")) {
        ("ta", "IN")
    } else if chars_eq(&l, &chars_of("te")) {
        ("te", "IN")
    } else if chars_eq(&l, &chars_of("ur")) {
        ("ur", "PK")
    } else if chars_eq(&l, &chars_of("mr")) {
        ("mr", "IN")
    } else if chars_eq(&l, &chars_of("pa")) {
        ("pa", "IN")
    } else if chars_eq(&l, &chars_of("sw")) {
        ("sw", "KE")
    } else if chars_eq(&l, &chars_of("rm")) {
        ("de", "CH")
    } else {
        ("en", "US")
    }
}

/// The Google News RSS address for `lang`.
pub open spec fn news_feed_url_spec(lang: Seq<char>) -> Seq<char> {
    let (hl, gl) = news_locale_spec(lang);
    "https://news.google.com/rss?hl="@ + hl + "&gl="@ + gl + "&ceid="@ + gl + ":"@ + hl
}

/// The Google News RSS address for `lang`.
pub fn news_feed_url(lang: &str) -> (r: String)
    ensures
        r@ == news_feed_url_spec(lang@),
{
    let (hl, gl) = news_locale(lang);
    let mut out: Vec<char> = Vec::new();
    push_str(&mut out, "https://news.google.com/rss?hl=");
    push_str(&mut out, hl);
    push_str(&mut out, "&gl=");
    push_str(&mut out, gl);
    push_str(&mut out, "&ceid=");
    push_str(&mut out, gl);
    push_str(&mut out, ":");
    push_str(&mut out, hl);
    string_from_chars(&out)
}

// ---------------------------------------------------------------------------
// RSS headlines

/// A title's text with CDATA markers removed and the basic XML entities
/// decoded, in this order: `&amp;`, `&lt;`, `&gt;`, `&quot;`, `&#39;`,
/// `&apos;`.
pub open spec fn decode_xml_spec(s: Seq<char>) -> Seq<char> {
    let t = strip_suffix_all(strip_prefix_all(s, "<![CDATA["@), "]]>"@);
    let a = replace_all(t, "&amp;"@, "&"@);
    let b = replace_all(a, "&lt;"@, "<"@);
    let c = replace_all(b, "&gt;"@, ">"@);
    let d = replace_all(c, "&quot;"@, "\""@);
    let e = replace_all(d, "&#39;"@, "'"@);
    replace_all(e, "&apos;"@, "'"@)
}

fn replace_str(s: &Vec<char>, p: &str, r: &str) -> (res: Vec<char>)
    requires
        p@.len() > 0,
    ensures
        res@ == replace_all(s@, p@, r@),
{
    replace_chars(s, &chars_of(p), &chars_of(r))
}

/// Decodes the title text of an RSS item.
pub fn decode_xml_entities(s: &str) -> (r: String)
    ensures
        r@ == decode_xml_spec(s@),
{
    proof {
        reveal_strlit("<![CDATA[");
        reveal_strlit("]]>");
        reveal_strlit("&amp;");
        reveal_strlit("&lt;");
        reveal_strlit("&gt;");
        reveal_strlit("&quot;");
        reveal_strlit("&#39;");
        reveal_strlit("&apos;");
    }
    let cs = chars_of(s);
    let t = strip_prefix_chars(&cs, &chars_of("<![CDATA["));
    let t = strip_suffix_chars(&t, &chars_of("]]>"));
    let a = replace_str(&t, "&amp;", "&");
    let b = replace_str(&a, "&lt;", "<");
    let c = replace_str(&b, "&gt;", ">");
    let d = replace_str(&c, "&quot;", "\"");
    let e = replace_str(&d, "&#39;", "'");
    let f = replace_str(&e, "&apos;", "'");
    string_from_chars(&f)
}

/// The title of an item chunk: the text between the first `<title>` and
/// the next `</title>`, trimmed and decoded.
pub open spec fn chunk_title(c: Seq<char>) -> Option<Seq<char>> {
    match first_occurrence(c, "<title>"@) {
        Some(st) => {
            let rest = c.skip(st + 7);
            match first_occurrence(rest, "</title>"@) {
                Some(e) => Some(decode_xml_spec(trim(rest.take(e)))),
                None => None,
            }
        },
        None => None,
    }
}

/// The non-empty titles of the chunks, in order, at most `limit` of them.
pub open spec fn titles_from(chunks: Seq<Seq<char>>, limit: nat) -> Seq<Seq<char>>
    decreases chunks.len(),
{
    if chunks.len() == 0 || limit == 0 {
        seq![]
    } else {
        match chunk_title(chunks[0]) {
            Some(t) => if t.len() > 0 {
                seq![t] + titles_from(chunks.drop_first(), (limit - 1) as nat)
            } else {
                titles_from(chunks.drop_first(), limit)
            },
            None => titles_from(chunks.drop_first(), limit),
        }
    }
}

/// The headlines of an RSS document: the titles of its items (the
/// channel's own title, before the first `<item>`, is skipped).
pub open spec fn rss_titles(xml: Seq<char>, limit: nat) -> Seq<Seq<char>> {
    match first_occurrence(xml, "<item>"@) {
        None => seq![],
        Some(i) => titles_from(split_str(xml.skip(i), "<item>"@), limit),
    }
}

fn title_of(chunk: &Vec<char>) -> (r: Option<String>)
    ensures
        match (r, chunk_title(chunk@)) {
            (Some(t), Some(st)) => t@ == st,
            (None, None) => true,
            _ => false,
        },
{
    let open = chars_of("<title>");
    let close = chars_of("</title>");
    assert(open@.len() == 7) by {
        reveal_strlit("<title>");
    }
    let found = find_from(chunk, &open, 0);
    proof {
        lemma_first_occurrence_skip(chunk@, open@, 0, match found {
            Some(i) => Some(i as int),
            None => None,
        });
        assert(chunk@.skip(0) =~= chunk@);
    }
    let st = match found {
        None => return None,
        Some(st) => st,
    };
    assert(crate::text::occurs_at(chunk@, open@, st as int));
    assert(st + open@.len() <= chunk@.len());
    assert(st + 7 <= chunk.len());
    let rest = slice_chars(chunk, st + 7, chunk.len());
    assert(rest@ =~= chunk@.skip(st + 7));
    let found2 = find_from(&rest, &close, 0);
    proof {
        lemma_first_occurrence_skip(rest@, close@, 0, match found2 {
            Some(i) => Some(i as int),
            None => None,
        });
        assert(rest@.skip(0) =~= rest@);
    }
    let e = match found2 {
        None => return None,
        Some(e) => e,
    };
    let inner = slice_chars(&rest, 0, e);
    assert(inner@ =~= rest@.take(e as int));
    let t = trim_chars(&inner);
    let ts = string_from_chars(&t);
    Some(decode_xml_entities(ts.as_str()))
}

/// Up to `limit` headlines from an RSS document (see `rss_titles`).
pub fn extract_rss_titles(xml: &str, limit: usize) -> (r: Vec<String>)
    ensures
        r@.map_values(|t: String| t@) == rss_titles(xml@, limit as nat),
{
    let cs = chars_of(xml);
    let item = chars_of("<item>");
    assert(item@.len() == 6) by {
        reveal_strlit("<item>");
    }
    let mut out: Vec<String> = Vec::new();
    let found = find_from(&cs, &item, 0);
    proof {
        lemma_first_occurrence_skip(cs@, item@, 0, match found {
            Some(i) => Some(i as int),
            None => None,
        });
        assert(cs@.skip(0) =~= cs@);
    }
    let start = match found {
        None => {
            assert(out@.map_values(|t: String| t@) =~= Seq::<Seq<char>>::empty());
            return out;
        },
        Some(i) => i,
    };
    let body = slice_chars(&cs, start, cs.len());
    assert(body@ =~= xml@.skip(start as int));
    let chunks = split_str_chars(&body, &item);
    let ghost cv = split_str(body@, item@);
    let mut k: usize = 0;
    assert(cv.skip(0) =~= cv);
    assert(first_occurrence(xml@, item@) == Some(start as int));
    assert(rss_titles(xml@, limit as nat) == titles_from(cv, limit as nat));
    assert(out@.map_values(|t: String| t@) =~= Seq::<Seq<char>>::empty());
    while k < chunks.len()
        invariant
            k <= chunks.len(),
            chunks@.len() == cv.len(),
            forall|i: int| 0 <= i < chunks@.len() ==> #[trigger] chunks@[i]@ == cv[i],
            out.len() <= limit,
            rss_titles(xml@, limit as nat) == titles_from(cv, limit as nat),
            out@.map_values(|t: String| t@) + titles_from(cv.skip(k as int), (limit - out.len()) as nat)
                == titles_from(cv, limit as nat),
        decreases chunks.len() - k,
    {
        let ghost before = out@.map_values(|t: String| t@);
        let ghost rest = cv.skip(k as int);
        assert(rest[0] == cv[k as int]);
        assert(rest.drop_first() =~= cv.skip(k + 1));
        if out.len() >= limit {
            assert(titles_from(rest, 0) =~= Seq::<Seq<char>>::empty());
            assert(before =~= titles_from(cv, limit as nat));
            assert(out@.map_values(|t: String| t@) =~= rss_titles(xml@, limit as nat));
            return out;
        }
        match title_of(&chunks[k]) {
            Some(t) => {
                if chars_of(t.as_str()).len() > 0 {
                    out.push(t);
                    assert(out@.map_values(|t: String| t@) =~= before.push(chunk_title(cv[k as int]).unwrap()));
                }
            },
            None => {},
        }
        k = k + 1;
        assert(out@.map_values(|t: String| t@) + titles_from(cv.skip(k as int), (limit - out.len()) as nat)
            =~= titles_from(cv, limit as nat));
    }
    assert(cv.skip(k as int) =~= Seq::<Seq<char>>::empty());
    assert(out@.map_values(|t: String| t@) =~= titles_from(cv, limit as nat));
    out
}

// ---------------------------------------------------------------------------
// DuckDNS

/// A DuckDNS update to send: the request address and the address the
/// domain will have.
pub struct DuckDnsUpdate {
    pub url: String,
    pub assigned_url: String,
}

/// The DuckDNS update for a domain and token (both trimmed, required; a
/// trailing `.duckdns.org` is dropped) and an optional IP (blank lets
/// DuckDNS use the caller's address).
pub open spec fn duckdns_spec(domain: Seq<char>, token: Seq<char>, ip: Option<Seq<char>>) -> Result<(Seq<char>, Seq<char>), Seq<char>> {
    let d = trim(domain);
    let t = trim(token);
    if d.len() == 0 || t.len() == 0 {
        Err("domain and token are required / domainとtokenは必須です"@)
    } else {
        let name = strip_suffix_all(d, ".duckdns.org"@);
        let i = match ip {
            Some(v) => trim(v),
            None => seq![],
        };
        Ok((
            "https://www.duckdns.org/update?domains="@ + crate::text::percent_encode(vstd::utf8::encode_utf8(name))
                + "&token="@ + crate::text::percent_encode(vstd::utf8::encode_utf8(t)) + "&ip="@
                + crate::text::percent_encode(vstd::utf8::encode_utf8(i)),
            "https://"@ + name + ".duckdns.org/"@,
        ))
    }
}

/// Dropping every trailing copy of `p` leaves a text that does not end in `p`.
proof fn lemma_strip_suffix_all_ends(s: Seq<char>, p: Seq<char>)
    requires
        p.len() > 0,
    ensures
        !crate::text::ends_with(strip_suffix_all(s, p), p),
    decreases s.len(),
{
    if crate::text::ends_with(s, p) {
        lemma_strip_suffix_all_ends(s.take(s.len() - p.len()), p);
    }
}

/// Entering the full DuckDNS name `x.duckdns.org` gives the same update as
/// entering the subdomain `x`, and the address assigned always ends in
/// exactly one `.duckdns.org/`: the name sent in the update is the one in
/// the assigned address, and it does not itself end in `.duckdns.org`.
pub proof fn duckdns_full_name_is_subdomain(domain: Seq<char>, token: Seq<char>, ip: Option<Seq<char>>)
    ensures
        domain.len() > 0 && !crate::text::is_ws(domain[0]) && !crate::text::is_ws(domain.last()) ==> duckdns_spec(
            domain + ".duckdns.org"@,
            token,
            ip,
        ) == duckdns_spec(domain, token, ip),
        duckdns_spec(domain, token, ip) matches Ok((url, assigned)) ==> exists|name: Seq<char>|
            {
                &&& !crate::text::ends_with(name, ".duckdns.org"@)
                &&& assigned == "https://"@ + name + ".duckdns.org/"@
                &&& starts_with(
                    url,
                    "https://www.duckdns.org/update?domains="@ + crate::text::percent_encode(
                        vstd::utf8::encode_utf8(name),
                    ) + "&token="@,
                )
            },
{
    reveal_strlit(".duckdns.org");
    let sfx = ".duckdns.org"@;
    if domain.len() > 0 && !crate::text::is_ws(domain[0]) && !crate::text::is_ws(domain.last()) {
        let full = domain + sfx;
        assert(crate::text::trim_start(domain) == domain);
        assert(crate::text::trim_end(domain) == domain);
        assert(full[0] == domain[0]);
        assert(full.last() == 'g');
        assert(crate::text::trim_start(full) == full);
        assert(crate::text::trim_end(full) == full);
        assert(full.skip(full.len() - sfx.len()) =~= sfx);
        assert(full.take(full.len() - sfx.len()) =~= domain);
        assert(strip_suffix_all(full, sfx) == strip_suffix_all(domain, sfx));
    }
    if let Ok((url, assigned)) = duckdns_spec(domain, token, ip) {
        let name = strip_suffix_all(trim(domain), sfx);
        lemma_strip_suffix_all_ends(trim(domain), sfx);
        let pre = "https://www.duckdns.org/update?domains="@ + crate::text::percent_encode(
            vstd::utf8::encode_utf8(name),
        ) + "&token="@;
        assert(url.take(pre.len() as int) =~= pre);
    }
}

/// Builds the DuckDNS update request.
pub fn duckdns_update_request(domain: &str, token: &str, ip: Option<&str>) -> (r: Result<DuckDnsUpdate, String>)
    ensures
        match (r, duckdns_spec(domain@, token@, opt_str(ip))) {
            (Ok(u), Ok((url, assigned))) => u.url@ == url && u.assigned_url@ == assigned,
            (Err(e), Err(se)) => e@ == se,
            _ => false,
        },
{
    let d = trimmed(domain);
    let t = trimmed(token);
    if d.len() == 0 || t.len() == 0 {
        return Err(String::from_str("domain and token are required / domainとtokenは必須です"));
    }
    let suffix = chars_of(".duckdns.org");
    assert(suffix@.len() > 0) by {
        reveal_strlit(".duckdns.org");
    }
    let name = string_from_chars(&strip_suffix_chars(&d, &suffix));
    let tok = string_from_chars(&t);
    let i = match ip {
        Some(v) => string_from_chars(&trimmed(v)),
        None => String::from_str(""),
    };
    proof {
        reveal_strlit("");
    }
    let mut out: Vec<char> = Vec::new();
    push_str(&mut out, "https://www.duckdns.org/update?domains=");
    push_str(&mut out, crate::text::percent_encode_str(name.as_str()).as_str());
    push_str(&mut out, "&token=");
    push_str(&mut out, crate::text::percent_encode_str(tok.as_str()).as_str());
    push_str(&mut out, "&ip=");
    push_str(&mut out, crate::text::percent_encode_str(i.as_str()).as_str());
    let mut a: Vec<char> = Vec::new();
    push_str(&mut a, "https://");
    push_str(&mut a, name.as_str());
    push_str(&mut a, ".duckdns.org/");
    Ok(DuckDnsUpdate { url: string_from_chars(&out), assigned_url: string_from_chars(&a) })
}

/// Whether DuckDNS accepted the update (its answer starts with `OK`).
pub fn duckdns_ok(response: &str) -> (b: bool)
    ensures
        b == starts_with(trim(response@), "OK"@),
{
    starts_with_chars(&trimmed(response), &chars_of("OK"))
}

} // verus!
