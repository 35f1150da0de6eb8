//! Character-level helpers shared by the other modules: conversions
//! between `str` and character vectors, Unicode trimming, ASCII case
//! mapping, substring search and percent-encoding.

use vstd::prelude::*;
use vstd::string::StringSliceAdditionalSpecFns;

verus! {

// ---------------------------------------------------------------------------
// Conversions

/// The characters of `s`, in order.
pub fn chars_of(s: &str) -> (res: Vec<char>)
    ensures
        res@ == s@,
{
    let mut res: Vec<char> = Vec::new();
    for c in it: s.chars()
        invariant
            it.seq() == s@,
            res@ == it.seq().take(it.index() as int),
    {
        res.push(c);
    }
    res
}

/// `std`'s `String: FromIterator<&char>`: the string made of the characters of `v`.
#[verifier::external_body]
pub(crate) fn string_from_chars(v: &Vec<char>) -> (res: String)
    ensures
        res@ == v@,
{
    String::from_iter(v.iter())
}

/// Name for what `str::to_lowercase` returns: the Unicode lower-case mapping
/// of a string (which may change its length).
pub uninterp spec fn unicode_lowercase(s: Seq<char>) -> Seq<char>;

/// `std`'s `str::to_lowercase`; its result is named by `unicode_lowercase`.
/// On text that is all ASCII the Unicode mapping lower-cases `A`-`Z` and
/// leaves every other character as it is, which is also stated.
#[verifier::external_body]
pub(crate) fn lowercase(s: &str) -> (res: String)
    ensures
        res@ == unicode_lowercase(s@),
        (forall|i: int| 0 <= i < s@.len() ==> (#[trigger] s@[i] as u32) < 128) ==> res@ == s@.map_values(
            |c: char| crate::db::ascii_lower(c),
        ),
{
    s.to_lowercase()
}

/// Appends the characters of `s` to `out`.
pub fn push_str(out: &mut Vec<char>, s: &str)
    ensures
        final(out)@ == old(out)@ + s@,
{
    let cs = chars_of(s);
    let mut i: usize = 0;
    while i < cs.len()
        invariant
            i <= cs.len(),
            cs@ == s@,
            out@ == old(out)@ + cs@.take(i as int),
        decreases cs.len() - i,
    {
        out.push(cs[i]);
        i = i + 1;
        assert(cs@.take(i as int) =~= cs@.take(i - 1) + seq![cs@[i - 1]]);
    }
    assert(cs@.take(cs.len() as int) =~= cs@);
}

/// Appends the characters of `v` to `out`.
pub fn push_chars(out: &mut Vec<char>, v: &Vec<char>)
    ensures
        final(out)@ == old(out)@ + v@,
{
    let mut i: usize = 0;
    while i < v.len()
        invariant
            i <= v.len(),
            out@ == old(out)@ + v@.take(i as int),
        decreases v.len() - i,
    {
        out.push(v[i]);
        i = i + 1;
        assert(v@.take(i as int) =~= v@.take(i - 1) + seq![v@[i - 1]]);
    }
    assert(v@.take(v.len() as int) =~= v@);
}

/// Whether two character vectors hold the same characters.
pub fn chars_eq(a: &Vec<char>, b: &Vec<char>) -> (r: bool)
    ensures
        r == (a@ == b@),
{
    if a.len() != b.len() {
        return false;
    }
    let mut i: usize = 0;
    while i < a.len()
        invariant
            i <= a.len(),
            a.len() == b.len(),
            forall|j: int| 0 <= j < i ==> a@[j] == b@[j],
        decreases a.len() - i,
    {
        if a[i] != b[i] {
            return false;
        }
        i = i + 1;
    }
    assert(a@ =~= b@);
    true
}

/// The characters of an optional `&str`.
pub open spec fn opt_str(o: Option<&str>) -> Option<Seq<char>> {
    match o {
        Some(s) => Some(s@),
        None => None,
    }
}

/// The characters of an optional `String`.
pub open spec fn opt_string(o: Option<String>) -> Option<Seq<char>> {
    match o {
        Some(s) => Some(s@),
        None => None,
    }
}

// ---------------------------------------------------------------------------
// Whitespace and trimming

/// Unicode `White_Space`, the property that `char::is_whitespace` tests.
pub open spec fn is_ws(c: char) -> bool {
    let u = c as u32;
    ||| (0x9 <= u && u <= 0xd)
    ||| u == 0x20
    ||| u == 0x85
    ||| u == 0xa0
    ||| u == 0x1680
    ||| (0x2000 <= u && u <= 0x200a)
    ||| u == 0x2028
    ||| u == 0x2029
    ||| u == 0x202f
    ||| u == 0x205f
    ||| u == 0x3000
}

pub fn is_whitespace(c: char) -> (b: bool)
    ensures
        b == is_ws(c),
{
    let u = c as u32;
    (0x9 <= u && u <= 0xd) || u == 0x20 || u == 0x85 || u == 0xa0 || u == 0x1680 || (0x2000 <= u
        && u <= 0x200a) || u == 0x2028 || u == 0x2029 || u == 0x202f || u == 0x205f || u == 0x3000
}

/// `s` without its leading white space.
pub open spec fn trim_start(s: Seq<char>) -> Seq<char>
    decreases s.len(),
{
    if s.len() > 0 && is_ws(s[0]) {
        trim_start(s.drop_first())
    } else {
        s
    }
}

/// `s` without its trailing white space.
pub open spec fn trim_end(s: Seq<char>) -> Seq<char>
    decreases s.len(),
{
    if s.len() > 0 && is_ws(s.last()) {
        trim_end(s.drop_last())
    } else {
        s
    }
}

/// `str::trim`: `s` without leading and trailing white space.
pub open spec fn trim(s: Seq<char>) -> Seq<char> {
    trim_end(trim_start(s))
}

/// The characters of `s` with leading and trailing white space removed.
pub fn trim_chars(s: &Vec<char>) -> (res: Vec<char>)
    ensures
        res@ == trim(s@),
{
    let mut a: usize = 0;
    assert(s@.skip(0) =~= s@);
    while a < s.len() && is_whitespace(s[a])
        invariant
            a <= s.len(),
            trim_start(s@) == trim_start(s@.skip(a as int)),
        decreases s.len() - a,
    {
        assert(s@.skip(a as int).drop_first() =~= s@.skip(a + 1));
        a = a + 1;
    }
    let mut b: usize = s.len();
    assert(s@.skip(a as int) =~= s@.subrange(a as int, b as int));
    while b > a && is_whitespace(s[b - 1])
        invariant
            a <= b <= s.len(),
            trim(s@) == trim_end(s@.subrange(a as int, b as int)),
        decreases b,
    {
        assert(s@.subrange(a as int, b as int).drop_last() =~= s@.subrange(a as int, b - 1));
        b = b - 1;
    }
    let mut res: Vec<char> = Vec::new();
    let mut i: usize = a;
    while i < b
        invariant
            a <= i <= b <= s.len(),
            res@ == s@.subrange(a as int, i as int),
        decreases b - i,
    {
        res.push(s[i]);
        i = i + 1;
        assert(res@ =~= s@.subrange(a as int, i as int));
    }
    res
}

/// The characters of `s` with leading and trailing white space removed.
pub fn trimmed(s: &str) -> (res: Vec<char>)
    ensures
        res@ == trim(s@),
{
    let cs = chars_of(s);
    trim_chars(&cs)
}

// ---------------------------------------------------------------------------
// ASCII case

pub open spec fn ascii_upper(c: char) -> char {
    if 'a' <= c && c <= 'z' {
        ((c as u32) - 32) as char
    } else {
        c
    }
}

pub fn to_ascii_upper(c: char) -> (r: char)
    ensures
        r == ascii_upper(c),
{
    if 'a' <= c && c <= 'z' {
        let u = (c as u32) - 32;
        assert(0x41 <= u <= 0x5a);
        char_from_ascii(u)
    } else {
        c
    }
}

/// The character with code `u`, for `u` in the ASCII range.
pub fn char_from_ascii(u: u32) -> (c: char)
    requires
        u < 128,
    ensures
        c == u as char,
        c as u32 == u,
{
    (u as u8) as char
}

pub open spec fn is_ascii_digit(c: char) -> bool {
    '0' <= c && c <= '9'
}

/// The decimal digit character for `d`.
pub open spec fn digit_char(d: int) -> char {
    (48 + d) as char
}

pub fn digit_to_char(d: u32) -> (c: char)
    requires
        d < 10,
    ensures
        c == digit_char(d as int),
        is_ascii_digit(c),
{
    char_from_ascii(48 + d)
}

/// Characters with the same code point are the same character.
pub proof fn lemma_char_u32_injective(a: char, b: char)
    ensures
        (a as u32) == (b as u32) ==> a == b,
{
    vstd::utf8::char_u32_cast(a, a as u32);
    vstd::utf8::char_u32_cast(b, b as u32);
}

/// Decimal digits of `n` (`{}` of an unsigned integer).
pub open spec fn decimal(n: nat) -> Seq<char>
    decreases n,
{
    if n < 10 {
        seq![digit_char(n as int)]
    } else {
        decimal(n / 10) + seq![digit_char((n % 10) as int)]
    }
}

/// `{}` of a signed integer: a `-` before the digits of a negative one.
pub open spec fn signed_decimal(n: int) -> Seq<char> {
    if n < 0 {
        seq!['-'] + decimal((-n) as nat)
    } else {
        decimal(n as nat)
    }
}

/// Appends the decimal digits of `n` to `out`.
pub fn push_decimal(out: &mut Vec<char>, n: u64)
    ensures
        final(out)@ == old(out)@ + decimal(n as nat),
    decreases n,
{
    if n >= 10 {
        push_decimal(out, n / 10);
    }
    out.push(digit_to_char((n % 10) as u32));
    assert(final(out)@ =~= old(out)@ + decimal(n as nat));
}

/// Appends `{}` of a signed integer to `out`.
pub fn push_signed_decimal(out: &mut Vec<char>, n: i64)
    ensures
        final(out)@ == old(out)@ + signed_decimal(n as int),
{
    if n < 0 {
        out.push('-');
        let m: u64 = if n == i64::MIN {
            9223372036854775808u64
        } else {
            (-n) as u64
        };
        push_decimal(out, m);
        assert(final(out)@ =~= old(out)@ + signed_decimal(n as int));
    } else {
        push_decimal(out, n as u64);
    }
}

/// The decimal digits of `n` as a string.
pub fn u64_to_string(n: u64) -> (res: String)
    ensures
        res@ == decimal(n as nat),
{
    let mut out: Vec<char> = Vec::new();
    push_decimal(&mut out, n);
    assert(out@ =~= decimal(n as nat));
    string_from_chars(&out)
}

// ---------------------------------------------------------------------------
// Substrings

pub open spec fn starts_with(s: Seq<char>, p: Seq<char>) -> bool {
    p.len() <= s.len() && s.take(p.len() as int) == p
}

pub open spec fn ends_with(s: Seq<char>, p: Seq<char>) -> bool {
    p.len() <= s.len() && s.skip(s.len() - p.len()) == p
}

/// `p` occurs in `s` starting at index `i`.
pub open spec fn occurs_at(s: Seq<char>, p: Seq<char>, i: int) -> bool {
    0 <= i && i + p.len() <= s.len() && s.subrange(i, i + p.len()) == p
}

pub open spec fn contains(s: Seq<char>, p: Seq<char>) -> bool {
    exists|i: int| occurs_at(s, p, i)
}

/// Whether `p` occurs in `s` at index `i`.
pub fn matches_at(s: &Vec<char>, p: &Vec<char>, i: usize) -> (b: bool)
    ensures
        b == occurs_at(s@, p@, i as int),
{
    if i > s.len() || p.len() > s.len() - i {
        return false;
    }
    let mut k: usize = 0;
    while k < p.len()
        invariant
            i + p.len() <= s.len(),
            k <= p.len(),
            forall|j: int| 0 <= j < k ==> s@[i + j] == p@[j],
        decreases p.len() - k,
    {
        if s[i + k] != p[k] {
            assert(s@.subrange(i as int, i + p.len())[k as int] != p@[k as int]);
            return false;
        }
        k = k + 1;
    }
    assert(s@.subrange(i as int, i + p.len()) =~= p@);
    true
}

/// The first index at or after `from` where `p` occurs in `s`.
pub open spec fn first_occurrence_from(s: Seq<char>, p: Seq<char>, from: int, i: int) -> bool {
    &&& from <= i
    &&& occurs_at(s, p, i)
    &&& forall|j: int| from <= j < i ==> !occurs_at(s, p, j)
}

/// `str::find` from index `from`: the first occurrence of `p` at or after `from`.
pub fn find_from(s: &Vec<char>, p: &Vec<char>, from: usize) -> (r: Option<usize>)
    ensures
        r matches Some(i) ==> first_occurrence_from(s@, p@, from as int, i as int),
        r is None ==> forall|j: int| from <= j ==> !occurs_at(s@, p@, j),
{
    if from > s.len() || p.len() > s.len() {
        assert forall|j: int| from <= j implies !occurs_at(s@, p@, j) by {}
        return None;
    }
    if p.len() == 0 {
        assert(s@.subrange(from as int, from as int) =~= p@);
        return Some(from);
    }
    let last = s.len() - p.len();
    let mut i: usize = from;
    while i <= last
        invariant
            from <= i,
            last == s.len() - p.len(),
            p.len() >= 1,
            p.len() <= s.len(),
            forall|j: int| from <= j < i ==> !occurs_at(s@, p@, j),
        decreases last + 1 - i,
    {
        if matches_at(s, p, i) {
            return Some(i);
        }
        i = i + 1;
    }
    assert forall|j: int| from <= j implies !occurs_at(s@, p@, j) by {
        if j >= i {
            assert(j + p@.len() > s@.len());
        }
    }
    None
}

/// The first index where `p` occurs in `s`.
pub open spec fn first_occurrence(s: Seq<char>, p: Seq<char>) -> Option<int> {
    if exists|i: int| first_occurrence_from(s, p, 0, i) {
        Some(choose|i: int| first_occurrence_from(s, p, 0, i))
    } else {
        None
    }
}

proof fn lemma_first_occurrence_from_unique(s: Seq<char>, p: Seq<char>, from: int, i: int, j: int)
    requires
        first_occurrence_from(s, p, from, i),
        first_occurrence_from(s, p, from, j),
    ensures
        i == j,
{
    if i < j {
        assert(!occurs_at(s, p, i));
    }
    if j < i {
        assert(!occurs_at(s, p, j));
    }
}

/// An occurrence in `s` from `from` on is one in `s.skip(from)`, shifted.
pub proof fn lemma_occurs_skip(s: Seq<char>, p: Seq<char>, from: int, k: int)
    requires
        0 <= from <= s.len(),
    ensures
        occurs_at(s.skip(from), p, k) <==> (k >= 0 && occurs_at(s, p, k + from)),
{
    if k >= 0 && k + p.len() <= s.len() - from {
        assert(s.skip(from).subrange(k, k + p.len()) =~= s.subrange(k + from, k + from + p.len()));
    }
}

/// What `find_from` gave, as the first occurrence in the rest of `s`.
pub proof fn lemma_first_occurrence_skip(s: Seq<char>, p: Seq<char>, from: int, r: Option<int>)
    requires
        0 <= from <= s.len(),
        r matches Some(i) ==> first_occurrence_from(s, p, from, i),
        r is None ==> forall|j: int| from <= j ==> !occurs_at(s, p, j),
    ensures
        first_occurrence(s.skip(from), p) == match r {
            Some(i) => Some(i - from),
            None => None,
        },
{
    let t = s.skip(from);
    match r {
        Some(i) => {
            lemma_occurs_skip(s, p, from, i - from);
            assert forall|j: int| 0 <= j < i - from implies !occurs_at(t, p, j) by {
                lemma_occurs_skip(s, p, from, j);
            }
            assert(first_occurrence_from(t, p, 0, i - from));
            let k = choose|k: int| first_occurrence_from(t, p, 0, k);
            lemma_first_occurrence_from_unique(t, p, 0, k, i - from);
        },
        None => {
            assert forall|k: int| !first_occurrence_from(t, p, 0, k) by {
                lemma_occurs_skip(s, p, from, k);
            }
        },
    }
}

/// Every occurrence of the non-empty `p` replaced by `r`, from the left
/// (`str::replace`).
pub open spec fn replace_all(s: Seq<char>, p: Seq<char>, r: Seq<char>) -> Seq<char>
    decreases s.len(),
{
    match first_occurrence(s, p) {
        Some(i) => if p.len() > 0 && 0 <= i && i + p.len() <= s.len() {
            s.take(i) + r + replace_all(s.skip(i + p.len()), p, r)
        } else {
            s
        },
        None => s,
    }
}

/// The pieces of `s` between the occurrences of the non-empty `p`, from the
/// left (`str::split` with a string pattern).
pub open spec fn split_str(s: Seq<char>, p: Seq<char>) -> Seq<Seq<char>>
    decreases s.len(),
{
    match first_occurrence(s, p) {
        Some(i) => if p.len() > 0 && 0 <= i && i + p.len() <= s.len() {
            seq![s.take(i)] + split_str(s.skip(i + p.len()), p)
        } else {
            seq![s]
        },
        None => seq![s],
    }
}

/// `s` without the leading repetitions of the non-empty `p`
/// (`str::trim_start_matches`).
pub open spec fn strip_prefix_all(s: Seq<char>, p: Seq<char>) -> Seq<char>
    decreases s.len(),
{
    if p.len() > 0 && starts_with(s, p) {
        strip_prefix_all(s.skip(p.len() as int), p)
    } else {
        s
    }
}

/// `s` without the trailing repetitions of the non-empty `p`
/// (`str::trim_end_matches`).
pub open spec fn strip_suffix_all(s: Seq<char>, p: Seq<char>) -> Seq<char>
    decreases s.len(),
{
    if p.len() > 0 && ends_with(s, p) {
        strip_suffix_all(s.take(s.len() - p.len()), p)
    } else {
        s
    }
}

/// `str::replace`.
pub fn replace_chars(s: &Vec<char>, p: &Vec<char>, r: &Vec<char>) -> (res: Vec<char>)
    requires
        p@.len() > 0,
    ensures
        res@ == replace_all(s@, p@, r@),
{
    let mut out: Vec<char> = Vec::new();
    let mut from: usize = 0;
    assert(s@.skip(0) =~= s@);
    loop
        invariant
            from <= s.len(),
            p@.len() > 0,
            out@ + replace_all(s@.skip(from as int), p@, r@) == replace_all(s@, p@, r@),
        decreases s.len() - from,
    {
        let found = find_from(s, p, from);
        proof {
            lemma_first_occurrence_skip(s@, p@, from as int, match found {
                Some(i) => Some(i as int),
                None => None,
            });
        }
        match found {
            None => {
                let rest = slice_chars(s, from, s.len());
                assert(rest@ =~= s@.skip(from as int));
                let ghost before = out@;
                push_vec(&mut out, &rest);
                return out;
            },
            Some(i) => {
                let ghost t = s@.skip(from as int);
                let ghost k = (i - from) as int;
                assert(t.take(k) =~= s@.subrange(from as int, i as int));
                assert(t.skip(k + p@.len()) =~= s@.skip(i + p@.len()));
                let piece = slice_chars(s, from, i);
                push_vec(&mut out, &piece);
                push_vec(&mut out, r);
                from = i + p.len();
                assert(out@ + replace_all(s@.skip(from as int), p@, r@) =~= replace_all(s@, p@, r@));
            },
        }
    }
}

/// `str::split` with a string pattern, collected.
pub fn split_str_chars(s: &Vec<char>, p: &Vec<char>) -> (res: Vec<Vec<char>>)
    requires
        p@.len() > 0,
    ensures
        res@.len() == split_str(s@, p@).len(),
        forall|i: int| 0 <= i < res@.len() ==> #[trigger] res@[i]@ == split_str(s@, p@)[i],
{
    let mut out: Vec<Vec<char>> = Vec::new();
    let mut from: usize = 0;
    assert(s@.skip(0) =~= s@);
    loop
        invariant
            from <= s.len(),
            p@.len() > 0,
            out@.map_values(|v: Vec<char>| v@) + split_str(s@.skip(from as int), p@) == split_str(s@, p@),
        decreases s.len() - from,
    {
        let found = find_from(s, p, from);
        proof {
            lemma_first_occurrence_skip(s@, p@, from as int, match found {
                Some(i) => Some(i as int),
                None => None,
            });
        }
        let ghost before = out@.map_values(|v: Vec<char>| v@);
        match found {
            None => {
                let rest = slice_chars(s, from, s.len());
                assert(rest@ =~= s@.skip(from as int));
                out.push(rest);
                assert(out@.map_values(|v: Vec<char>| v@) =~= before.push(s@.skip(from as int)));
                assert(out@.map_values(|v: Vec<char>| v@) =~= split_str(s@, p@));
                proof {
                    assert forall|i: int| 0 <= i < out@.len() implies #[trigger] out@[i]@ == split_str(s@, p@)[i] by {
                        assert(out@.map_values(|v: Vec<char>| v@)[i] == out@[i]@);
                    }
                }
                return out;
            },
            Some(i) => {
                let ghost t = s@.skip(from as int);
                let ghost k = (i - from) as int;
                assert(t.take(k) =~= s@.subrange(from as int, i as int));
                assert(t.skip(k + p@.len()) =~= s@.skip(i + p@.len()));
                let piece = slice_chars(s, from, i);
                out.push(piece);
                from = i + p.len();
                assert(out@.map_values(|v: Vec<char>| v@) =~= before.push(t.take(k)));
                assert(out@.map_values(|v: Vec<char>| v@) + split_str(s@.skip(from as int), p@) =~= split_str(s@, p@));
            },
        }
    }
}

/// `str::trim_start_matches` with a non-empty string pattern.
pub fn strip_prefix_chars(s: &Vec<char>, p: &Vec<char>) -> (res: Vec<char>)
    requires
        p@.len() > 0,
    ensures
        res@ == strip_prefix_all(s@, p@),
{
    let mut from: usize = 0;
    assert(s@.skip(0) =~= s@);
    while matches_at(s, p, from)
        invariant
            from <= s.len(),
            p@.len() > 0,
            strip_prefix_all(s@, p@) == strip_prefix_all(s@.skip(from as int), p@),
        decreases s.len() - from,
    {
        assert(s@.skip(from as int).take(p@.len() as int) =~= s@.subrange(from as int, from + p@.len()));
        assert(s@.skip(from as int).skip(p@.len() as int) =~= s@.skip(from + p@.len()));
        from = from + p.len();
    }
    proof {
        if starts_with(s@.skip(from as int), p@) {
            assert(s@.skip(from as int).take(p@.len() as int) =~= s@.subrange(from as int, from + p@.len()));
        }
    }
    let res = slice_chars(s, from, s.len());
    assert(res@ =~= s@.skip(from as int));
    res
}

/// `str::trim_end_matches` with a non-empty string pattern.
pub fn strip_suffix_chars(s: &Vec<char>, p: &Vec<char>) -> (res: Vec<char>)
    requires
        p@.len() > 0,
    ensures
        res@ == strip_suffix_all(s@, p@),
{
    let mut to: usize = s.len();
    assert(s@.take(s@.len() as int) =~= s@);
    while to >= p.len() && matches_at(s, p, to - p.len())
        invariant
            to <= s.len(),
            p@.len() > 0,
            strip_suffix_all(s@, p@) == strip_suffix_all(s@.take(to as int), p@),
        decreases to,
    {
        let ghost t = s@.take(to as int);
        assert(t.skip(t.len() - p@.len()) =~= s@.subrange(to - p@.len(), to as int));
        assert(t.take(t.len() - p@.len()) =~= s@.take(to - p@.len()));
        to = to - p.len();
    }
    proof {
        let t = s@.take(to as int);
        if ends_with(t, p@) {
            assert(t.skip(t.len() - p@.len()) =~= s@.subrange(to - p@.len(), to as int));
        }
    }
    let res = slice_chars(s, 0, to);
    assert(res@ =~= s@.take(to as int));
    res
}

/// Appends the characters of `v` to `out`.
pub fn push_vec(out: &mut Vec<char>, v: &Vec<char>)
    ensures
        final(out)@ == old(out)@ + v@,
{
    push_chars(out, v)
}

/// `str::contains`.
pub fn contains_chars(s: &Vec<char>, p: &Vec<char>) -> (b: bool)
    ensures
        b == contains(s@, p@),
{
    match find_from(s, p, 0) {
        Some(i) => true,
        None => {
            assert(!contains(s@, p@));
            false
        },
    }
}

/// `str::starts_with`.
pub fn starts_with_chars(s: &Vec<char>, p: &Vec<char>) -> (b: bool)
    ensures
        b == starts_with(s@, p@),
{
    let r = matches_at(s, p, 0);
    proof {
        if p@.len() <= s@.len() {
            assert(s@.subrange(0, p@.len() as int) =~= s@.take(p@.len() as int));
        }
    }
    r
}

/// `str::ends_with`.
pub fn ends_with_chars(s: &Vec<char>, p: &Vec<char>) -> (b: bool)
    ensures
        b == ends_with(s@, p@),
{
    if p.len() > s.len() {
        return false;
    }
    let r = matches_at(s, p, s.len() - p.len());
    assert(s@.subrange(s@.len() - p@.len(), s@.len() as int) =~= s@.skip(s@.len() - p@.len()));
    r
}

/// Whether `c` occurs in `s`.
pub fn has_char(s: &Vec<char>, c: char) -> (b: bool)
    ensures
        b == s@.contains(c),
{
    let mut i: usize = 0;
    while i < s.len()
        invariant
            i <= s.len(),
            forall|j: int| 0 <= j < i ==> s@[j] != c,
        decreases s.len() - i,
    {
        if s[i] == c {
            return true;
        }
        i = i + 1;
    }
    false
}

// ---------------------------------------------------------------------------
// Percent-encoding

/// Bytes left as they are by percent-encoding (RFC 3986 unreserved).
pub open spec fn is_unreserved(b: u8) -> bool {
    ||| (65 <= b && b <= 90)
    ||| (97 <= b && b <= 122)
    ||| (48 <= b && b <= 57)
    ||| b == 45
    ||| b == 95
    ||| b == 46
    ||| b == 126
}

/// Upper-case hexadecimal digit for `d < 16`.
pub open spec fn hex_upper(d: int) -> char {
    if d < 10 {
        (48 + d) as char
    } else {
        (55 + d) as char
    }
}

/// Lower-case hexadecimal digit for `d < 16`.
pub open spec fn hex_lower(d: int) -> char {
    if d < 10 {
        (48 + d) as char
    } else {
        (87 + d) as char
    }
}

pub fn hex_upper_char(d: u8) -> (c: char)
    requires
        d < 16,
    ensures
        c == hex_upper(d as int),
{
    if d < 10 {
        char_from_ascii(48 + d as u32)
    } else {
        char_from_ascii(55 + d as u32)
    }
}

pub fn hex_lower_char(d: u8) -> (c: char)
    requires
        d < 16,
    ensures
        c == hex_lower(d as int),
{
    if d < 10 {
        char_from_ascii(48 + d as u32)
    } else {
        char_from_ascii(87 + d as u32)
    }
}

/// The percent-encoding of one byte.
pub open spec fn encode_byte(b: u8) -> Seq<char> {
    if is_unreserved(b) {
        seq![b as char]
    } else {
        seq!['%', hex_upper((b / 16) as int), hex_upper((b % 16) as int)]
    }
}

/// Percent-encoding of a byte sequence: unreserved bytes stay, every other
/// byte becomes `%XX` with upper-case hexadecimal digits.
pub open spec fn percent_encode(bytes: Seq<u8>) -> Seq<char>
    decreases bytes.len(),
{
    if bytes.len() == 0 {
        seq![]
    } else {
        percent_encode(bytes.drop_last()) + encode_byte(bytes.last())
    }
}

/// Percent-encodes the UTF-8 bytes of `s`, keeping only `A-Z a-z 0-9 - _ . ~`.
pub fn percent_encode_str(s: &str) -> (res: String)
    ensures
        res@ == percent_encode(s.spec_bytes()),
{
    let bytes = s.as_bytes();
    let mut out: Vec<char> = Vec::new();
    let mut i: usize = 0;
    while i < bytes.len()
        invariant
            i <= bytes@.len(),
            bytes@ == s.spec_bytes(),
            out@ == percent_encode(bytes@.take(i as int)),
        decreases bytes.len() - i,
    {
        let b = bytes[i];
        assert(bytes@.take(i + 1).drop_last() =~= bytes@.take(i as int));
        if (65 <= b && b <= 90) || (97 <= b && b <= 122) || (48 <= b && b <= 57) || b == 45 || b
            == 95 || b == 46 || b == 126 {
            out.push(char_from_ascii(b as u32));
        } else {
            out.push('%');
            out.push(hex_upper_char(b / 16));
            out.push(hex_upper_char(b % 16));
        }
        i = i + 1;
        assert(out@ =~= percent_encode(bytes@.take(i as int)));
    }
    assert(bytes@.take(bytes@.len() as int) =~= bytes@);
    string_from_chars(&out)
}


// ---------------------------------------------------------------------------
// Searching for a character, splitting

/// `i` is the index of the first `c` in `s`.
pub open spec fn is_first_index(s: Seq<char>, c: char, i: int) -> bool {
    0 <= i < s.len() && s[i] == c && forall|j: int| 0 <= j < i ==> s[j] != c
}

/// Index of the first `c` in `s` (meaningful when `s` contains `c`).
pub open spec fn first_index_of(s: Seq<char>, c: char) -> int {
    choose|i: int| is_first_index(s, c, i)
}

pub proof fn lemma_first_index_unique(s: Seq<char>, c: char, i: int)
    requires
        is_first_index(s, c, i),
    ensures
        first_index_of(s, c) == i,
        s.contains(c),
{
    let k = first_index_of(s, c);
    assert(is_first_index(s, c, k));
    if k < i {
        assert(s[k] != c);
    }
    if i < k {
        assert(s[i] != c);
    }
}

/// `str::find` for one character.
/// A character that occurs has a first occurrence.
pub proof fn lemma_first_index_exists(s: Seq<char>, c: char)
    requires
        s.contains(c),
    ensures
        is_first_index(s, c, first_index_of(s, c)),
    decreases s.len(),
{
    let d = s.drop_last();
    if d.contains(c) {
        lemma_first_index_exists(d, c);
        let i = first_index_of(d, c);
        assert forall|j: int| 0 <= j < i implies s[j] != c by {
            assert(s[j] == d[j]);
        }
        assert(s[i] == d[i]);
        assert(is_first_index(s, c, i));
        lemma_first_index_unique(s, c, i);
    } else {
        let w = choose|w: int| 0 <= w < s.len() && s[w] == c;
        if w < s.len() - 1 {
            assert(d[w] == c);
        }
        assert forall|j: int| 0 <= j < s.len() - 1 implies s[j] != c by {
            assert(s[j] == d[j]);
            if s[j] == c {
                assert(d.contains(c));
            }
        }
        assert(is_first_index(s, c, s.len() - 1));
        lemma_first_index_unique(s, c, s.len() - 1);
    }
}

pub fn index_of_char(s: &Vec<char>, c: char) -> (r: Option<usize>)
    ensures
        r matches Some(i) ==> is_first_index(s@, c, i as int) && first_index_of(s@, c) == i,
        r is None ==> !s@.contains(c),
{
    let mut i: usize = 0;
    while i < s.len()
        invariant
            i <= s.len(),
            forall|j: int| 0 <= j < i ==> s@[j] != c,
        decreases s.len() - i,
    {
        if s[i] == c {
            proof {
                lemma_first_index_unique(s@, c, i as int);
            }
            return Some(i);
        }
        i = i + 1;
    }
    None
}

/// `s[from..to]` as a new vector.
pub fn slice_chars(s: &Vec<char>, from: usize, to: usize) -> (res: Vec<char>)
    requires
        from <= to <= s.len(),
    ensures
        res@ == s@.subrange(from as int, to as int),
{
    let mut res: Vec<char> = Vec::new();
    let mut i: usize = from;
    while i < to
        invariant
            from <= i <= to <= s.len(),
            res@ == s@.subrange(from as int, i as int),
        decreases to - i,
    {
        res.push(s[i]);
        i = i + 1;
        assert(res@ =~= s@.subrange(from as int, i as int));
    }
    res
}

/// `str::split(c)`: the pieces between occurrences of `c` (always at least one).
pub open spec fn split_on(s: Seq<char>, c: char) -> Seq<Seq<char>>
    decreases s.len(),
{
    if s.len() == 0 {
        seq![seq![]]
    } else {
        let p = split_on(s.drop_last(), c);
        if s.last() == c {
            p.push(seq![])
        } else {
            p.update(p.len() - 1, p.last().push(s.last()))
        }
    }
}

/// Splitting always gives at least one piece.
pub proof fn lemma_split_on_nonempty(s: Seq<char>, c: char)
    ensures
        split_on(s, c).len() >= 1,
    decreases s.len(),
{
    if s.len() > 0 {
        lemma_split_on_nonempty(s.drop_last(), c);
    }
}

/// One more character: a separator opens a new (empty) piece, anything
/// else extends the last piece.
pub proof fn lemma_split_on_step(h: Seq<char>, i: int, c: char)
    requires
        0 <= i < h.len(),
    ensures
        split_on(h.take(i + 1), c) == (if h[i] == c {
            split_on(h.take(i), c).push(seq![])
        } else {
            let p = split_on(h.take(i), c);
            p.update(p.len() - 1, p.last().push(h[i]))
        }),
{
    assert(h.take(i + 1).drop_last() =~= h.take(i));
}

/// `str::split(c)`, collected.
pub fn split_chars(s: &Vec<char>, c: char) -> (res: Vec<Vec<char>>)
    ensures
        res@.len() == split_on(s@, c).len(),
        forall|i: int| 0 <= i < res@.len() ==> #[trigger] res@[i]@ == split_on(s@, c)[i],
{
    let mut res: Vec<Vec<char>> = Vec::new();
    let mut cur: Vec<char> = Vec::new();
    let mut i: usize = 0;
    assert(s@.take(0) =~= seq![]);
    while i < s.len()
        invariant
            i <= s.len(),
            res@.len() + 1 == split_on(s@.take(i as int), c).len(),
            forall|j: int| 0 <= j < res@.len() ==> #[trigger] res@[j]@ == split_on(s@.take(i as int), c)[j],
            cur@ == split_on(s@.take(i as int), c).last(),
        decreases s.len() - i,
    {
        proof {
            lemma_split_on_step(s@, i as int, c);
            lemma_split_on_nonempty(s@.take(i as int), c);
        }
        if s[i] == c {
            res.push(cur);
            cur = Vec::new();
        } else {
            cur.push(s[i]);
        }
        i = i + 1;
    }
    res.push(cur);
    assert(s@.take(i as int) =~= s@);
    res
}

// ---------------------------------------------------------------------------
// Unsigned integers (`str::parse::<u16>()`, `::<u64>()`, ...)

/// Value of a string of decimal digits.
pub open spec fn digits_value(d: Seq<char>) -> int
    decreases d.len(),
{
    if d.len() == 0 {
        0
    } else {
        10 * digits_value(d.drop_last()) + (d.last() as int - 48)
    }
}

pub open spec fn all_digits(d: Seq<char>) -> bool {
    forall|i: int| 0 <= i < d.len() ==> is_ascii_digit(#[trigger] d[i])
}

/// `FromStr` for an unsigned integer type whose largest value is `max`: an
/// optional `+`, then one or more ASCII digits whose value is at most `max`.
pub open spec fn parse_uint(s: Seq<char>, max: int) -> Option<int> {
    let t = if s.len() > 0 && s[0] == '+' {
        s.drop_first()
    } else {
        s
    };
    if t.len() > 0 && all_digits(t) && digits_value(t) <= max {
        Some(digits_value(t))
    } else {
        None
    }
}

proof fn lemma_digits_value_grows(t: Seq<char>, k: int)
    requires
        0 <= k <= t.len(),
        all_digits(t),
    ensures
        digits_value(t.take(k)) <= digits_value(t),
        digits_value(t.take(k)) >= 0,
    decreases t.len() - k,
{
    if k < t.len() {
        lemma_digits_value_grows(t, k + 1);
        assert(t.take(k + 1).drop_last() =~= t.take(k));
        assert(is_ascii_digit(t[k]));
        lemma_digits_nonneg(t.take(k));
    } else {
        assert(t.take(k) =~= t);
        lemma_digits_nonneg(t);
    }
}

/// A string of digits has a non-negative value.
pub proof fn lemma_digits_nonneg(t: Seq<char>)
    requires
        all_digits(t),
    ensures
        digits_value(t) >= 0,
    decreases t.len(),
{
    if t.len() > 0 {
        assert(all_digits(t.drop_last()));
        lemma_digits_nonneg(t.drop_last());
        assert(is_ascii_digit(t.last()));
    }
}

/// Parses `s` as an unsigned integer no larger than `max`.
pub fn parse_unsigned(s: &str, max: u64) -> (r: Option<u64>)
    ensures
        r matches Some(v) ==> parse_uint(s@, max as int) == Some(v as int),
        r is None ==> parse_uint(s@, max as int) is None,
{
    let cs = chars_of(s);
    let start: usize = if cs.len() > 0 && cs[0] == '+' {
        1
    } else {
        0
    };
    let ghost t = if s@.len() > 0 && s@[0] == '+' {
        s@.drop_first()
    } else {
        s@
    };
    assert(t =~= cs@.skip(start as int));
    if start >= cs.len() {
        return None;
    }
    let mut value: u64 = 0;
    let mut i: usize = start;
    assert(t.take(0) =~= seq![]);
    while i < cs.len()
        invariant
            start <= i <= cs.len(),
            cs@ == s@,
            t == cs@.skip(start as int),
            t == (if s@.len() > 0 && s@[0] == '+' {
                s@.drop_first()
            } else {
                s@
            }),
            t.len() > 0,
            value <= max,
            all_digits(t.take(i - start)),
            value as int == digits_value(t.take(i - start)),
        decreases cs.len() - i,
    {
        let c = cs[i];
        assert(t.take(i - start + 1).drop_last() =~= t.take(i - start));
        assert(t[i - start] == c);
        if !('0' <= c && c <= '9') {
            proof {
                assert(!is_ascii_digit(t[i - start]));
                if all_digits(t) {
                    assert(is_ascii_digit(t[i - start]));
                }
            }
            return None;
        }
        let d = (c as u32 - 48) as u64;
        if d > max || value > (max - d) / 10 {
            proof {
                assert(all_digits(t.take(i - start + 1)));
                assert(digits_value(t.take(i - start + 1)) > max);
                if all_digits(t) {
                    lemma_digits_value_grows(t, i - start + 1);
                }
            }
            return None;
        }
        value = value * 10 + d;
        i = i + 1;
        proof {
            assert(all_digits(t.take(i - start)));
        }
    }
    assert(t.take(i - start) =~= t);
    Some(value)
}

} // verus!
