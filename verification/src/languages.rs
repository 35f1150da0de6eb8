//! The summary of the world-language practice questions: the distinct
//! levels of a language's questions, in order.

use vstd::prelude::*;
use crate::text::{chars_of, chars_eq, opt_str};

verus! {

/// `a` comes before `b` in the order of `str` (code point by code point,
/// a proper prefix first).
pub open spec fn text_lt(a: Seq<char>, b: Seq<char>) -> bool
    decreases a.len(),
{
    if a.len() == 0 {
        b.len() > 0
    } else if b.len() == 0 {
        false
    } else if a[0] != b[0] {
        (a[0] as u32) < (b[0] as u32)
    } else {
        text_lt(a.drop_first(), b.drop_first())
    }
}

/// Two different texts are ordered one way or the other, never both.
pub proof fn lemma_text_lt_total(a: Seq<char>, b: Seq<char>)
    ensures
        a != b ==> (text_lt(a, b) || text_lt(b, a)),
        !(text_lt(a, b) && text_lt(b, a)),
        !text_lt(a, a),
    decreases a.len(),
{
    if a.len() > 0 {
        lemma_text_lt_total(a.drop_first(), a.drop_first());
    }
    if a.len() > 0 && b.len() > 0 {
        lemma_text_lt_total(a.drop_first(), b.drop_first());
        if a[0] == b[0] && a != b {
            assert(a =~= seq![a[0]] + a.drop_first());
            assert(b =~= seq![b[0]] + b.drop_first());
        }
        if a[0] != b[0] {
            crate::text::lemma_char_u32_injective(a[0], b[0]);
        }
    } else if a.len() == 0 && b.len() == 0 {
        assert(a =~= b);
    }
}

/// The order of texts is transitive.
pub proof fn lemma_text_lt_trans(a: Seq<char>, b: Seq<char>, c: Seq<char>)
    requires
        text_lt(a, b),
        text_lt(b, c),
    ensures
        text_lt(a, c),
    decreases a.len(),
{
    if a.len() > 0 && a[0] == b[0] && b[0] == c[0] {
        lemma_text_lt_trans(a.drop_first(), b.drop_first(), c.drop_first());
    }
    if a.len() > 0 && a[0] == c[0] {
        assert((a[0] as u32) == (c[0] as u32));
    }
}

/// Each text comes strictly before the next.
pub open spec fn strictly_sorted(s: Seq<Seq<char>>) -> bool {
    forall|i: int| 0 <= i < s.len() - 1 ==> #[trigger] text_lt(s[i], s[i + 1])
}

pub(crate) fn text_less(a: &Vec<char>, b: &Vec<char>) -> (r: bool)
    ensures
        r == text_lt(a@, b@),
{
    let mut i: usize = 0;
    assert(a@.skip(0) =~= a@);
    assert(b@.skip(0) =~= b@);
    while i < a.len() && i < b.len() && a[i] == b[i]
        invariant
            i <= a.len(),
            i <= b.len(),
            text_lt(a@, b@) == text_lt(a@.skip(i as int), b@.skip(i as int)),
        decreases a.len() - i,
    {
        assert(a@.skip(i as int).drop_first() =~= a@.skip(i + 1));
        assert(b@.skip(i as int).drop_first() =~= b@.skip(i + 1));
        i = i + 1;
    }
    proof {
        if i == 0 {
            assert(a@.skip(0) =~= a@);
            assert(b@.skip(0) =~= b@);
        }
    }
    if i == a.len() {
        i < b.len()
    } else if i == b.len() {
        false
    } else {
        (a[i] as u32) < (b[i] as u32)
    }
}

/// The string views of a list.
pub open spec fn texts(v: Seq<String>) -> Seq<Seq<char>> {
    v.map_values(|s: String| s@)
}

/// The levels that questions give as text, in order; a question without a
/// text level gives none.
pub open spec fn given_levels(levels: Seq<Option<String>>) -> Seq<Seq<char>>
    decreases levels.len(),
{
    if levels.len() == 0 {
        Seq::empty()
    } else {
        let rest = given_levels(levels.drop_last());
        match levels.last() {
            Some(s) => rest.push(s@),
            None => rest,
        }
    }
}

/// The summary of one language's questions: how many there are, and the
/// distinct levels they give, in order.
pub struct QuestionSummary {
    pub question_count: usize,
    pub levels: Vec<String>,
}

/// Summarizes a language's questions from the level each gives (`None`
/// where a question has no text level).
pub fn summarize_questions(levels: &Vec<Option<String>>) -> (r: QuestionSummary)
    ensures
        r.question_count == levels.len(),
        strictly_sorted(texts(r.levels@)),
        forall|i: int| 0 <= i < r.levels.len() ==> given_levels(levels@).contains(#[trigger] texts(r.levels@)[i]),
        forall|i: int|
            0 <= i < given_levels(levels@).len() ==> texts(r.levels@).contains(#[trigger] given_levels(levels@)[i]),
{
    let mut present: Vec<String> = Vec::new();
    let mut j: usize = 0;
    assert(levels@.take(0) =~= Seq::<Option<String>>::empty());
    assert(texts(present@) =~= Seq::<Seq<char>>::empty());
    while j < levels.len()
        invariant
            j <= levels.len(),
            texts(present@) == given_levels(levels@.take(j as int)),
        decreases levels.len() - j,
    {
        let ghost before = present@;
        assert(levels@.take(j + 1).drop_last() =~= levels@.take(j as int));
        match &levels[j] {
            Some(s) => {
                present.push(s.clone());
                assert(texts(present@) =~= texts(before).push(s@));
            },
            None => {},
        }
        j = j + 1;
    }
    assert(levels@.take(levels.len() as int) =~= levels@);
    let sorted = sorted_levels(&present);
    QuestionSummary { question_count: levels.len(), levels: sorted }
}

/// The distinct levels, sorted (`sort` then `dedup`).
pub fn sorted_levels(levels: &Vec<String>) -> (r: Vec<String>)
    ensures
        strictly_sorted(texts(r@)),
        forall|i: int| 0 <= i < r.len() ==> texts(levels@).contains(#[trigger] texts(r@)[i]),
        forall|i: int| 0 <= i < levels.len() ==> texts(r@).contains(#[trigger] texts(levels@)[i]),
{
    let mut out: Vec<String> = Vec::new();
    let mut j: usize = 0;
    while j < levels.len()
        invariant
            j <= levels.len(),
            strictly_sorted(texts(out@)),
            forall|i: int| 0 <= i < out.len() ==> texts(levels@).contains(#[trigger] texts(out@)[i]),
            forall|i: int| 0 <= i < j ==> texts(out@).contains(#[trigger] texts(levels@)[i]),
        decreases levels.len() - j,
    {
        let x = chars_of(levels[j].as_str());
        let ghost before = texts(out@);
        let mut pos: usize = 0;
        while pos < out.len() && text_less(&chars_of(out[pos].as_str()), &x)
            invariant
                pos <= out.len(),
                before == texts(out@),
                forall|i: int| 0 <= i < pos ==> text_lt(before[i], x@),
            decreases out.len() - pos,
        {
            pos = pos + 1;
        }
        let same = pos < out.len() && chars_eq(&chars_of(out[pos].as_str()), &x);
        if !same {
            proof {
                if pos < before.len() {
                    lemma_text_lt_total(before[pos as int], x@);
                }
                if pos > 0 {
                    assert(text_lt(before[pos - 1], x@));
                }
            }
            out.insert(pos, levels[j].clone());
            proof {
                let t = texts(out@);
                assert(t =~= before.insert(pos as int, x@));
                assert forall|i: int| 0 <= i < t.len() - 1 implies #[trigger] text_lt(t[i], t[i + 1]) by {
                    if i + 1 < pos {
                        assert(t[i] == before[i] && t[i + 1] == before[i + 1]);
                        assert(text_lt(before[i], before[i + 1]));
                    } else if i + 1 == pos {
                        assert(t[i] == before[i] && t[i + 1] == x@);
                    } else if i == pos {
                        assert(t[i] == x@ && t[i + 1] == before[i]);
                        assert(text_lt(x@, before[i]));
                    } else {
                        assert(t[i] == before[i - 1] && t[i + 1] == before[i]);
                        let k = i - 1;
                        assert(strictly_sorted(before));
                        assert(0 <= k < before.len() - 1);
                        assert(text_lt(before[k], before[k + 1]));
                        assert(k + 1 == i);
                    }
                }
                assert forall|i: int| 0 <= i < out.len() implies texts(levels@).contains(#[trigger] texts(out@)[i]) by {
                    if i < pos {
                        assert(t[i] == before[i]);
                    } else if i == pos {
                        assert(texts(levels@)[j as int] == x@);
                    } else {
                        assert(t[i] == before[i - 1]);
                    }
                }
                assert forall|i: int| 0 <= i < j + 1 implies texts(out@).contains(#[trigger] texts(levels@)[i]) by {
                    if i == j {
                        assert(t[pos as int] == x@);
                    } else {
                        let k = choose|k: int| 0 <= k < before.len() && before[k] == texts(levels@)[i];
                        if k < pos {
                            assert(t[k] == before[k]);
                        } else {
                            assert(t[k + 1] == before[k]);
                        }
                    }
                }
            }
        } else {
            proof {
                assert(texts(out@)[pos as int] == x@);
                assert(texts(levels@)[j as int] == x@);
            }
        }
        j = j + 1;
    }
    out
}

/// The first entry whose code is `lang`; entries without a code never
/// match.
pub fn first_with_code(codes: &Vec<Option<String>>, lang: &str) -> (r: Option<usize>)
    ensures
        r matches Some(i) ==> i < codes.len() && crate::text::opt_string(codes@[i as int]) == Some(lang@)
            && forall|k: int| 0 <= k < i ==> crate::text::opt_string(#[trigger] codes@[k]) != Some(lang@),
        r is None ==> forall|k: int| 0 <= k < codes.len() ==> crate::text::opt_string(#[trigger] codes@[k]) != Some(lang@),
{
    let l = chars_of(lang);
    let mut i: usize = 0;
    while i < codes.len()
        invariant
            i <= codes.len(),
            l@ == lang@,
            forall|k: int| 0 <= k < i ==> crate::text::opt_string(#[trigger] codes@[k]) != Some(lang@),
        decreases codes.len() - i,
    {
        match &codes[i] {
            Some(c) => {
                if chars_eq(&chars_of(c.as_str()), &l) {
                    return Some(i);
                }
            },
            None => {},
        }
        i = i + 1;
    }
    None
}

/// Whether the server only serves English and Japanese (the setting is
/// exactly `"1"`).
pub fn limited_languages(value: Option<&str>) -> (b: bool)
    ensures
        b == (opt_str(value) == Some("1"@)),
{
    match value {
        Some(v) => chars_eq(&chars_of(v), &chars_of("1")),
        None => false,
    }
}

} // verus!
