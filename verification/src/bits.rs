//! Bit streams made of fixed-width words, most significant bit first.
//! Base32 reads bytes as such a stream and cuts it into 5-bit symbols;
//! decoding reads the symbols as a stream and cuts it into bytes. The
//! lemmas here are what both directions, and their round trip, rest on.

use vstd::prelude::*;
use vstd::arithmetic::power::lemma_pow0;
use vstd::arithmetic::power2::{pow2, lemma_pow2_unfold, lemma_pow2_pos};
use vstd::arithmetic::div_mod::{lemma_fundamental_div_mod, lemma_fundamental_div_mod_converse, lemma_div_denominator};

verus! {

/// Bit `i` of the stream formed by the `w`-bit words `ws`; zero outside the stream.
pub open spec fn stream_bit(ws: Seq<int>, w: nat, i: int) -> int {
    if w > 0 && 0 <= i && i < w * ws.len() {
        (ws[i / (w as int)] / (pow2((w - 1 - i % (w as int)) as nat) as int)) % 2
    } else {
        0
    }
}

/// The number formed by the `l` stream bits starting at bit `s`.
pub open spec fn stream_val(ws: Seq<int>, w: nat, s: int, l: nat) -> int
    decreases l,
{
    if l == 0 {
        0
    } else {
        2 * stream_val(ws, w, s, (l - 1) as nat) + stream_bit(ws, w, s + l - 1)
    }
}

/// Two to the power zero is one.
pub proof fn lemma_pow2_zero()
    ensures
        pow2(0) == 1,
{
    lemma_pow0(2);
}

/// An `l`-bit reading is below `2^l`.
pub proof fn lemma_val_bounds(ws: Seq<int>, w: nat, s: int, l: nat)
    ensures
        0 <= stream_val(ws, w, s, l) < pow2(l),
    decreases l,
{
    if l == 0 {
        lemma_pow2_zero();
    } else {
        lemma_val_bounds(ws, w, s, (l - 1) as nat);
        lemma_pow2_unfold(l);
    }
}

/// Reading `a + b` bits is reading `a` bits, shifting by `b`, and adding the next `b`.
pub proof fn lemma_val_concat(ws: Seq<int>, w: nat, s: int, a: nat, b: nat)
    ensures
        stream_val(ws, w, s, a + b) == stream_val(ws, w, s, a) * pow2(b) + stream_val(
            ws,
            w,
            s + a,
            b,
        ),
    decreases b,
{
    if b == 0 {
        lemma_pow2_zero();
    } else {
        lemma_val_concat(ws, w, s, a, (b - 1) as nat);
        lemma_pow2_unfold(b);
        let x = stream_val(ws, w, s, a);
        let p = pow2((b - 1) as nat) as int;
        let y = stream_val(ws, w, s + a, (b - 1) as nat);
        let bit = stream_bit(ws, w, s + a + b - 1);
        assert(stream_val(ws, w, s, a + b) == 2 * stream_val(ws, w, s, (a + b - 1) as nat) + bit);
        assert(2 * (x * p + y) + bit == x * (2 * p) + (2 * y + bit)) by (nonlinear_arith);
    }
}

/// Bit `t` of an `l`-bit reading is the stream bit `s + t`.
pub proof fn lemma_val_bit(ws: Seq<int>, w: nat, s: int, l: nat, t: nat)
    requires
        t < l,
    ensures
        (stream_val(ws, w, s, l) / (pow2((l - 1 - t) as nat) as int)) % 2 == stream_bit(
            ws,
            w,
            s + t,
        ),
{
    let b = (l - 1 - t) as nat;
    lemma_val_concat(ws, w, s, t + 1, b);
    assert((t + 1 + b) as nat == l);
    lemma_val_bounds(ws, w, s + t + 1, b);
    lemma_pow2_pos(b);
    lemma_fundamental_div_mod_converse(
        stream_val(ws, w, s, l),
        pow2(b) as int,
        stream_val(ws, w, s, t + 1),
        stream_val(ws, w, s + t + 1, b),
    );
    let bit = stream_bit(ws, w, s + t);
    assert(0 <= bit <= 1);
    lemma_fundamental_div_mod_converse(stream_val(ws, w, s, t + 1), 2, stream_val(ws, w, s, t), bit);
}

/// Bit `s + t` of one stream equals bit `r + t` of another.
pub open spec fn same_bit(ws: Seq<int>, w: nat, s: int, vs: Seq<int>, v: nat, r: int, t: int) -> bool {
    stream_bit(ws, w, s + t) == stream_bit(vs, v, r + t)
}

/// Readings of two streams agree where their bits agree.
pub proof fn lemma_val_ext(ws: Seq<int>, w: nat, s: int, vs: Seq<int>, v: nat, r: int, l: nat)
    requires
        forall|t: int| 0 <= t < l ==> #[trigger] same_bit(ws, w, s, vs, v, r, t),
    ensures
        stream_val(ws, w, s, l) == stream_val(vs, v, r, l),
    decreases l,
{
    if l > 0 {
        lemma_val_ext(ws, w, s, vs, v, r, (l - 1) as nat);
        assert(same_bit(ws, w, s, vs, v, r, l - 1));
    }
}

/// Index arithmetic: bit `w * k + j` lies in word `k` at offset `j`.
pub proof fn lemma_word_index(w: nat, k: int, j: int)
    requires
        w > 0,
        0 <= j < w,
    ensures
        (w * k + j) / (w as int) == k,
        (w * k + j) % (w as int) == j,
{
    assert(w * k + j == k * w + j) by (nonlinear_arith);
    lemma_fundamental_div_mod_converse(w * k + j, w as int, k, j);
}

/// The first `l` bits of word `k` are the word shifted right by `w - l`.
pub proof fn lemma_val_word_prefix(ws: Seq<int>, w: nat, k: int, l: nat)
    requires
        w > 0,
        0 <= k < ws.len(),
        0 <= ws[k] < pow2(w),
        l <= w,
    ensures
        stream_val(ws, w, w * k, l) == ws[k] / (pow2((w - l) as nat) as int),
    decreases l,
{
    let x = ws[k];
    if l == 0 {
        lemma_fundamental_div_mod_converse(x, pow2(w) as int, 0, x);
    } else {
        lemma_val_word_prefix(ws, w, k, (l - 1) as nat);
        let e = (w - l) as nat;
        lemma_pow2_pos(e);
        lemma_pow2_unfold(e + 1);
        assert((w - (l - 1)) as nat == e + 1);
        lemma_word_index(w, k, l - 1);
        assert(w * k + (l - 1) < w * ws.len()) by (nonlinear_arith)
            requires
                0 <= k < ws.len(),
                l - 1 < w,
        ;
        assert(w * k >= 0) by (nonlinear_arith)
            requires
                k >= 0,
        ;
        assert((w - 1 - (l - 1)) as nat == e);
        assert(stream_bit(ws, w, w * k + l - 1) == (x / (pow2(e) as int)) % 2);
        let y = x / (pow2(e) as int);
        lemma_div_denominator(x, pow2(e) as int, 2);
        assert(pow2(e + 1) == pow2(e) * 2);
        assert(x / (pow2(e + 1) as int) == y / 2);
        lemma_fundamental_div_mod(y, 2);
    }
}

/// A whole `w`-bit word read from the stream is the word itself.
pub proof fn lemma_val_word(ws: Seq<int>, w: nat, k: int)
    requires
        w > 0,
        0 <= k < ws.len(),
        0 <= ws[k] < pow2(w),
    ensures
        stream_val(ws, w, w * k, w) == ws[k],
{
    lemma_val_word_prefix(ws, w, k, w);
    lemma_pow2_zero();
}

/// Past the end of the stream every reading is zero.
pub proof fn lemma_val_past_end(ws: Seq<int>, w: nat, s: int, l: nat)
    requires
        s >= w * ws.len(),
    ensures
        stream_val(ws, w, s, l) == 0,
    decreases l,
{
    if l > 0 {
        lemma_val_past_end(ws, w, s, (l - 1) as nat);
    }
}

/// Appending a word does not change readings inside the old stream.
pub proof fn lemma_val_push(ws: Seq<int>, w: nat, x: int, s: int, l: nat)
    requires
        w > 0,
        s + l <= w * ws.len(),
    ensures
        stream_val(ws.push(x), w, s, l) == stream_val(ws, w, s, l),
{
    assert forall|t: int| 0 <= t < l implies #[trigger] same_bit(ws.push(x), w, s, ws, w, s, t) by {
        let i = s + t;
        if 0 <= i {
            lemma_fundamental_div_mod(i, w as int);
            let q = i / (w as int);
            let r = i % (w as int);
            assert(q < ws.len()) by (nonlinear_arith)
                requires
                    i == w * q + r,
                    0 <= r,
                    i < w * ws.len(),
                    w > 0,
            ;
            assert(w * ws.len() <= w * ws.push(x).len()) by (nonlinear_arith)
                requires
                    w > 0,
                    ws.push(x).len() == ws.len() + 1,
            ;
            assert(ws.push(x)[q] == ws[q]);
        }
    }
    lemma_val_ext(ws.push(x), w, s, ws, w, s, l);
}

/// `2^k` for small `k`.
pub fn pow2_u32(k: u32) -> (r: u32)
    requires
        k < 32,
    ensures
        r == pow2(k as nat),
{
    let mut r: u32 = 1;
    let mut i: u32 = 0;
    proof {
        lemma_pow2_zero();
    }
    while i < k
        invariant
            i <= k < 32,
            r == pow2(i as nat),
        decreases k - i,
    {
        proof {
            lemma_pow2_unfold((i + 1) as nat);
            vstd::arithmetic::power2::lemma_pow2_strictly_increases((i + 1) as nat, 32);
            vstd::arithmetic::power2::lemma2_to64();
        }
        r = r * 2;
        i = i + 1;
    }
    r
}

} // verus!
