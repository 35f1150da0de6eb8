//! The byte framing between the server and its isolated world-lab worker
//! process.
//!
//! Request (to the worker's stdin): `[u64 LE wasm_len][wasm][u64 LE
//! input_len][input]`. Response (from its stdout): `[u8: 1 ok / 0 error][u64
//! LE fuel consumed, 0 on error][u64 LE payload_len][payload]`, the payload
//! being the output bytes or the UTF-8 error message.

use vstd::prelude::*;
use vstd::utf8::{encode_utf8, decode_utf8, valid_utf8};
use vstd::string::StringSliceAdditionalSpecFns;

verus! {

/// `256^k`.
pub open spec fn pow256(k: nat) -> nat
    decreases k,
{
    if k == 0 {
        1
    } else {
        256 * pow256((k - 1) as nat)
    }
}

/// The `k` little-endian bytes of `n`.
pub open spec fn le_bytes(n: nat, k: nat) -> Seq<u8>
    decreases k,
{
    if k == 0 {
        seq![]
    } else {
        seq![(n % 256) as u8] + le_bytes(n / 256, (k - 1) as nat)
    }
}

/// The number that little-endian bytes stand for.
pub open spec fn le_value(b: Seq<u8>) -> nat
    decreases b.len(),
{
    if b.len() == 0 {
        0
    } else {
        b[0] as nat + 256 * le_value(b.drop_first())
    }
}

/// Reading back the bytes of a number gives the number.
pub proof fn le_round_trip(n: nat, k: nat)
    requires
        n < pow256(k),
    ensures
        le_bytes(n, k).len() == k,
        le_value(le_bytes(n, k)) == n,
    decreases k,
{
    if k > 0 {
        let km = (k - 1) as nat;
        assert(n / 256 < pow256(km)) by (nonlinear_arith)
            requires
                n < 256 * pow256(km),
        ;
        le_round_trip(n / 256, km);
        let b = le_bytes(n, k);
        assert(b.drop_first() =~= le_bytes(n / 256, km));
    }
}

proof fn lemma_le_value_bound(b: Seq<u8>)
    ensures
        le_value(b) < pow256(b.len()),
    decreases b.len(),
{
    if b.len() > 0 {
        lemma_le_value_bound(b.drop_first());
        let r = le_value(b.drop_first());
        let p = pow256(b.drop_first().len());
        assert(b[0] as nat + 256 * r < 256 * p) by (nonlinear_arith)
            requires
                r < p,
                b[0] < 256,
        ;
    }
}

proof fn lemma_pow256_8()
    ensures
        pow256(8) == 0x10000000000000000,
{
    reveal_with_fuel(pow256, 9);
}

/// The eight little-endian bytes of `n`.
pub fn u64_le_bytes(n: u64) -> (r: Vec<u8>)
    ensures
        r@ == le_bytes(n as nat, 8),
{
    let mut out: Vec<u8> = Vec::new();
    let mut x: u64 = n;
    let mut k: usize = 0;
    while k < 8
        invariant
            k <= 8,
            out@ + le_bytes(x as nat, (8 - k) as nat) == le_bytes(n as nat, 8),
        decreases 8 - k,
    {
        let ghost before = out@;
        let ghost rest = le_bytes(x as nat, (8 - k) as nat);
        assert(rest == seq![(x % 256) as u8] + le_bytes((x / 256) as nat, (8 - k - 1) as nat));
        out.push((x % 256) as u8);
        x = x / 256;
        k = k + 1;
        assert(out@ + le_bytes(x as nat, (8 - k) as nat) =~= before + rest);
    }
    assert(le_bytes(x as nat, 0) =~= Seq::<u8>::empty());
    assert(out@ =~= out@ + le_bytes(x as nat, 0));
    out
}

/// The number in the eight bytes of `buf` at `at`.
pub fn read_u64_le(buf: &[u8], at: usize) -> (r: u64)
    requires
        at + 8 <= buf@.len(),
    ensures
        r as nat == le_value(buf@.subrange(at as int, at + 8)),
{
    let mut v: u64 = 0;
    let mut i: usize = 8;
    proof {
        assert(buf@.subrange(at + 8, at + 8) =~= Seq::<u8>::empty());
    }
    while i > 0
        invariant
            i <= 8,
            at + 8 <= buf@.len(),
            buf@.len() == buf.len(),
            v as nat == le_value(buf@.subrange(at + i, at + 8)),
        decreases i,
    {
        let ghost tail = buf@.subrange(at + i, at + 8);
        let ghost whole = buf@.subrange(at + i - 1, at + 8);
        proof {
            assert(whole.drop_first() =~= tail);
            lemma_le_value_bound(tail);
            lemma_pow256_8();
            assert(pow256(tail.len()) <= pow256(7)) by {
                reveal_with_fuel(pow256, 9);
            }
            assert(v as nat * 256 + 255 < 0x10000000000000000) by {
                reveal_with_fuel(pow256, 9);
            }
        }
        let b = buf[at + i - 1];
        v = v * 256 + b as u64;
        i = i - 1;
    }
    v
}

fn push_all(out: &mut Vec<u8>, b: &[u8])
    ensures
        final(out)@ == old(out)@ + b@,
{
    let mut i: usize = 0;
    while i < b.len()
        invariant
            i <= b.len(),
            out@ == old(out)@ + b@.take(i as int),
        decreases b.len() - i,
    {
        out.push(b[i]);
        i = i + 1;
        assert(out@ =~= old(out)@ + b@.take(i as int));
    }
    assert(b@.take(i as int) =~= b@);
}

fn copy_range(b: &[u8], from: usize, to: usize) -> (r: Vec<u8>)
    requires
        from <= to <= b@.len(),
    ensures
        r@ == b@.subrange(from as int, to as int),
{
    let mut out: Vec<u8> = Vec::new();
    let mut i: usize = from;
    while i < to
        invariant
            from <= i <= to,
            to <= b@.len(),
            out@ == b@.subrange(from as int, i as int),
        decreases to - i,
    {
        out.push(b[i]);
        i = i + 1;
        assert(out@ =~= b@.subrange(from as int, i as int));
    }
    out
}

// ---------------------------------------------------------------------------
// Requests

/// The request frame for a module and its input.
pub open spec fn request_frame(wasm: Seq<u8>, input: Seq<u8>) -> Seq<u8> {
    le_bytes(wasm.len(), 8) + wasm + le_bytes(input.len(), 8) + input
}

/// The error of a read that ran out of bytes.
pub open spec fn short_read(what: Seq<char>) -> Seq<char> {
    "failed to read "@ + what + ": failed to fill whole buffer"@
}

/// What the worker reads from a request frame: the module and the input,
/// or the first field that was cut short. Bytes after the input are ignored.
pub open spec fn parse_request_spec(buf: Seq<u8>) -> Result<(Seq<u8>, Seq<u8>), Seq<char>> {
    if buf.len() < 8 {
        Err(short_read("wasm_len"@))
    } else {
        let wl = le_value(buf.subrange(0, 8)) as int;
        if buf.len() - 8 < wl {
            Err(short_read("wasm bytes"@))
        } else if buf.len() - 8 - wl < 8 {
            Err(short_read("input_len"@))
        } else {
            let il = le_value(buf.subrange(8 + wl, 16 + wl)) as int;
            if buf.len() - 16 - wl < il {
                Err(short_read("input bytes"@))
            } else {
                Ok((buf.subrange(8, 8 + wl), buf.subrange(16 + wl, 16 + wl + il)))
            }
        }
    }
}

/// Frames a module and its input for the worker.
pub fn encode_request(wasm: &[u8], input: &[u8]) -> (r: Vec<u8>)
    ensures
        r@ == request_frame(wasm@, input@),
{
    let mut out = u64_le_bytes(wasm.len() as u64);
    push_all(&mut out, wasm);
    let n = u64_le_bytes(input.len() as u64);
    push_all(&mut out, n.as_slice());
    push_all(&mut out, input);
    out
}

fn short_read_error(what: &str) -> (s: String)
    ensures
        s@ == short_read(what@),
{
    let mut out: Vec<char> = Vec::new();
    crate::text::push_str(&mut out, "failed to read ");
    crate::text::push_str(&mut out, what);
    crate::text::push_str(&mut out, ": failed to fill whole buffer");
    crate::text::string_from_chars(&out)
}

/// Reads a request frame.
pub fn parse_request(buf: &[u8]) -> (r: Result<(Vec<u8>, Vec<u8>), String>)
    ensures
        match (r, parse_request_spec(buf@)) {
            (Ok((w, i)), Ok((sw, si))) => w@ == sw && i@ == si,
            (Err(m), Err(sm)) => m@ == sm,
            _ => false,
        },
{
    let n = buf.len();
    if n < 8 {
        return Err(short_read_error("wasm_len"));
    }
    let wl = read_u64_le(buf, 0);
    if ((n - 8) as u64) < wl {
        return Err(short_read_error("wasm bytes"));
    }
    let wl = wl as usize;
    if n - 8 - wl < 8 {
        return Err(short_read_error("input_len"));
    }
    let il = read_u64_le(buf, 8 + wl);
    if ((n - 16 - wl) as u64) < il {
        return Err(short_read_error("input bytes"));
    }
    let il = il as usize;
    let wasm = copy_range(buf, 8, 8 + wl);
    let input = copy_range(buf, 16 + wl, 16 + wl + il);
    Ok((wasm, input))
}

/// The worker reads back exactly the module and input that were framed.
pub proof fn request_round_trip(wasm: Seq<u8>, input: Seq<u8>)
    requires
        wasm.len() < 0x10000000000000000,
        input.len() < 0x10000000000000000,
    ensures
        parse_request_spec(request_frame(wasm, input)) == Ok::<(Seq<u8>, Seq<u8>), Seq<char>>((wasm, input)),
{
    lemma_pow256_8();
    le_round_trip(wasm.len(), 8);
    le_round_trip(input.len(), 8);
    let f = request_frame(wasm, input);
    let wl = wasm.len() as int;
    let il = input.len() as int;
    assert(f.subrange(0, 8) =~= le_bytes(wasm.len(), 8));
    assert(f.subrange(8, 8 + wl) =~= wasm);
    assert(f.subrange(8 + wl, 16 + wl) =~= le_bytes(input.len(), 8));
    assert(f.subrange(16 + wl, 16 + wl + il) =~= input);
}

// ---------------------------------------------------------------------------
// Responses

/// The response frame: status byte, fuel, payload length, payload.
pub open spec fn response_frame(ok: bool, fuel: nat, payload: Seq<u8>) -> Seq<u8> {
    seq![if ok { 1u8 } else { 0u8 }] + le_bytes(fuel, 8) + le_bytes(payload.len(), 8) + payload
}

/// What the server reads from a response: status byte, fuel and payload;
/// `None` when the frame was cut short (the worker died).
pub open spec fn parse_response_spec(buf: Seq<u8>) -> Option<(u8, nat, Seq<u8>)> {
    if buf.len() < 17 {
        None
    } else {
        let pl = le_value(buf.subrange(9, 17)) as int;
        if buf.len() - 17 < pl {
            None
        } else {
            Some((buf[0], le_value(buf.subrange(1, 9)), buf.subrange(17, 17 + pl)))
        }
    }
}

/// Frames a worker's result: the output and fuel, or the error message.
pub fn encode_response(result: &Result<(Vec<u8>, u64), String>) -> (r: Vec<u8>)
    ensures
        match result {
            Ok((out, fuel)) => r@ == response_frame(true, *fuel as nat, out@),
            Err(e) => r@ == response_frame(false, 0, encode_utf8(e@)),
        },
{
    let mut frame: Vec<u8> = Vec::new();
    match result {
        Ok((output, fuel)) => {
            frame.push(1u8);
            let f = u64_le_bytes(*fuel);
            push_all(&mut frame, f.as_slice());
            let l = u64_le_bytes(output.len() as u64);
            push_all(&mut frame, l.as_slice());
            push_all(&mut frame, output.as_slice());
            assert(frame@ =~= response_frame(true, *fuel as nat, output@));
        },
        Err(e) => {
            let payload = e.as_str().as_bytes();
            frame.push(0u8);
            let f = u64_le_bytes(0);
            push_all(&mut frame, f.as_slice());
            let l = u64_le_bytes(payload.len() as u64);
            push_all(&mut frame, l.as_slice());
            push_all(&mut frame, payload);
            assert(frame@ =~= response_frame(false, 0, encode_utf8(e@)));
        },
    }
    frame
}

/// Reads a response frame.
pub fn parse_response(buf: &[u8]) -> (r: Option<(u8, u64, Vec<u8>)>)
    ensures
        match (r, parse_response_spec(buf@)) {
            (Some((s, f, p)), Some((ss, sf, sp))) => s == ss && f as nat == sf && p@ == sp,
            (None, None) => true,
            _ => false,
        },
{
    let n = buf.len();
    if n < 17 {
        return None;
    }
    let pl = read_u64_le(buf, 9);
    if ((n - 17) as u64) < pl {
        return None;
    }
    let fuel = read_u64_le(buf, 1);
    let payload = copy_range(buf, 17, 17 + pl as usize);
    Some((buf[0], fuel, payload))
}

/// Name for what `String::from_utf8_lossy` makes of some bytes.
pub uninterp spec fn utf8_lossy(b: Seq<u8>) -> Seq<char>;

/// `std`'s `String::from_utf8_lossy`, owned. Its result is named by
/// `utf8_lossy`; for valid UTF-8 the documentation promises the decoded
/// text itself (invalid sequences would become U+FFFD, which is not
/// stated).
#[verifier::external_body]
pub(crate) fn lossy_string(b: &[u8]) -> (s: String)
    ensures
        s@ == utf8_lossy(b@),
        valid_utf8(b@) ==> s@ == decode_utf8(b@),
{
    String::from_utf8_lossy(b).into_owned()
}

/// The result a response carries: the payload and fuel when the status is
/// 1, else the payload read as an error message.
pub fn response_result(status: u8, fuel: u64, payload: &[u8]) -> (r: Result<(Vec<u8>, u64), String>)
    ensures
        status == 1 ==> (r matches Ok((out, f)) && out@ == payload@ && f == fuel),
        status != 1 ==> (r matches Err(m) && m@ == utf8_lossy(payload@)),
{
    if status == 1 {
        Ok((copy_range(payload, 0, payload.len()), fuel))
    } else {
        Err(lossy_string(payload))
    }
}

/// The server reads back exactly what the worker framed: the output and
/// fuel of a success, or the text of an error.
pub proof fn response_round_trip(ok: bool, fuel: nat, payload: Seq<u8>)
    requires
        fuel < 0x10000000000000000,
        payload.len() < 0x10000000000000000,
    ensures
        parse_response_spec(response_frame(ok, fuel, payload)) == Some((if ok { 1u8 } else { 0u8 }, fuel, payload)),
{
    lemma_pow256_8();
    le_round_trip(fuel, 8);
    le_round_trip(payload.len(), 8);
    let f = response_frame(ok, fuel, payload);
    let pl = payload.len() as int;
    assert(f.subrange(1, 9) =~= le_bytes(fuel, 8));
    assert(f.subrange(9, 17) =~= le_bytes(payload.len(), 8));
    assert(f.subrange(17, 17 + pl) =~= payload);
}

/// An error message sent by the worker arrives unchanged.
pub proof fn error_message_round_trip(e: Seq<char>)
    ensures
        valid_utf8(encode_utf8(e)),
        decode_utf8(encode_utf8(e)) == e,
{
    vstd::utf8::encode_utf8_valid_utf8(e);
    vstd::utf8::encode_utf8_decode_utf8(e);
}

} // verus!
