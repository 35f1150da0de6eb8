//! Secure random bytes from the operating system, and the hexadecimal
//! tokens made from them.

use vstd::prelude::*;
use crate::text::{hex_lower, hex_lower_char, string_from_chars};

verus! {

/// `ring::rand::SystemRandom::fill`: `len` bytes from the operating system's
/// secure random source, or `None` when that source reports a failure. What
/// the bytes are is left open.
#[verifier::external_body]
pub(crate) fn secure_random_bytes(len: usize) -> (res: Option<Vec<u8>>)
    ensures
        res matches Some(v) ==> v@.len() == len,
{
    let mut buf = vec![0u8; len];
    match ring::rand::SecureRandom::fill(&ring::rand::SystemRandom::new(), &mut buf) {
        Ok(()) => Some(buf),
        Err(_) => None,
    }
}

/// Lower-case hexadecimal, two digits per byte.
pub open spec fn hex_of(bytes: Seq<u8>) -> Seq<char>
    decreases bytes.len(),
{
    if bytes.len() == 0 {
        seq![]
    } else {
        hex_of(bytes.drop_last()) + seq![
            hex_lower((bytes.last() / 16) as int),
            hex_lower((bytes.last() % 16) as int),
        ]
    }
}

/// Formats `bytes` as lower-case hexadecimal (`{b:02x}` per byte).
pub fn hex_string(bytes: &Vec<u8>) -> (res: String)
    ensures
        res@ == hex_of(bytes@),
{
    let mut out: Vec<char> = Vec::new();
    let mut i: usize = 0;
    while i < bytes.len()
        invariant
            i <= bytes@.len(),
            out@ == hex_of(bytes@.take(i as int)),
        decreases bytes@.len() - i,
    {
        let b = bytes[i];
        assert(bytes@.take(i + 1).drop_last() =~= bytes@.take(i as int));
        out.push(hex_lower_char(b / 16));
        out.push(hex_lower_char(b % 16));
        i = i + 1;
        assert(out@ =~= hex_of(bytes@.take(i as int)));
    }
    assert(bytes@.take(bytes@.len() as int) =~= bytes@);
    string_from_chars(&out)
}

/// `len_bytes` secure random bytes as lower-case hexadecimal, or `None`
/// when the random source fails.
pub fn random_hex(len_bytes: usize) -> (res: Option<String>)
    ensures
        res matches Some(s) ==> exists|b: Seq<u8>| b.len() == len_bytes && s@ == hex_of(b),
{
    match secure_random_bytes(len_bytes) {
        None => None,
        Some(buf) => {
            let s = hex_string(&buf);
            Some(s)
        },
    }
}

} // verus!
