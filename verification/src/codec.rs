//! Framing of message payloads inside consensus transactions.
//!
//! Payloads are JSON text; the JSON itself is produced and parsed outside
//! this library.  A payload may carry one trailing NUL byte, as text sent
//! the way C strings are.

use vstd::prelude::*;

verus! {

/// The payload without its trailing NUL byte, if it has one.
pub open spec fn unframed(bytes: Seq<u8>) -> Seq<u8> {
    if bytes.len() > 0 && bytes.last() == 0 {
        bytes.drop_last()
    } else {
        bytes
    }
}

/// The payload of a transaction: its bytes less one trailing NUL byte.
pub fn payload_of(bytes: &[u8]) -> (r: Vec<u8>)
    ensures
        r@ == unframed(bytes@),
{
    let n = bytes.len();
    let end: usize = if n > 0 && bytes[n - 1] == 0 { n - 1 } else { n };
    let mut out: Vec<u8> = Vec::new();
    let mut i: usize = 0;
    while i < end
        invariant
            end <= n,
            n == bytes@.len(),
            i <= end,
            out@ == bytes@.take(i as int),
        decreases end - i,
    {
        out.push(bytes[i]);
        proof {
            assert(bytes@.take(i + 1) =~= bytes@.take(i as int).push(bytes@[i as int]));
        }
        i = i + 1;
    }
    proof {
        if end == n {
            assert(bytes@.take(n as int) =~= bytes@);
        } else {
            assert(bytes@.take(end as int) =~= bytes@.drop_last());
        }
    }
    out
}

/// The bytes of `s` followed by one NUL byte.
pub fn nul_terminated(s: &str) -> (r: Vec<u8>)
    ensures
        r@ == vstd::utf8::encode_utf8(s@).push(0u8),
{
    let b = s.as_bytes();
    let mut out: Vec<u8> = Vec::new();
    crate::crypto::push_bytes(&mut out, b);
    out.push(0u8);
    out
}

/// Framing a text with a NUL byte and taking the payload back gives the
/// text's bytes; a payload without a trailing NUL is taken as it is.
pub proof fn lemma_unframe_framed(text: Seq<u8>)
    ensures
        unframed(text.push(0u8)) == text,
        text.len() == 0 || text.last() != 0 ==> unframed(text) == text,
{
    assert(text.push(0u8).drop_last() =~= text);
}

} // verus!
