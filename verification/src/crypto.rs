//! Demo signatures and proof-of-delivery hashes built on SHA-256.
//!
//! Every function here hashes a byte string that it assembles from its
//! arguments (integers in little-endian order, strings as their UTF-8
//! bytes); the hashing itself is done by the `sha2` crate.

use vstd::prelude::*;
use vstd::utf8::encode_utf8;

use sha2::Digest;

verus! {

/// The SHA-256 digest of `data`, as computed by `sha2::Sha256`.
pub uninterp spec fn sha256_digest(data: Seq<u8>) -> Seq<u8>;

/// Calls `sha2::Sha256::digest`; the contract claims that the result is the
/// digest of exactly the bytes given (named `sha256_digest`) and that it is
/// 32 bytes long, the output size of `Sha256`.
#[verifier::external_body]
fn sha256(data: &[u8]) -> (r: Vec<u8>)
    ensures
        r@ == sha256_digest(data@),
        r@.len() == 32,
{
    sha2::Sha256::digest(data).to_vec()
}

/// The little-endian bytes of `x`.
pub open spec fn le_bytes(x: u64) -> Seq<u8> {
    seq![
        x as u8,
        (x >> 8u64) as u8,
        (x >> 16u64) as u8,
        (x >> 24u64) as u8,
        (x >> 32u64) as u8,
        (x >> 40u64) as u8,
        (x >> 48u64) as u8,
        (x >> 56u64) as u8,
    ]
}

/// Append the bytes of `s` to `v`.
pub fn push_bytes(v: &mut Vec<u8>, s: &[u8])
    ensures
        final(v)@ == old(v)@ + s@,
{
    let n = s.len();
    let mut i: usize = 0;
    while i < n
        invariant
            n == s@.len(),
            i <= n,
            v@ == old(v)@ + s@.take(i as int),
        decreases n - i,
    {
        v.push(s[i]);
        i = i + 1;
        proof {
            assert(s@.take(i as int) =~= s@.take(i - 1).push(s@[i - 1]));
        }
    }
    proof {
        assert(s@.take(n as int) =~= s@);
    }
}

/// Append the little-endian bytes of `x` to `v`.
pub fn push_le_u64(v: &mut Vec<u8>, x: u64)
    ensures
        final(v)@ == old(v)@ + le_bytes(x),
{
    v.push(x as u8);
    v.push((x >> 8u64) as u8);
    v.push((x >> 16u64) as u8);
    v.push((x >> 24u64) as u8);
    v.push((x >> 32u64) as u8);
    v.push((x >> 40u64) as u8);
    v.push((x >> 48u64) as u8);
    v.push((x >> 56u64) as u8);
    proof {
        assert(v@ =~= old(v)@ + le_bytes(x));
    }
}

/// The bytes a proof-of-delivery hash is taken over: position (the bit
/// patterns of the two `f64` coordinates), timestamp and order id.
pub open spec fn proof_hash_input(lat_bits: u64, lon_bits: u64, timestamp_ms: u64, order_id: u64) -> Seq<u8> {
    le_bytes(lat_bits) + le_bytes(lon_bits) + le_bytes(timestamp_ms) + le_bytes(order_id)
}

/// Proof-of-delivery hash: SHA-256(lat || lon || timestamp || order id),
/// with the coordinates given as their `f64` bit patterns.
pub fn proof_hash(lat_bits: u64, lon_bits: u64, timestamp_ms: u64, order_id: u64) -> (r: Vec<u8>)
    ensures
        r@ == sha256_digest(proof_hash_input(lat_bits, lon_bits, timestamp_ms, order_id)),
{
    let mut data: Vec<u8> = Vec::new();
    push_le_u64(&mut data, lat_bits);
    push_le_u64(&mut data, lon_bits);
    push_le_u64(&mut data, timestamp_ms);
    push_le_u64(&mut data, order_id);
    proof {
        assert(data@ =~= proof_hash_input(lat_bits, lon_bits, timestamp_ms, order_id));
    }
    sha256(data.as_slice())
}

/// The signature of `message` under `key`: SHA-256(key || message).
pub open spec fn signature_of(key: Seq<u8>, message: Seq<u8>) -> Seq<u8> {
    sha256_digest(key + message)
}

/// Sign `message` with `secret_key_bytes`: SHA-256(key || message).
pub fn sign_message(secret_key_bytes: &[u8], message: &[u8]) -> (r: Vec<u8>)
    ensures
        r@ == signature_of(secret_key_bytes@, message@),
{
    let mut data: Vec<u8> = Vec::new();
    push_bytes(&mut data, secret_key_bytes);
    push_bytes(&mut data, message);
    proof {
        assert(data@ =~= secret_key_bytes@ + message@);
    }
    sha256(data.as_slice())
}

/// Whether `signature` is the signature `sign_message` gives for
/// `message` under `secret_key_bytes`.
pub fn verify_signature(secret_key_bytes: &[u8], message: &[u8], signature: &[u8]) -> (r: bool)
    ensures
        r == (signature_of(secret_key_bytes@, message@) == signature@),
{
    let expected = sign_message(secret_key_bytes, message);
    crate::text::bytes_eq(expected.as_slice(), signature)
}

/// A deterministic 32-byte demo key derived from a seed: SHA-256 of the
/// seed's UTF-8 bytes.
pub fn derive_key(seed: &str) -> (r: Vec<u8>)
    ensures
        r@ == sha256_digest(encode_utf8(seed@)),
        r@.len() == 32,
{
    sha256(seed.as_bytes())
}

/// The client signature that authorises an escrow: SHA-256(order id || amount).
pub open spec fn escrow_signature_of(order_id: u64, amount: u64) -> Seq<u8> {
    sha256_digest(le_bytes(order_id) + le_bytes(amount))
}

/// Produce a client escrow signature: SHA-256(order id || amount).
pub fn client_escrow_signature(order_id: u64, amount: u64) -> (r: Vec<u8>)
    ensures
        r@ == escrow_signature_of(order_id, amount),
{
    let mut data: Vec<u8> = Vec::new();
    push_le_u64(&mut data, order_id);
    push_le_u64(&mut data, amount);
    sha256(data.as_slice())
}

/// The bytes a validator signs: key || escrow id || recipient || amount.
pub open spec fn validator_input(key: Seq<u8>, escrow_id: u64, to_agent: Seq<char>, amount: u64) -> Seq<u8> {
    key + le_bytes(escrow_id) + encode_utf8(to_agent) + le_bytes(amount)
}

/// Validator signature over an escrow release:
/// SHA-256(key || escrow id || recipient || amount).
pub fn validator_signature(validator_key: &[u8], escrow_id: u64, to_agent: &str, amount: u64) -> (r:
    Vec<u8>)
    ensures
        r@ == sha256_digest(validator_input(validator_key@, escrow_id, to_agent@, amount)),
        r@.len() == 32,
{
    let mut data: Vec<u8> = Vec::new();
    push_bytes(&mut data, validator_key);
    push_le_u64(&mut data, escrow_id);
    push_bytes(&mut data, to_agent.as_bytes());
    push_le_u64(&mut data, amount);
    proof {
        assert(data@ =~= validator_input(validator_key@, escrow_id, to_agent@, amount));
    }
    sha256(data.as_slice())
}

} // verus!
