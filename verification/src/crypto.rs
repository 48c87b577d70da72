//! Hashing and signature verification. The two primitives themselves are
//! computed outside this library; what is stated of them here is taken on
//! trust.

use vstd::prelude::*;
use crate::primitives::H256;

verus! {

/// The BLAKE2b digest, 256 bits long, of `data`.
pub uninterp spec fn blake2_256_digest(data: Seq<u8>) -> Seq<u8>;

/// Whether Ed25519 verification accepts `signature` (64 bytes) as a signature
/// of `message` under the public key `public` (32 bytes).
pub uninterp spec fn ed25519_accepts(public: Seq<u8>, message: Seq<u8>, signature: Seq<u8>) -> bool;

/// Calls `sp_runtime::traits::BlakeTwo256::hash`, the hasher of the bridged
/// chain. Trusted: the result is the BLAKE2b-256 digest of `data`, a function
/// of those bytes alone.
#[verifier::external_body]
fn blake2_256_of(data: &[u8]) -> (digest: H256)
    ensures
        digest@ == blake2_256_digest(data@),
{
    <sp_runtime::traits::BlakeTwo256 as sp_runtime::traits::Hash>::hash(data).0
}

/// Calls `sp_core::ed25519::Pair::verify`. Trusted: the result says whether
/// the signature verifies, a function of the three byte strings alone; the
/// call returns `false` rather than fail on bytes that are no valid key or
/// signature.
#[verifier::external_body]
fn ed25519_verify(public: &[u8; 32], message: &[u8], signature: &[u8; 64]) -> (ok: bool)
    ensures
        ok == ed25519_accepts(public@, message@, signature@),
{
    let public = sp_core::ed25519::Public::from_raw(*public);
    let signature = sp_core::ed25519::Signature::from_raw(*signature);
    <sp_core::ed25519::Pair as sp_core::Pair>::verify(&signature, message, &public)
}

/// Hashes `data` with the hasher of the bridged chain.
pub fn blake2_256(data: &[u8]) -> (digest: H256)
    ensures
        digest@ == blake2_256_digest(data@),
{
    blake2_256_of(data)
}

/// Whether `signature` is a valid signature of `message` by `public`: the
/// key has 32 bytes, the signature 64, and Ed25519 verification accepts them.
pub open spec fn signature_valid(public: Seq<u8>, message: Seq<u8>, signature: Seq<u8>) -> bool {
    &&& public.len() == 32
    &&& signature.len() == 64
    &&& ed25519_accepts(public, message, signature)
}

/// Verifies `signature` over `message` under the key `public`. Bytes of the
/// wrong length are rejected.
pub fn verify_signature(public: &[u8], message: &[u8], signature: &[u8]) -> (ok: bool)
    ensures
        ok == signature_valid(public@, message@, signature@),
{
    if public.len() != 32 || signature.len() != 64 {
        return false;
    }
    let mut key: [u8; 32] = [0u8; 32];
    let mut i: usize = 0;
    while i < 32
        invariant
            i <= 32,
            public@.len() == 32,
            forall|j: int| 0 <= j < i ==> key@[j] == public@[j],
        decreases 32 - i,
    {
        key[i] = public[i];
        i += 1;
    }
    let mut sig: [u8; 64] = [0u8; 64];
    let mut k: usize = 0;
    while k < 64
        invariant
            k <= 64,
            signature@.len() == 64,
            forall|j: int| 0 <= j < k ==> sig@[j] == signature@[j],
        decreases 64 - k,
    {
        sig[k] = signature[k];
        k += 1;
    }
    assert(key@ =~= public@);
    assert(sig@ =~= signature@);
    ed25519_verify(&key, message, &sig)
}

} // verus!
