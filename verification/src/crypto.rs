//! The two cryptographic primitives the verifier needs: Keccak-256 and
//! secp256k1 public-key recovery. Both are deterministic functions of their
//! inputs; their results are named by uninterpreted spec functions, and the
//! rest of the library is verified over those names.

use vstd::prelude::*;
use vstd::slice::slice_subrange;

verus! {

/// The Keccak-256 digest of a byte sequence.
pub uninterp spec fn keccak_of(data: Seq<u8>) -> Seq<u8>;

/// Relies on solana_program::keccak::hash: the Keccak-256 digest, 32 bytes,
/// a function of the input bytes alone.
#[verifier::external_body]
pub(crate) fn keccak256(data: &[u8]) -> (r: Vec<u8>)
    ensures
        r@ == keccak_of(data@),
        r@.len() == 32,
{
    solana_program::keccak::hash(data).to_bytes().to_vec()
}

/// The 64-byte secp256k1 public key recovered from a 32-byte digest, a
/// recovery id and a 64-byte signature, or `None` where the inputs are
/// rejected or no key can be recovered.
pub uninterp spec fn recover_of(digest: Seq<u8>, recovery_id: u8, signature: Seq<u8>) -> Option<
    Seq<u8>,
>;

/// Relies on solana_program::secp256k1_recover::secp256k1_recover: ECDSA
/// public-key recovery over the secp256k1 curve, a function of digest,
/// recovery id and signature alone; it errors (never panics) on a digest
/// that is not 32 bytes, a recovery id above 3, a malformed signature, or
/// a signature that recovers to no key.
#[verifier::external_body]
pub(crate) fn secp256k1_recover_pubkey(digest: &[u8], recovery_id: u8, signature: &[u8]) -> (r:
    Option<Vec<u8>>)
    ensures
        match r {
            Some(pk) => {
                &&& recover_of(digest@, recovery_id, signature@) == Some(pk@)
                &&& pk@.len() == 64
            },
            None => recover_of(digest@, recovery_id, signature@) is None,
        },
{
    match solana_program::secp256k1_recover::secp256k1_recover(digest, recovery_id, signature) {
        Ok(pk) => Some(pk.to_bytes().to_vec()),
        Err(_) => None,
    }
}

/// The 20-byte guardian address of a recovered public key: the last 20
/// bytes of its Keccak-256 digest.
pub open spec fn guardian_address_of(pubkey: Seq<u8>) -> Seq<u8> {
    keccak_of(pubkey).subrange(12, 32)
}

/// The guardian address attested by a 65-byte recoverable signature over a
/// digest: the address of the recovered key, or `None` where recovery
/// fails. The final byte of the signature is the recovery id.
pub open spec fn recovered_guardian(digest: Seq<u8>, sig65: Seq<u8>) -> Option<Seq<u8>>
    recommends
        sig65.len() == 65,
{
    match recover_of(digest, sig65[64], sig65.subrange(0, 64)) {
        Some(pk) => Some(guardian_address_of(pk)),
        None => None,
    }
}

/// Recovers the guardian address a signature attests over `digest`. The
/// digest must be exactly 32 bytes: the recovery call rejects other
/// lengths here, but its on-chain variant expects the caller to have
/// checked them.
pub fn recover_guardian_address(digest: &Vec<u8>, sig65: &Vec<u8>) -> (r: Option<Vec<u8>>)
    requires
        digest@.len() == 32,
        sig65@.len() == 65,
    ensures
        match r {
            Some(addr) => {
                &&& recovered_guardian(digest@, sig65@) == Some(addr@)
                &&& addr@.len() == 20
            },
            None => recovered_guardian(digest@, sig65@) is None,
        },
{
    let recovery_id = sig65[64];
    let sig64 = slice_subrange(sig65.as_slice(), 0, 64);
    match secp256k1_recover_pubkey(digest.as_slice(), recovery_id, sig64) {
        Some(pk) => {
            let hash = keccak256(pk.as_slice());
            let mut addr: Vec<u8> = Vec::new();
            let mut k: usize = 12;
            while k < 32
                invariant
                    hash@.len() == 32,
                    12 <= k <= 32,
                    addr@ == hash@.subrange(12, k as int),
                decreases 32 - k,
            {
                addr.push(hash[k]);
                proof {
                    assert(addr@ =~= hash@.subrange(12, k as int + 1));
                }
                k = k + 1;
            }
            proof {
                assert(addr@ == guardian_address_of(pk@));
            }
            Some(addr)
        },
        None => None,
    }
}

/// The digest guardians sign: the double Keccak-256 hash of the
/// attestation body (every byte after the signature list).
pub open spec fn double_keccak_of(body: Seq<u8>) -> Seq<u8> {
    keccak_of(keccak_of(body))
}

/// Computes the signing digest of an attestation body.
pub fn compute_signing_digest(body: &[u8]) -> (r: Vec<u8>)
    ensures
        r@ == double_keccak_of(body@),
        r@.len() == 32,
{
    let first = keccak256(body);
    keccak256(first.as_slice())
}

} // verus!
