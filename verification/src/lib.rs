//! Core verification logic for a guardian-attested cross-chain bridge.
//!
//! A quorum of guardians signs an attestation (a VAA, "Verified Action
//! Approval"); this crate parses the raw attestation bytes, recovers the
//! signers, checks them against a versioned guardian set, enforces the
//! quorum threshold, and prevents replay.

use vstd::prelude::*;

pub mod bridge;
pub mod bytes;
pub mod crypto;
pub mod cursor;
pub mod errors;
pub mod quorum;
pub mod registry;
pub mod replay;
pub mod sigverify;
pub mod vaa;

verus! {

/// Finality level the source-chain observer honored before signing.
/// The verifier treats the underlying byte as advisory and does not
/// enforce it.
pub enum ConsistencyLevel {
    Confirmed,
    Finalized,
}

impl ConsistencyLevel {
    /// Decodes the protocol's published encoding of the consistency byte.
    pub fn from_byte(b: u8) -> (r: Option<ConsistencyLevel>)
        ensures
            r == (if b == 1 {
                Some(ConsistencyLevel::Confirmed)
            } else if b == 32 {
                Some(ConsistencyLevel::Finalized)
            } else {
                None::<ConsistencyLevel>
            }),
    {
        if b == 1 {
            Some(ConsistencyLevel::Confirmed)
        } else if b == 32 {
            Some(ConsistencyLevel::Finalized)
        } else {
            None
        }
    }
}

} // verus!
