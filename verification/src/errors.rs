//! Error kinds for the verification core. Every failure is terminal for
//! the attempted verification; none is retried internally.

use vstd::prelude::*;

verus! {

/// The reason a verification attempt was rejected.
#[derive(Clone, Copy, PartialEq, Eq, Structural, Debug)]
pub enum BridgeError {
    /// A read ran past the end of the attestation bytes.
    TruncatedInput,
    /// The version byte is not the supported version.
    UnsupportedVersion,
    /// Signature guardian indices are not strictly ascending.
    UnorderedSignatures,
    /// The declared signature count exceeds the maximum guardian-set size.
    TooManySignatures,
    /// The attestation carries no payload bytes.
    EmptyPayload,
    /// The referenced guardian set is unknown or out of its validity window.
    SetExpired,
    /// The signature at this guardian index does not recover to the
    /// guardian's address.
    SignerMismatch(u8),
    /// Too few valid signatures for the guardian-set size.
    QuorumNotMet,
    /// The attestation's replay key was already consumed.
    AlreadyProcessed,
}

} // verus!
