//! The orchestrator: one externally callable operation that parses a raw
//! attestation, resolves the guardian set in force, recovers and matches
//! every signer, checks quorum, and consumes the replay key — in that
//! order, short-circuiting on the first failure. The replay record is
//! written only on full success.

use vstd::prelude::*;
use vstd::slice::slice_subrange;

use crate::bytes::append_bytes;
use crate::crypto::{compute_signing_digest, double_keccak_of};
use crate::errors::BridgeError;
use crate::quorum::{has_quorum, quorum_threshold};
use crate::registry::{registry_well_formed, set_in_force, GuardianSetRegistry, GuardianSetView};
use crate::replay::{contains_key, replay_guard_well_formed, ReplayGuard, ReplayKey, ReplayKeyView};
use crate::sigverify::{first_failing, recover_signers};
use crate::vaa::{body_start, parse_vaa, parse_vaa_spec, VaaView, SIG_ENTRY_BYTES, VAA_HEADER_BYTES};

verus! {

/// What a successful verification releases to the caller: the payload to
/// act on, and the replay triple for idempotent action-taking.
pub struct VerifiedMessage {
    pub emitter_chain: u16,
    pub emitter_address: Vec<u8>,
    pub sequence: u64,
    pub payload: Vec<u8>,
}

/// The replay key of an attestation: emitter chain, emitter address and
/// sequence.
pub open spec fn replay_key_of(v: VaaView) -> ReplayKeyView {
    ReplayKeyView {
        emitter_chain: v.emitter_chain,
        emitter_address: v.emitter_address,
        sequence: v.sequence,
    }
}

/// The signed body of a raw attestation with `n` signatures: every byte
/// after the signature list.
pub open spec fn signing_body_of(bytes: Seq<u8>, n: int) -> Seq<u8> {
    bytes.subrange(body_start(n), bytes.len() as int)
}

/// What one verification attempt decides, given the raw bytes, the
/// registry's sets and the already-consumed replay keys: the parsed
/// attestation on success, and the first failure otherwise, in the order
/// parse, set resolution, signer recovery, quorum, replay.
pub open spec fn verify_outcome(
    bytes: Seq<u8>,
    sets: Seq<GuardianSetView>,
    consumed: Seq<ReplayKeyView>,
) -> Result<VaaView, BridgeError> {
    match parse_vaa_spec(bytes) {
        Err(e) => Err(e),
        Ok(v) => {
            if !set_in_force(sets, v.guardian_set_index, v.timestamp) {
                Err(BridgeError::SetExpired)
            } else {
                let set = sets[v.guardian_set_index as int];
                let digest = double_keccak_of(signing_body_of(bytes, v.signatures.len() as int));
                match first_failing(digest, v.signatures, set.guardians) {
                    Some(gi) => Err(BridgeError::SignerMismatch(gi)),
                    None => {
                        if v.signatures.len() < quorum_threshold(set.guardians.len()) {
                            Err(BridgeError::QuorumNotMet)
                        } else if contains_key(consumed, replay_key_of(v)) {
                            Err(BridgeError::AlreadyProcessed)
                        } else {
                            Ok(v)
                        }
                    },
                }
            }
        },
    }
}

/// Verifies and consumes one raw attestation. On success the parsed
/// attestation's payload and replay triple are released and the replay key
/// is recorded; on failure the verdict of `verify_outcome` is returned and
/// nothing is recorded.
#[verifier::rlimit(100)]
#[verifier::spinoff_prover]
pub fn verify_and_consume(
    bytes: &[u8],
    registry: &GuardianSetRegistry,
    replay: &mut ReplayGuard,
) -> (r: Result<VerifiedMessage, BridgeError>)
    requires
        registry_well_formed(registry@),
        replay_guard_well_formed(old(replay)@),
    ensures
        replay_guard_well_formed(final(replay)@),
        match r {
            Ok(m) => {
                let outcome = verify_outcome(bytes@, registry@, old(replay)@);
                &&& outcome is Ok
                &&& m.emitter_chain == outcome->Ok_0.emitter_chain
                &&& m.emitter_address@ == outcome->Ok_0.emitter_address
                &&& m.sequence == outcome->Ok_0.sequence
                &&& m.payload@ == outcome->Ok_0.payload
                &&& final(replay)@ == old(replay)@.push(replay_key_of(outcome->Ok_0))
            },
            Err(e) => {
                &&& verify_outcome(bytes@, registry@, old(replay)@) == Err::<
                    VaaView,
                    BridgeError,
                >(e)
                &&& final(replay)@ == old(replay)@
            },
        },
{
    let parsed = match parse_vaa(bytes) {
        Ok(p) => p,
        Err(e) => {
            return Err(e);
        },
    };
    let ghost v = parsed@;
    let set = match registry.set_in_force_at(parsed.guardian_set_index, parsed.timestamp) {
        Ok(s) => s,
        Err(e) => {
            return Err(e);
        },
    };
    let nsigs = parsed.signatures.len();
    proof {
        assert(v.signatures.len() == nsigs);
        assert(bytes@.len() > body_start(nsigs as int));
        assert(nsigs <= crate::vaa::MAX_GUARDIANS);
        assert forall|j: int|
            0 <= j < parsed.signatures@.len() implies (
        #[trigger] parsed.signatures@[j]).signature@.len() == 65 by {
            let pv = parse_vaa_spec(bytes@)->Ok_0;
            assert(parsed.signatures@[j]@ == parsed@.signatures[j]);
            assert(pv.signatures[j] == crate::vaa::sig_entry_at(bytes@, j));
            assert(VAA_HEADER_BYTES + SIG_ENTRY_BYTES * (j + 1) <= body_start(nsigs as int));
        }
    }
    let start = VAA_HEADER_BYTES + SIG_ENTRY_BYTES * nsigs;
    let body = slice_subrange(bytes, start, bytes.len());
    let digest = compute_signing_digest(body);
    proof {
        assert(digest@ == double_keccak_of(signing_body_of(bytes@, v.signatures.len() as int)));
        assert(parsed.signatures@.map_values(|s: crate::vaa::GuardianSignature| s@)
            == v.signatures);
    }
    let verified = match recover_signers(&digest, &parsed.signatures, set) {
        Ok(idxs) => idxs,
        Err(e) => {
            return Err(e);
        },
    };
    if !has_quorum(&verified, set) {
        return Err(BridgeError::QuorumNotMet);
    }
    let mut key_address: Vec<u8> = Vec::new();
    append_bytes(&mut key_address, &parsed.emitter_address);
    let key = ReplayKey {
        emitter_chain: parsed.emitter_chain,
        emitter_address: key_address,
        sequence: parsed.sequence,
    };
    proof {
        assert(key@ =~= replay_key_of(v));
    }
    match replay.check_and_consume(key) {
        Ok(_) => {},
        Err(e) => {
            return Err(e);
        },
    }
    Ok(
        VerifiedMessage {
            emitter_chain: parsed.emitter_chain,
            emitter_address: parsed.emitter_address,
            sequence: parsed.sequence,
            payload: parsed.payload,
        },
    )
}

/// Replay rejection: an attestation that verified once fails with
/// `AlreadyProcessed`, and nothing else, when submitted again against the
/// same registry after its replay key was consumed.
pub proof fn lemma_second_submission_rejected(
    bytes: Seq<u8>,
    sets: Seq<GuardianSetView>,
    consumed: Seq<ReplayKeyView>,
    v: VaaView,
)
    requires
        verify_outcome(bytes, sets, consumed) == Ok::<VaaView, BridgeError>(v),
    ensures
        verify_outcome(bytes, sets, consumed.push(replay_key_of(v))) == Err::<
            VaaView,
            BridgeError,
        >(BridgeError::AlreadyProcessed),
{
    let k = replay_key_of(v);
    assert(consumed.push(k)[consumed.len() as int] == k);
    assert(contains_key(consumed.push(k), k));
}

} // verus!
