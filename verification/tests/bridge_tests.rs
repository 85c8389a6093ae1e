use libsecp256k1::{sign, Message, PublicKey, SecretKey};
use solana_program::keccak;
use wormhole_core::bridge::verify_and_consume;
use wormhole_core::errors::BridgeError;
use wormhole_core::registry::{GuardianSet, GuardianSetRegistry, GUARDIAN_SET_GRACE_SECS};
use wormhole_core::replay::ReplayGuard;

fn guardian_address(pk: &PublicKey) -> [u8; 20] {
    let ser = pk.serialize();
    let hash = keccak::hash(&ser[1..65]).to_bytes();
    let mut addr = [0u8; 20];
    addr.copy_from_slice(&hash[12..32]);
    addr
}

/// Deterministic guardian keys, sorted so their addresses ascend; the
/// guardian index is the position in the sorted order.
fn make_guardians(n: usize) -> Vec<(SecretKey, [u8; 20])> {
    let mut guardians: Vec<(SecretKey, [u8; 20])> = (1..=n as u8)
        .map(|i| {
            let sk = SecretKey::parse(&[i; 32]).unwrap();
            let addr = guardian_address(&PublicKey::from_secret_key(&sk));
            (sk, addr)
        })
        .collect();
    guardians.sort_by(|a, b| a.1.cmp(&b.1));
    guardians
}

fn make_registry(guardians: &[(SecretKey, [u8; 20])], activated_at: u32) -> GuardianSetRegistry {
    GuardianSetRegistry::new(GuardianSet {
        index: 0,
        guardians: guardians.iter().map(|g| g.1.to_vec()).collect(),
        activated_at,
        expires_at: None,
    })
}

struct VaaParams {
    guardian_set_index: u32,
    timestamp: u32,
    nonce: u32,
    emitter_chain: u16,
    emitter_address: [u8; 32],
    sequence: u64,
    consistency_level: u8,
    payload: Vec<u8>,
}

fn build_signed_vaa(
    params: &VaaParams,
    guardians: &[(SecretKey, [u8; 20])],
    signer_positions: &[usize],
) -> Vec<u8> {
    let mut body = Vec::new();
    body.extend_from_slice(&params.timestamp.to_be_bytes());
    body.extend_from_slice(&params.nonce.to_be_bytes());
    body.extend_from_slice(&params.emitter_chain.to_be_bytes());
    body.extend_from_slice(&params.emitter_address);
    body.extend_from_slice(&params.sequence.to_be_bytes());
    body.push(params.consistency_level);
    body.extend_from_slice(&params.payload);

    let digest = keccak::hash(&keccak::hash(&body).to_bytes()).to_bytes();
    let message = Message::parse_slice(&digest).unwrap();

    let mut out = Vec::new();
    out.push(1u8);
    out.extend_from_slice(&params.guardian_set_index.to_be_bytes());
    out.push(signer_positions.len() as u8);
    for &pos in signer_positions {
        let (signature, recovery_id) = sign(&message, &guardians[pos].0);
        out.push(pos as u8);
        out.extend_from_slice(&signature.serialize());
        out.push(recovery_id.serialize());
    }
    out.extend_from_slice(&body);
    out
}

fn default_params() -> VaaParams {
    VaaParams {
        guardian_set_index: 0,
        timestamp: 500,
        nonce: 9,
        emitter_chain: 2,
        emitter_address: [0x11; 32],
        sequence: 77,
        consistency_level: 32,
        payload: vec![0xca, 0xfe, 0xba, 0xbe],
    }
}

#[test]
fn quorum_of_three_out_of_four_verifies_and_replay_is_rejected() {
    let guardians = make_guardians(4);
    let registry = make_registry(&guardians, 0);
    let mut replay = ReplayGuard::new();
    let params = default_params();
    let bytes = build_signed_vaa(&params, &guardians, &[0, 1, 2]);

    let message = verify_and_consume(&bytes, &registry, &mut replay)
        .expect("three of four guardians meet the quorum");
    assert_eq!(message.payload, params.payload);
    assert_eq!(message.emitter_chain, params.emitter_chain);
    assert_eq!(message.emitter_address, params.emitter_address.to_vec());
    assert_eq!(message.sequence, params.sequence);

    // The identical bytes a second time: replay caught, after everything
    // else verified again.
    let second = verify_and_consume(&bytes, &registry, &mut replay);
    assert_eq!(second.err(), Some(BridgeError::AlreadyProcessed));
}

#[test]
fn two_of_four_signers_fail_quorum() {
    let guardians = make_guardians(4);
    let registry = make_registry(&guardians, 0);
    let mut replay = ReplayGuard::new();
    let params = default_params();
    let bytes = build_signed_vaa(&params, &guardians, &[0, 1]);
    let result = verify_and_consume(&bytes, &registry, &mut replay);
    assert_eq!(result.err(), Some(BridgeError::QuorumNotMet));
    // Nothing was consumed by the failed attempt.
    let full = build_signed_vaa(&params, &guardians, &[0, 1, 2]);
    assert!(verify_and_consume(&full, &registry, &mut replay).is_ok());
}

#[test]
fn same_sequence_from_different_emitters_both_succeed() {
    let guardians = make_guardians(4);
    let registry = make_registry(&guardians, 0);
    let mut replay = ReplayGuard::new();
    let mut params = default_params();
    let first = build_signed_vaa(&params, &guardians, &[0, 1, 2]);
    params.emitter_address = [0x22; 32];
    let second = build_signed_vaa(&params, &guardians, &[0, 1, 2]);

    assert!(verify_and_consume(&first, &registry, &mut replay).is_ok());
    assert!(verify_and_consume(&second, &registry, &mut replay).is_ok());
}

#[test]
fn forged_signature_is_a_signer_mismatch() {
    let guardians = make_guardians(4);
    let registry = make_registry(&guardians, 0);
    let mut replay = ReplayGuard::new();
    let params = default_params();
    // Guardian 3 signs but the entry claims guardian index 0.
    let mut bytes = build_signed_vaa(&params, &guardians, &[3]);
    bytes[6] = 0;
    let result = verify_and_consume(&bytes, &registry, &mut replay);
    assert_eq!(result.err(), Some(BridgeError::SignerMismatch(0)));
}

#[test]
fn garbage_signature_is_a_signer_mismatch() {
    let guardians = make_guardians(4);
    let registry = make_registry(&guardians, 0);
    let mut replay = ReplayGuard::new();
    let params = default_params();
    let mut bytes = build_signed_vaa(&params, &guardians, &[0, 1, 2]);
    // Corrupt the second signature's first byte.
    bytes[6 + 66 + 1] ^= 0xff;
    let result = verify_and_consume(&bytes, &registry, &mut replay);
    assert_eq!(result.err(), Some(BridgeError::SignerMismatch(1)));
}

#[test]
fn tampered_payload_is_rejected() {
    let guardians = make_guardians(4);
    let registry = make_registry(&guardians, 0);
    let mut replay = ReplayGuard::new();
    let params = default_params();
    let mut bytes = build_signed_vaa(&params, &guardians, &[0, 1, 2]);
    let last = bytes.len() - 1;
    bytes[last] ^= 0x01;
    let result = verify_and_consume(&bytes, &registry, &mut replay);
    assert!(matches!(result.err(), Some(BridgeError::SignerMismatch(_))));
}

#[test]
fn unknown_guardian_set_index_is_set_expired() {
    let guardians = make_guardians(4);
    let registry = make_registry(&guardians, 0);
    let mut replay = ReplayGuard::new();
    let mut params = default_params();
    params.guardian_set_index = 7;
    let bytes = build_signed_vaa(&params, &guardians, &[0, 1, 2]);
    let result = verify_and_consume(&bytes, &registry, &mut replay);
    assert_eq!(result.err(), Some(BridgeError::SetExpired));
}

#[test]
fn rotation_honors_grace_window_end_to_end() {
    let old_guardians = make_guardians(4);
    let new_guardians = make_guardians(5);
    let rotation_time = 1000u32;
    let mut registry = make_registry(&old_guardians, 0);
    registry.activate_next(
        GuardianSet {
            index: 1,
            guardians: new_guardians.iter().map(|g| g.1.to_vec()).collect(),
            activated_at: rotation_time,
            expires_at: None,
        },
        rotation_time,
    );
    let mut replay = ReplayGuard::new();

    // Attestation against the old set, stamped one second before rotation:
    // still verifiable after rotation, thanks to the grace window.
    let mut params = default_params();
    params.timestamp = rotation_time - 1;
    let in_flight = build_signed_vaa(&params, &old_guardians, &[0, 1, 2]);
    assert!(verify_and_consume(&in_flight, &registry, &mut replay).is_ok());

    // An old-set attestation stamped past the grace boundary: expired.
    params.timestamp = rotation_time + GUARDIAN_SET_GRACE_SECS;
    params.sequence = 78;
    let late = build_signed_vaa(&params, &old_guardians, &[0, 1, 2]);
    assert_eq!(
        verify_and_consume(&late, &registry, &mut replay).err(),
        Some(BridgeError::SetExpired)
    );

    // The new set verifies from its activation on; five guardians need
    // four signers.
    params.guardian_set_index = 1;
    params.sequence = 79;
    let fresh = build_signed_vaa(&params, &new_guardians, &[0, 1, 2, 3]);
    assert!(verify_and_consume(&fresh, &registry, &mut replay).is_ok());
}
