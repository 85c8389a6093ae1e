use wormhole_core::errors::BridgeError;
use wormhole_core::vaa::{parse_vaa, serialize_vaa, GuardianSignature, ParsedVAA};
use wormhole_core::ConsistencyLevel;

fn build_vaa_bytes(
    version: u8,
    guardian_set_index: u32,
    entries: &[(u8, [u8; 65])],
    timestamp: u32,
    nonce: u32,
    emitter_chain: u16,
    emitter_address: [u8; 32],
    sequence: u64,
    consistency_level: u8,
    payload: &[u8],
) -> Vec<u8> {
    let mut out = Vec::new();
    out.push(version);
    out.extend_from_slice(&guardian_set_index.to_be_bytes());
    out.push(entries.len() as u8);
    for (idx, sig) in entries {
        out.push(*idx);
        out.extend_from_slice(sig);
    }
    out.extend_from_slice(&timestamp.to_be_bytes());
    out.extend_from_slice(&nonce.to_be_bytes());
    out.extend_from_slice(&emitter_chain.to_be_bytes());
    out.extend_from_slice(&emitter_address);
    out.extend_from_slice(&sequence.to_be_bytes());
    out.push(consistency_level);
    out.extend_from_slice(payload);
    out
}

#[test]
fn round_trip_reconstructs_all_fields() {
    let vaa = ParsedVAA {
        version: 1,
        guardian_set_index: 7,
        signatures: vec![
            GuardianSignature { guardian_index: 2, signature: vec![0xaa; 65] },
            GuardianSignature { guardian_index: 5, signature: vec![0xbb; 65] },
        ],
        timestamp: 123456,
        nonce: 42,
        emitter_chain: 2,
        emitter_address: vec![9u8; 32],
        sequence: 0xdead_beef_0102_0304,
        consistency_level: 32,
        payload: vec![1, 2, 3, 4, 5],
    };
    let bytes = serialize_vaa(&vaa);
    let parsed = parse_vaa(&bytes).expect("well-formed attestation must parse");
    assert_eq!(parsed.version, 1);
    assert_eq!(parsed.guardian_set_index, 7);
    assert_eq!(parsed.signatures.len(), 2);
    assert_eq!(parsed.signatures[0].guardian_index, 2);
    assert_eq!(parsed.signatures[0].signature, vec![0xaa; 65]);
    assert_eq!(parsed.signatures[1].guardian_index, 5);
    assert_eq!(parsed.signatures[1].signature, vec![0xbb; 65]);
    assert_eq!(parsed.timestamp, 123456);
    assert_eq!(parsed.nonce, 42);
    assert_eq!(parsed.emitter_chain, 2);
    assert_eq!(parsed.emitter_address, vec![9u8; 32]);
    assert_eq!(parsed.sequence, 0xdead_beef_0102_0304);
    assert_eq!(parsed.consistency_level, 32);
    assert_eq!(parsed.payload, vec![1, 2, 3, 4, 5]);
}

#[test]
fn unordered_signature_indices_rejected() {
    let entries = [(3u8, [1u8; 65]), (1u8, [2u8; 65]), (5u8, [3u8; 65])];
    let bytes = build_vaa_bytes(1, 0, &entries, 10, 0, 2, [7; 32], 1, 1, &[0xff]);
    assert_eq!(parse_vaa(&bytes), Err(BridgeError::UnorderedSignatures));
}

#[test]
fn duplicate_signature_index_rejected() {
    let entries = [(2u8, [1u8; 65]), (2u8, [2u8; 65])];
    let bytes = build_vaa_bytes(1, 0, &entries, 10, 0, 2, [7; 32], 1, 1, &[0xff]);
    assert_eq!(parse_vaa(&bytes), Err(BridgeError::UnorderedSignatures));
}

#[test]
fn unsupported_version_rejected() {
    let bytes = build_vaa_bytes(2, 0, &[], 10, 0, 2, [7; 32], 1, 1, &[0xff]);
    assert_eq!(parse_vaa(&bytes), Err(BridgeError::UnsupportedVersion));
}

#[test]
fn empty_input_rejected() {
    assert_eq!(parse_vaa(&[]), Err(BridgeError::TruncatedInput));
}

#[test]
fn truncated_header_rejected() {
    assert_eq!(parse_vaa(&[1, 0, 0]), Err(BridgeError::TruncatedInput));
}

#[test]
fn truncated_signature_block_rejected() {
    let full = build_vaa_bytes(1, 0, &[(0u8, [1u8; 65])], 10, 0, 2, [7; 32], 1, 1, &[0xff]);
    let cut = &full[..6 + 30];
    assert_eq!(parse_vaa(cut), Err(BridgeError::TruncatedInput));
}

#[test]
fn truncated_body_rejected() {
    let full = build_vaa_bytes(1, 0, &[(0u8, [1u8; 65])], 10, 0, 2, [7; 32], 1, 1, &[0xff]);
    let cut = &full[..full.len() - 10];
    assert_eq!(parse_vaa(cut), Err(BridgeError::TruncatedInput));
}

#[test]
fn too_many_signatures_rejected() {
    let entries: Vec<(u8, [u8; 65])> = (0..20u8).map(|i| (i, [i; 65])).collect();
    let bytes = build_vaa_bytes(1, 0, &entries, 10, 0, 2, [7; 32], 1, 1, &[0xff]);
    assert_eq!(parse_vaa(&bytes), Err(BridgeError::TooManySignatures));
}

#[test]
fn nineteen_signatures_accepted() {
    let entries: Vec<(u8, [u8; 65])> = (0..19u8).map(|i| (i, [i; 65])).collect();
    let bytes = build_vaa_bytes(1, 0, &entries, 10, 0, 2, [7; 32], 1, 1, &[0xff]);
    let parsed = parse_vaa(&bytes).expect("nineteen signatures are within the bound");
    assert_eq!(parsed.signatures.len(), 19);
}

#[test]
fn empty_payload_rejected() {
    let bytes = build_vaa_bytes(1, 0, &[(0u8, [1u8; 65])], 10, 0, 2, [7; 32], 1, 1, &[]);
    assert_eq!(parse_vaa(&bytes), Err(BridgeError::EmptyPayload));
}

#[test]
fn consistency_level_from_byte_mapping() {
    assert!(matches!(ConsistencyLevel::from_byte(1), Some(ConsistencyLevel::Confirmed)));
    assert!(matches!(ConsistencyLevel::from_byte(32), Some(ConsistencyLevel::Finalized)));
    assert!(ConsistencyLevel::from_byte(0).is_none());
    assert!(ConsistencyLevel::from_byte(7).is_none());
}
