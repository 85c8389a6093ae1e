//! The attestation format: a parsed VAA, its byte-level encoding, a parser
//! over untrusted bytes, a serializer, and the proof that parsing inverts
//! serialization.

use vstd::prelude::*;

use crate::bytes::{be_u16, be_u32, be_u64, u16_be_bytes, u32_be_bytes, u64_be_bytes};
use crate::bytes::{append_bytes, push_u16_be, push_u32_be, push_u64_be};
use crate::bytes::{lemma_be_u16_round_trip, lemma_be_u32_round_trip, lemma_be_u64_round_trip};
use crate::cursor::BinaryCursor;
use crate::errors::BridgeError;

verus! {

/// The one attestation version this verifier accepts.
pub const SUPPORTED_VAA_VERSION: u8 = 1;

/// The largest guardian set the protocol admits; a signature count beyond
/// it is rejected at parse time.
pub const MAX_GUARDIANS: usize = 19;

/// Version byte, 4-byte guardian set index, 1-byte signature count.
pub const VAA_HEADER_BYTES: usize = 6;

/// 1-byte guardian index and a 65-byte recoverable signature.
pub const SIG_ENTRY_BYTES: usize = 66;

/// Timestamp, nonce, emitter chain, emitter address, sequence and
/// consistency level, before the payload.
pub const VAA_BODY_HEADER_BYTES: usize = 51;

/// One signature entry as the contracts see it.
#[verifier::ext_equal]
pub struct SigEntryView {
    pub guardian_index: u8,
    pub signature: Seq<u8>,
}

/// A parsed attestation as the contracts see it.
#[verifier::ext_equal]
pub struct VaaView {
    pub version: u8,
    pub guardian_set_index: u32,
    pub signatures: Seq<SigEntryView>,
    pub timestamp: u32,
    pub nonce: u32,
    pub emitter_chain: u16,
    pub emitter_address: Seq<u8>,
    pub sequence: u64,
    pub consistency_level: u8,
    pub payload: Seq<u8>,
}

/// One signature entry: the index of the guardian it claims to come from,
/// and the 65-byte recoverable signature itself.
#[derive(Debug, PartialEq, Eq)]
pub struct GuardianSignature {
    pub guardian_index: u8,
    pub signature: Vec<u8>,
}

impl View for GuardianSignature {
    type V = SigEntryView;

    open spec fn view(&self) -> SigEntryView {
        SigEntryView { guardian_index: self.guardian_index, signature: self.signature@ }
    }
}

/// A parsed attestation. Constructed only by `parse_vaa`, from untrusted
/// bytes; immutable afterwards.
#[derive(Debug, PartialEq, Eq)]
pub struct ParsedVAA {
    pub version: u8,
    pub guardian_set_index: u32,
    pub signatures: Vec<GuardianSignature>,
    pub timestamp: u32,
    pub nonce: u32,
    pub emitter_chain: u16,
    pub emitter_address: Vec<u8>,
    pub sequence: u64,
    pub consistency_level: u8,
    pub payload: Vec<u8>,
}

impl View for ParsedVAA {
    type V = VaaView;

    open spec fn view(&self) -> VaaView {
        VaaView {
            version: self.version,
            guardian_set_index: self.guardian_set_index,
            signatures: self.signatures@.map_values(|s: GuardianSignature| s@),
            timestamp: self.timestamp,
            nonce: self.nonce,
            emitter_chain: self.emitter_chain,
            emitter_address: self.emitter_address@,
            sequence: self.sequence,
            consistency_level: self.consistency_level,
            payload: self.payload@,
        }
    }
}

/// Where the signed body starts for an attestation with `n` signatures.
pub open spec fn body_start(n: int) -> int {
    VAA_HEADER_BYTES + SIG_ENTRY_BYTES * n
}

/// The guardian index claimed by signature entry `i` of the raw bytes.
pub open spec fn sig_index_at(bytes: Seq<u8>, i: int) -> u8 {
    bytes[VAA_HEADER_BYTES + SIG_ENTRY_BYTES * i]
}

/// Signature entry `i` of the raw bytes.
pub open spec fn sig_entry_at(bytes: Seq<u8>, i: int) -> SigEntryView {
    SigEntryView {
        guardian_index: sig_index_at(bytes, i),
        signature: bytes.subrange(
            VAA_HEADER_BYTES + SIG_ENTRY_BYTES * i + 1,
            VAA_HEADER_BYTES + SIG_ENTRY_BYTES * (i + 1),
        ),
    }
}

/// Whether the first `n` signature entries carry strictly ascending
/// guardian indices.
pub open spec fn sigs_ascending(bytes: Seq<u8>, n: int) -> bool {
    forall|i: int| 1 <= i < n ==> sig_index_at(bytes, i - 1) < #[trigger] sig_index_at(bytes, i)
}

/// What `parse_vaa` returns, byte for byte: the parsed value on exactly the
/// well-formed inputs, and which error comes on each malformed one.
pub open spec fn parse_vaa_spec(bytes: Seq<u8>) -> Result<VaaView, BridgeError> {
    if bytes.len() < 1 {
        Err(BridgeError::TruncatedInput)
    } else if bytes[0] != SUPPORTED_VAA_VERSION {
        Err(BridgeError::UnsupportedVersion)
    } else if bytes.len() < VAA_HEADER_BYTES {
        Err(BridgeError::TruncatedInput)
    } else {
        let n = bytes[5] as int;
        if n > MAX_GUARDIANS {
            Err(BridgeError::TooManySignatures)
        } else if bytes.len() < body_start(n) {
            Err(BridgeError::TruncatedInput)
        } else if !sigs_ascending(bytes, n) {
            Err(BridgeError::UnorderedSignatures)
        } else if bytes.len() < body_start(n) + VAA_BODY_HEADER_BYTES {
            Err(BridgeError::TruncatedInput)
        } else if bytes.len() == body_start(n) + VAA_BODY_HEADER_BYTES {
            Err(BridgeError::EmptyPayload)
        } else {
            let bs = body_start(n);
            Ok(
                VaaView {
                    version: bytes[0],
                    guardian_set_index: be_u32(bytes.subrange(1, 5)),
                    signatures: Seq::new(n as nat, |i: int| sig_entry_at(bytes, i)),
                    timestamp: be_u32(bytes.subrange(bs, bs + 4)),
                    nonce: be_u32(bytes.subrange(bs + 4, bs + 8)),
                    emitter_chain: be_u16(bytes.subrange(bs + 8, bs + 10)),
                    emitter_address: bytes.subrange(bs + 10, bs + 42),
                    sequence: be_u64(bytes.subrange(bs + 42, bs + 50)),
                    consistency_level: bytes[bs + 50],
                    payload: bytes.subrange(bs + 51, bytes.len() as int),
                },
            )
        }
    }
}

/// Decodes a raw attestation. Returns the parsed value exactly on the
/// inputs `parse_vaa_spec` accepts, and `parse_vaa_spec`'s error on every
/// other input; never panics.
#[verifier::rlimit(100)]
#[verifier::spinoff_prover]
pub fn parse_vaa(vaa: &[u8]) -> (r: Result<ParsedVAA, BridgeError>)
    ensures
        match r {
            Ok(p) => parse_vaa_spec(vaa@) == Ok::<VaaView, BridgeError>(p@),
            Err(e) => parse_vaa_spec(vaa@) == Err::<VaaView, BridgeError>(e),
        },
{
    let mut c = BinaryCursor::new(vaa);
    let version = match c.read_u8() {
        Ok(b) => b,
        Err(e) => {
            return Err(e);
        },
    };
    if version != SUPPORTED_VAA_VERSION {
        return Err(BridgeError::UnsupportedVersion);
    }
    let guardian_set_index = match c.read_u32() {
        Ok(x) => x,
        Err(e) => {
            return Err(e);
        },
    };
    let count = match c.read_u8() {
        Ok(b) => b,
        Err(e) => {
            return Err(e);
        },
    };
    let n = count as usize;
    let ghost gn = n as int;
    if n > MAX_GUARDIANS {
        return Err(BridgeError::TooManySignatures);
    }
    if c.remaining() < SIG_ENTRY_BYTES * n {
        assert(vaa@.len() < body_start(gn));
        return Err(BridgeError::TruncatedInput);
    }
    let mut signatures: Vec<GuardianSignature> = Vec::new();
    let mut prev: u8 = 0;
    let mut i: usize = 0;
    while i < n
        invariant
            c.wf(),
            c.bytes() == vaa@,
            c.pos() == VAA_HEADER_BYTES + SIG_ENTRY_BYTES * i,
            n <= MAX_GUARDIANS,
            gn == n as int,
            vaa@.len() >= body_start(gn),
            vaa@.len() >= VAA_HEADER_BYTES,
            vaa@[0] == SUPPORTED_VAA_VERSION,
            vaa@[5] as int == gn,
            0 <= i <= n,
            signatures@.len() == i,
            forall|j: int| 0 <= j < i ==> (#[trigger] signatures@[j])@ == sig_entry_at(vaa@, j),
            forall|j: int| 1 <= j < i ==> sig_index_at(vaa@, j - 1) < #[trigger] sig_index_at(
                vaa@,
                j,
            ),
            i > 0 ==> prev == sig_index_at(vaa@, i as int - 1),
        decreases n - i,
    {
        let gi = match c.read_u8() {
            Ok(b) => b,
            Err(_) => {
                proof {
                    assert(VAA_HEADER_BYTES + SIG_ENTRY_BYTES * (i as int) + 1 <= body_start(gn));
                    assert(false);
                }
                return Err(BridgeError::TruncatedInput);
            },
        };
        assert(gi == sig_index_at(vaa@, i as int));
        if i > 0 && gi <= prev {
            proof {
                assert(sig_index_at(vaa@, i as int - 1) >= sig_index_at(vaa@, i as int));
                assert(!sigs_ascending(vaa@, gn));
            }
            return Err(BridgeError::UnorderedSignatures);
        }
        let sig = match c.read_bytes(65) {
            Ok(v) => v,
            Err(_) => {
                proof {
                    assert(VAA_HEADER_BYTES + SIG_ENTRY_BYTES * (i as int) + 66 <= body_start(gn));
                    assert(false);
                }
                return Err(BridgeError::TruncatedInput);
            },
        };
        let entry = GuardianSignature { guardian_index: gi, signature: sig };
        proof {
            assert(entry@ =~= sig_entry_at(vaa@, i as int));
        }
        signatures.push(entry);
        prev = gi;
        i = i + 1;
    }
    assert(sigs_ascending(vaa@, gn));
    let ghost bs = body_start(gn);
    let timestamp = match c.read_u32() {
        Ok(x) => x,
        Err(e) => {
            return Err(e);
        },
    };
    let nonce = match c.read_u32() {
        Ok(x) => x,
        Err(e) => {
            return Err(e);
        },
    };
    let emitter_chain = match c.read_u16() {
        Ok(x) => x,
        Err(e) => {
            return Err(e);
        },
    };
    let emitter_address = match c.read_bytes(32) {
        Ok(v) => v,
        Err(e) => {
            return Err(e);
        },
    };
    let sequence = match c.read_u64() {
        Ok(x) => x,
        Err(e) => {
            return Err(e);
        },
    };
    let consistency_level = match c.read_u8() {
        Ok(b) => b,
        Err(e) => {
            return Err(e);
        },
    };
    let payload = c.read_rest();
    if payload.len() == 0 {
        assert(vaa@.len() == bs + VAA_BODY_HEADER_BYTES);
        return Err(BridgeError::EmptyPayload);
    }
    let parsed = ParsedVAA {
        version,
        guardian_set_index,
        signatures,
        timestamp,
        nonce,
        emitter_chain,
        emitter_address,
        sequence,
        consistency_level,
        payload,
    };
    proof {
        let expected = parse_vaa_spec(vaa@)->Ok_0;
        assert(parsed@.signatures =~= expected.signatures);
        assert(parsed@ =~~= expected);
    }
    Ok(parsed)
}

/// A value the serializer accepts and the registry of guardian sets can
/// attest: supported version, at most `MAX_GUARDIANS` signatures with
/// strictly ascending guardian indices, 65-byte signatures, a 32-byte
/// emitter address and a non-empty payload.
pub open spec fn vaa_well_formed(v: VaaView) -> bool {
    &&& v.version == SUPPORTED_VAA_VERSION
    &&& v.signatures.len() <= MAX_GUARDIANS
    &&& forall|i: int|
        0 <= i < v.signatures.len() ==> (#[trigger] v.signatures[i]).signature.len() == 65
    &&& forall|i: int|
        1 <= i < v.signatures.len() ==> v.signatures[i - 1].guardian_index < (
        #[trigger] v.signatures[i]).guardian_index
    &&& v.emitter_address.len() == 32
    &&& v.payload.len() >= 1
}

/// The byte encoding of the signature entries, in order.
pub open spec fn sig_block_bytes(sigs: Seq<SigEntryView>) -> Seq<u8>
    decreases sigs.len(),
{
    if sigs.len() == 0 {
        Seq::empty()
    } else {
        sig_block_bytes(sigs.drop_last()) + seq![sigs.last().guardian_index]
            + sigs.last().signature
    }
}

/// The byte encoding of a whole attestation.
pub open spec fn serialize_vaa_spec(v: VaaView) -> Seq<u8> {
    seq![v.version] + u32_be_bytes(v.guardian_set_index) + seq![v.signatures.len() as u8]
        + sig_block_bytes(v.signatures) + u32_be_bytes(v.timestamp) + u32_be_bytes(v.nonce)
        + u16_be_bytes(v.emitter_chain) + v.emitter_address + u64_be_bytes(v.sequence)
        + seq![v.consistency_level] + v.payload
}

/// Serializes an attestation value into the byte format `parse_vaa` reads.
#[verifier::rlimit(100)]
#[verifier::spinoff_prover]
pub fn serialize_vaa(v: &ParsedVAA) -> (r: Vec<u8>)
    requires
        vaa_well_formed(v@),
    ensures
        r@ == serialize_vaa_spec(v@),
{
    let mut out: Vec<u8> = Vec::new();
    out.push(v.version);
    push_u32_be(&mut out, v.guardian_set_index);
    let n = v.signatures.len();
    out.push(n as u8);
    proof {
        assert(out@ =~= seq![v@.version] + u32_be_bytes(v@.guardian_set_index) + seq![
            v@.signatures.len() as u8,
        ]);
    }
    let ghost header = out@;
    let mut i: usize = 0;
    proof {
        assert(sig_block_bytes(v@.signatures.take(0)) =~= Seq::<u8>::empty());
        assert(out@ =~= header + sig_block_bytes(v@.signatures.take(0)));
    }
    while i < n
        invariant
            0 <= i <= n,
            n == v.signatures@.len(),
            vaa_well_formed(v@),
            out@ == header + sig_block_bytes(v@.signatures.take(i as int)),
        decreases n - i,
    {
        let entry = &v.signatures[i];
        out.push(entry.guardian_index);
        append_bytes(&mut out, &entry.signature);
        proof {
            let t1 = v@.signatures.take(i as int + 1);
            assert(t1.drop_last() =~= v@.signatures.take(i as int));
            assert(t1.last() == v@.signatures[i as int]);
            assert(v@.signatures[i as int] == entry@);
            assert(out@ =~= header + sig_block_bytes(t1));
        }
        i = i + 1;
    }
    proof {
        assert(v@.signatures.take(n as int) =~= v@.signatures);
    }
    push_u32_be(&mut out, v.timestamp);
    push_u32_be(&mut out, v.nonce);
    push_u16_be(&mut out, v.emitter_chain);
    append_bytes(&mut out, &v.emitter_address);
    push_u64_be(&mut out, v.sequence);
    out.push(v.consistency_level);
    append_bytes(&mut out, &v.payload);
    proof {
        assert(out@ =~= serialize_vaa_spec(v@));
    }
    out
}

proof fn lemma_sig_block_len(sigs: Seq<SigEntryView>)
    requires
        forall|i: int| 0 <= i < sigs.len() ==> (#[trigger] sigs[i]).signature.len() == 65,
    ensures
        sig_block_bytes(sigs).len() == SIG_ENTRY_BYTES * sigs.len(),
    decreases sigs.len(),
{
    if sigs.len() > 0 {
        assert(forall|i: int|
            0 <= i < sigs.drop_last().len() ==> (#[trigger] sigs.drop_last()[i]).signature.len()
                == 65);
        lemma_sig_block_len(sigs.drop_last());
    }
}

proof fn lemma_sig_block_entry(sigs: Seq<SigEntryView>, j: int)
    requires
        forall|i: int| 0 <= i < sigs.len() ==> (#[trigger] sigs[i]).signature.len() == 65,
        0 <= j < sigs.len(),
    ensures
        sig_block_bytes(sigs).len() == SIG_ENTRY_BYTES * sigs.len(),
        sig_block_bytes(sigs)[SIG_ENTRY_BYTES * j] == sigs[j].guardian_index,
        sig_block_bytes(sigs).subrange(SIG_ENTRY_BYTES * j + 1, SIG_ENTRY_BYTES * (j + 1))
            == sigs[j].signature,
    decreases sigs.len(),
{
    lemma_sig_block_len(sigs);
    let block = sig_block_bytes(sigs);
    let rest = sigs.drop_last();
    assert(forall|i: int|
        0 <= i < rest.len() ==> (#[trigger] rest[i]).signature.len() == 65);
    lemma_sig_block_len(rest);
    let prefix = sig_block_bytes(rest);
    if j == sigs.len() - 1 {
        assert(block[SIG_ENTRY_BYTES * j] == sigs[j].guardian_index);
        assert(block.subrange(SIG_ENTRY_BYTES * j + 1, SIG_ENTRY_BYTES * (j + 1))
            =~= sigs[j].signature);
    } else {
        lemma_sig_block_entry(rest, j);
        assert(block[SIG_ENTRY_BYTES * j] == prefix[SIG_ENTRY_BYTES * j]);
        assert(block.subrange(SIG_ENTRY_BYTES * j + 1, SIG_ENTRY_BYTES * (j + 1)) =~= prefix.subrange(
            SIG_ENTRY_BYTES * j + 1,
            SIG_ENTRY_BYTES * (j + 1),
        ));
    }
}

/// Parsing inverts serialization: every well-formed attestation value,
/// once serialized, parses back to a field-for-field equal value.
#[verifier::rlimit(100)]
#[verifier::spinoff_prover]
pub proof fn lemma_parse_round_trip(v: VaaView)
    requires
        vaa_well_formed(v),
    ensures
        parse_vaa_spec(serialize_vaa_spec(v)) == Ok::<VaaView, BridgeError>(v),
{
    let s = serialize_vaa_spec(v);
    let n = v.signatures.len() as int;
    lemma_sig_block_len(v.signatures);
    let header = seq![v.version] + u32_be_bytes(v.guardian_set_index) + seq![
        v.signatures.len() as u8,
    ];
    let block = sig_block_bytes(v.signatures);
    let body = u32_be_bytes(v.timestamp) + u32_be_bytes(v.nonce) + u16_be_bytes(v.emitter_chain)
        + v.emitter_address + u64_be_bytes(v.sequence) + seq![v.consistency_level] + v.payload;
    assert(s =~= header + block + body);
    assert(header.len() == VAA_HEADER_BYTES);
    assert(block.len() == SIG_ENTRY_BYTES * n);
    assert(body.len() == VAA_BODY_HEADER_BYTES + v.payload.len());
    assert(s.len() == body_start(n) + VAA_BODY_HEADER_BYTES + v.payload.len());
    assert(s[0] == v.version);
    assert(s.subrange(1, 5) =~= u32_be_bytes(v.guardian_set_index));
    lemma_be_u32_round_trip(v.guardian_set_index);
    assert(s[5] == n as u8);
    assert forall|j: int| 0 <= j < n implies sig_entry_at(s, j) == v.signatures[j] by {
        lemma_sig_block_entry(v.signatures, j);
        assert(s[VAA_HEADER_BYTES + SIG_ENTRY_BYTES * j] == block[SIG_ENTRY_BYTES * j]);
        assert(s.subrange(
            VAA_HEADER_BYTES + SIG_ENTRY_BYTES * j + 1,
            VAA_HEADER_BYTES + SIG_ENTRY_BYTES * (j + 1),
        ) =~= block.subrange(SIG_ENTRY_BYTES * j + 1, SIG_ENTRY_BYTES * (j + 1)));
        assert(sig_entry_at(s, j) =~= v.signatures[j]);
    }
    assert(sigs_ascending(s, n)) by {
        assert forall|i: int|
            1 <= i < n implies sig_index_at(s, i - 1) < #[trigger] sig_index_at(s, i) by {
            assert(sig_entry_at(s, i - 1) == v.signatures[i - 1]);
            assert(sig_entry_at(s, i) == v.signatures[i]);
        }
    }
    let bs = body_start(n);
    assert(forall|k: int| 0 <= k < body.len() ==> s[bs + k] == #[trigger] body[k]);
    assert(s.subrange(bs, bs + 4) =~= u32_be_bytes(v.timestamp));
    lemma_be_u32_round_trip(v.timestamp);
    assert(s.subrange(bs + 4, bs + 8) =~= u32_be_bytes(v.nonce));
    lemma_be_u32_round_trip(v.nonce);
    assert(s.subrange(bs + 8, bs + 10) =~= u16_be_bytes(v.emitter_chain));
    lemma_be_u16_round_trip(v.emitter_chain);
    assert(s.subrange(bs + 10, bs + 42) =~= v.emitter_address);
    assert(s.subrange(bs + 42, bs + 50) =~= u64_be_bytes(v.sequence));
    lemma_be_u64_round_trip(v.sequence);
    assert(s[bs + 50] == v.consistency_level);
    assert(s.subrange(bs + 51, s.len() as int) =~= v.payload);
    assert(s[5] as int == n);
    let parsed = parse_vaa_spec(s)->Ok_0;
    assert(parsed.signatures =~= v.signatures);
    assert(parsed =~~= v);
}

} // verus!
