//! Signature verification: each attached signature must recover, over the
//! signing digest, to exactly the guardian address at its claimed index. A
//! mismatch rejects the attestation outright; nothing is silently skipped.

use vstd::prelude::*;

use crate::bytes::bytes_eq;
use crate::crypto::{recover_guardian_address, recovered_guardian};
use crate::errors::BridgeError;
use crate::registry::GuardianSet;
use crate::vaa::{GuardianSignature, SigEntryView};

verus! {

/// Whether one signature entry attests as the guardian it claims: the
/// claimed index addresses a guardian of the set, and the signature
/// recovers to that guardian's address over `digest`.
pub open spec fn signature_verifies(
    digest: Seq<u8>,
    entry: SigEntryView,
    guardians: Seq<Seq<u8>>,
) -> bool {
    &&& (entry.guardian_index as int) < guardians.len()
    &&& recovered_guardian(digest, entry.signature) == Some(guardians[entry.guardian_index as int])
}

/// The claimed guardian index of the first entry from position `i` on that
/// fails to verify, or `None` where all verify.
pub open spec fn first_failing_from(
    digest: Seq<u8>,
    sigs: Seq<SigEntryView>,
    guardians: Seq<Seq<u8>>,
    i: int,
) -> Option<u8>
    decreases sigs.len() - i,
    when 0 <= i <= sigs.len()
{
    if i >= sigs.len() {
        None
    } else if !signature_verifies(digest, sigs[i], guardians) {
        Some(sigs[i].guardian_index)
    } else {
        first_failing_from(digest, sigs, guardians, i + 1)
    }
}

/// The claimed guardian index of the first signature that fails to verify,
/// or `None` where every signature verifies.
pub open spec fn first_failing(
    digest: Seq<u8>,
    sigs: Seq<SigEntryView>,
    guardians: Seq<Seq<u8>>,
) -> Option<u8> {
    first_failing_from(digest, sigs, guardians, 0)
}

proof fn lemma_first_failing_at(
    digest: Seq<u8>,
    sigs: Seq<SigEntryView>,
    guardians: Seq<Seq<u8>>,
    i: int,
    k: int,
)
    requires
        0 <= k <= i < sigs.len(),
        forall|j: int| 0 <= j < i ==> signature_verifies(digest, #[trigger] sigs[j], guardians),
        !signature_verifies(digest, sigs[i], guardians),
    ensures
        first_failing_from(digest, sigs, guardians, k) == Some(sigs[i].guardian_index),
    decreases i - k,
{
    if k < i {
        lemma_first_failing_at(digest, sigs, guardians, i, k + 1);
    }
}

proof fn lemma_first_failing_none(
    digest: Seq<u8>,
    sigs: Seq<SigEntryView>,
    guardians: Seq<Seq<u8>>,
    k: int,
)
    requires
        0 <= k <= sigs.len(),
        forall|j: int|
            0 <= j < sigs.len() ==> signature_verifies(digest, #[trigger] sigs[j], guardians),
    ensures
        first_failing_from(digest, sigs, guardians, k) is None,
    decreases sigs.len() - k,
{
    if k < sigs.len() {
        lemma_first_failing_none(digest, sigs, guardians, k + 1);
    }
}

/// Recovers the signer of every signature over `digest` and matches it to
/// the guardian at its claimed index in `set`. Returns the claimed indices
/// exactly when every signature verifies, and `SignerMismatch` carrying
/// the first failing entry's claimed index otherwise.
pub fn recover_signers(
    digest: &Vec<u8>,
    signatures: &Vec<GuardianSignature>,
    set: &GuardianSet,
) -> (r: Result<Vec<u8>, BridgeError>)
    requires
        digest@.len() == 32,
        forall|j: int|
            0 <= j < signatures@.len() ==> (#[trigger] signatures@[j]).signature@.len() == 65,
    ensures
        ({
            let sv = signatures@.map_values(|s: GuardianSignature| s@);
            let gv = set@.guardians;
            match r {
                Ok(idxs) => {
                    &&& first_failing(digest@, sv, gv) is None
                    &&& idxs@.len() == sv.len()
                    &&& forall|j: int|
                        0 <= j < sv.len() ==> idxs@[j] == (#[trigger] sv[j]).guardian_index
                },
                Err(e) => match first_failing(digest@, sv, gv) {
                    Some(gi) => e == BridgeError::SignerMismatch(gi),
                    None => false,
                },
            }
        }),
{
    let ghost sv = signatures@.map_values(|s: GuardianSignature| s@);
    let ghost gv = set@.guardians;
    let mut verified: Vec<u8> = Vec::new();
    let n = signatures.len();
    let mut i: usize = 0;
    while i < n
        invariant
            digest@.len() == 32,
            n == signatures@.len(),
            sv == signatures@.map_values(|s: GuardianSignature| s@),
            gv == set@.guardians,
            forall|j: int|
                0 <= j < signatures@.len() ==> (#[trigger] signatures@[j]).signature@.len() == 65,
            0 <= i <= n,
            verified@.len() == i,
            forall|j: int| 0 <= j < i ==> verified@[j] == (#[trigger] sv[j]).guardian_index,
            forall|j: int| 0 <= j < i ==> signature_verifies(digest@, #[trigger] sv[j], gv),
        decreases n - i,
    {
        let entry = &signatures[i];
        let gi = entry.guardian_index;
        proof {
            assert(sv[i as int] == entry@);
        }
        let mut ok: bool = false;
        match recover_guardian_address(digest, &entry.signature) {
            Some(addr) => {
                if (gi as usize) < set.guardians.len() {
                    proof {
                        assert(set.guardians@[gi as int]@ == gv[gi as int]);
                    }
                    ok = bytes_eq(&addr, &set.guardians[gi as usize]);
                }
            },
            None => {},
        }
        if !ok {
            proof {
                assert(!signature_verifies(digest@, sv[i as int], gv));
                lemma_first_failing_at(digest@, sv, gv, i as int, 0);
            }
            return Err(BridgeError::SignerMismatch(gi));
        }
        verified.push(gi);
        i = i + 1;
    }
    proof {
        lemma_first_failing_none(digest@, sv, gv, 0);
    }
    Ok(verified)
}

} // verus!
