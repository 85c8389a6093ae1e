//! The quorum rule: an attestation is accepted only when at least
//! `floor(2n/3) + 1` distinct guardians of an `n`-guardian set signed it.

use vstd::prelude::*;

use crate::registry::{guardian_set_well_formed, GuardianSet};

verus! {

/// The quorum threshold of an `n`-guardian set: `floor(2n/3) + 1`.
pub open spec fn quorum_threshold(n: nat) -> nat {
    n * 2 / 3 + 1
}

/// Whether the verified guardian indices meet the quorum threshold of
/// `set`. Pure and deterministic: true exactly when the count reaches
/// `floor(2n/3) + 1`.
pub fn has_quorum(verified_indices: &Vec<u8>, set: &GuardianSet) -> (r: bool)
    requires
        guardian_set_well_formed(set@),
    ensures
        r == (verified_indices@.len() >= quorum_threshold(set@.guardians.len())),
{
    let n = set.guardians.len();
    verified_indices.len() >= n * 2 / 3 + 1
}

/// Quorum is monotone in the number of verified signers: once a count
/// meets an `n`-guardian set's threshold, every larger count does; and a
/// count below the threshold never meets it while a smaller one does.
pub proof fn lemma_quorum_monotonicity(count1: nat, count2: nat, n: nat)
    requires
        count1 <= count2,
    ensures
        count1 >= quorum_threshold(n) ==> count2 >= quorum_threshold(n),
        count2 < quorum_threshold(n) ==> count1 < quorum_threshold(n),
{
}

} // verus!
