//! Replay protection: a permanent, append-only record of the attestations
//! already acted upon, keyed by emitter chain, emitter address and
//! sequence. A key is written at most once and never removed.

use vstd::prelude::*;

use crate::bytes::bytes_eq;
use crate::errors::BridgeError;

verus! {

/// A replay key as the contracts see it.
#[verifier::ext_equal]
pub struct ReplayKeyView {
    pub emitter_chain: u16,
    pub emitter_address: Seq<u8>,
    pub sequence: u64,
}

/// What identifies an attestation for replay purposes: where it came from
/// and its sequence number there.
pub struct ReplayKey {
    pub emitter_chain: u16,
    pub emitter_address: Vec<u8>,
    pub sequence: u64,
}

impl View for ReplayKey {
    type V = ReplayKeyView;

    open spec fn view(&self) -> ReplayKeyView {
        ReplayKeyView {
            emitter_chain: self.emitter_chain,
            emitter_address: self.emitter_address@,
            sequence: self.sequence,
        }
    }
}

/// Whether `k` is among the consumed keys.
pub open spec fn contains_key(keys: Seq<ReplayKeyView>, k: ReplayKeyView) -> bool {
    exists|i: int| 0 <= i < keys.len() && keys[i] == k
}

/// No key is recorded twice.
pub open spec fn replay_guard_well_formed(keys: Seq<ReplayKeyView>) -> bool {
    forall|i: int, j: int| 0 <= i < j < keys.len() ==> keys[i] != keys[j]
}

/// The store of consumed replay keys, in consumption order.
pub struct ReplayGuard {
    consumed: Vec<ReplayKey>,
}

impl View for ReplayGuard {
    type V = Seq<ReplayKeyView>;

    closed spec fn view(&self) -> Seq<ReplayKeyView> {
        self.consumed@.map_values(|k: ReplayKey| k@)
    }
}

impl ReplayGuard {
    /// An empty record: nothing consumed yet.
    pub fn new() -> (r: Self)
        ensures
            replay_guard_well_formed(r@),
            r@ == Seq::<ReplayKeyView>::empty(),
    {
        let r = ReplayGuard { consumed: Vec::new() };
        proof {
            assert(r@ =~= Seq::<ReplayKeyView>::empty());
        }
        r
    }

    /// Whether `key` was consumed before.
    pub fn contains(&self, key: &ReplayKey) -> (r: bool)
        ensures
            r == contains_key(self@, key@),
    {
        let n = self.consumed.len();
        let mut i: usize = 0;
        while i < n
            invariant
                n == self.consumed@.len(),
                0 <= i <= n,
                forall|j: int| 0 <= j < i ==> self@[j] != key@,
            decreases n - i,
        {
            let k = &self.consumed[i];
            if k.emitter_chain == key.emitter_chain && k.sequence == key.sequence && bytes_eq(
                &k.emitter_address,
                &key.emitter_address,
            ) {
                proof {
                    assert(self@[i as int] =~= key@);
                }
                return true;
            }
            proof {
                assert(self@[i as int] != key@);
            }
            i = i + 1;
        }
        false
    }

    /// Atomically checks and records `key`: consumes it if it was never
    /// seen, and fails with `AlreadyProcessed`, recording nothing, if it
    /// was.
    pub fn check_and_consume(&mut self, key: ReplayKey) -> (r: Result<(), BridgeError>)
        requires
            replay_guard_well_formed(old(self)@),
        ensures
            replay_guard_well_formed(final(self)@),
            match r {
                Ok(_) => !contains_key(old(self)@, key@) && final(self)@ == old(self)@.push(key@),
                Err(e) => {
                    &&& e == BridgeError::AlreadyProcessed
                    &&& contains_key(old(self)@, key@)
                    &&& final(self)@ == old(self)@
                },
            },
    {
        if self.contains(&key) {
            Err(BridgeError::AlreadyProcessed)
        } else {
            let ghost pre = self@;
            self.consumed.push(key);
            proof {
                assert(self@ =~= pre.push(key@));
            }
            Ok(())
        }
    }
}

} // verus!
