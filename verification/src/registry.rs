//! The versioned, append-only record of guardian sets. Rotation never
//! mutates an existing set's membership: it closes the current set's
//! validity window with a grace period and appends the successor, so an
//! attestation in flight across a rotation stays verifiable until the
//! grace window ends.

use vstd::prelude::*;

use crate::bytes::{bytes_lt, lex_lt};
use crate::errors::BridgeError;
use crate::vaa::MAX_GUARDIANS;

verus! {

/// How long a superseded guardian set stays valid after rotation.
pub const GUARDIAN_SET_GRACE_SECS: u32 = 86400;

/// A guardian set as the contracts see it.
#[verifier::ext_equal]
pub struct GuardianSetView {
    pub index: u32,
    pub guardians: Seq<Seq<u8>>,
    pub activated_at: u32,
    pub expires_at: Option<u32>,
}

/// One versioned roster of guardian addresses. `expires_at == None` marks
/// the set currently in force; a superseded set carries the end of its
/// grace window.
pub struct GuardianSet {
    pub index: u32,
    pub guardians: Vec<Vec<u8>>,
    pub activated_at: u32,
    pub expires_at: Option<u32>,
}

impl View for GuardianSet {
    type V = GuardianSetView;

    open spec fn view(&self) -> GuardianSetView {
        GuardianSetView {
            index: self.index,
            guardians: self.guardians@.map_values(|g: Vec<u8>| g@),
            activated_at: self.activated_at,
            expires_at: self.expires_at,
        }
    }
}

/// A usable guardian set: between one and `MAX_GUARDIANS` addresses, each
/// 20 bytes, in strictly ascending order (so no duplicates).
pub open spec fn guardian_set_well_formed(s: GuardianSetView) -> bool {
    &&& 1 <= s.guardians.len() <= MAX_GUARDIANS
    &&& forall|i: int| 0 <= i < s.guardians.len() ==> (#[trigger] s.guardians[i]).len() == 20
    &&& forall|i: int|
        1 <= i < s.guardians.len() ==> lex_lt(s.guardians[i - 1], #[trigger] s.guardians[i])
}

/// Decides `guardian_set_well_formed`.
pub fn check_guardian_set(s: &GuardianSet) -> (r: bool)
    ensures
        r == guardian_set_well_formed(s@),
{
    let n = s.guardians.len();
    if n < 1 || n > MAX_GUARDIANS {
        return false;
    }
    let mut i: usize = 0;
    while i < n
        invariant
            n == s.guardians@.len(),
            0 <= i <= n,
            forall|j: int| 0 <= j < i ==> (#[trigger] s@.guardians[j]).len() == 20,
            forall|j: int| 1 <= j < i ==> lex_lt(s@.guardians[j - 1], #[trigger] s@.guardians[j]),
        decreases n - i,
    {
        proof {
            assert(s.guardians@[i as int]@ == s@.guardians[i as int]);
            assert(i > 0 ==> s.guardians@[i as int - 1]@ == s@.guardians[i as int - 1]);
        }
        if s.guardians[i].len() != 20 {
            assert(!guardian_set_well_formed(s@));
            return false;
        }
        if i > 0 && !bytes_lt(&s.guardians[i - 1], &s.guardians[i]) {
            assert(!guardian_set_well_formed(s@));
            return false;
        }
        i = i + 1;
    }
    true
}

/// Whether `sets[index]` exists and `timestamp` falls inside its validity
/// window `[activated_at, expires_at)`.
pub open spec fn set_in_force(sets: Seq<GuardianSetView>, index: u32, timestamp: u32) -> bool {
    &&& (index as int) < sets.len()
    &&& sets[index as int].activated_at <= timestamp
    &&& match sets[index as int].expires_at {
        Some(e) => timestamp < e,
        None => true,
    }
}

/// The registry is a dense, append-only sequence: the set with index `i`
/// sits at position `i`, every set is usable, and exactly the last one is
/// still open-ended.
pub open spec fn registry_well_formed(sets: Seq<GuardianSetView>) -> bool {
    &&& sets.len() >= 1
    &&& forall|i: int| 0 <= i < sets.len() ==> (#[trigger] sets[i]).index == i
    &&& forall|i: int| 0 <= i < sets.len() ==> guardian_set_well_formed(#[trigger] sets[i])
    &&& forall|i: int| 0 <= i < sets.len() - 1 ==> (#[trigger] sets[i]).expires_at is Some
    &&& sets.last().expires_at is None
}

/// Rotation does not invalidate an attestation stamped inside the
/// superseded set's window: after `activate_next` closes the current set
/// at `now + GUARDIAN_SET_GRACE_SECS`, a timestamp that the old set
/// accepted stays accepted up to that boundary, and is rejected from the
/// boundary on.
pub proof fn lemma_grace_window(
    sets: Seq<GuardianSetView>,
    new_set: GuardianSetView,
    now: u32,
    timestamp: u32,
)
    requires
        registry_well_formed(sets),
        now + GUARDIAN_SET_GRACE_SECS <= u32::MAX,
    ensures
        ({
            let rotated = sets.update(
                sets.len() - 1,
                GuardianSetView {
                    expires_at: Some((now + GUARDIAN_SET_GRACE_SECS) as u32),
                    ..sets.last()
                },
            ).push(new_set);
            let old_index = (sets.len() - 1) as u32;
            &&& (set_in_force(sets, old_index, timestamp) && timestamp < now
                + GUARDIAN_SET_GRACE_SECS) ==> set_in_force(rotated, old_index, timestamp)
            &&& timestamp >= now + GUARDIAN_SET_GRACE_SECS ==> !set_in_force(
                rotated,
                old_index,
                timestamp,
            )
        }),
{
    assert(sets[sets.len() - 1].index == sets.len() - 1);
}

/// The single source of truth for who may sign as of each guardian set
/// index.
pub struct GuardianSetRegistry {
    sets: Vec<GuardianSet>,
}

impl View for GuardianSetRegistry {
    type V = Seq<GuardianSetView>;

    closed spec fn view(&self) -> Seq<GuardianSetView> {
        self.sets@.map_values(|s: GuardianSet| s@)
    }
}

impl GuardianSetRegistry {
    /// A registry holding its first guardian set, which must carry index 0
    /// and no expiry.
    pub fn new(initial: GuardianSet) -> (r: Self)
        requires
            initial@.index == 0,
            guardian_set_well_formed(initial@),
            initial@.expires_at is None,
        ensures
            registry_well_formed(r@),
            r@ == seq![initial@],
    {
        let mut sets: Vec<GuardianSet> = Vec::new();
        sets.push(initial);
        let r = GuardianSetRegistry { sets };
        proof {
            assert(r@ =~= seq![initial@]);
        }
        r
    }

    /// The set currently in force: the last one appended.
    pub fn current(&self) -> (r: &GuardianSet)
        requires
            registry_well_formed(self@),
        ensures
            r@ == self@.last(),
    {
        &self.sets[self.sets.len() - 1]
    }

    /// The set with the given index, if the registry has reached it.
    pub fn get(&self, index: u32) -> (r: Option<&GuardianSet>)
        ensures
            match r {
                Some(s) => (index as int) < self@.len() && s@ == self@[index as int],
                None => (index as int) >= self@.len(),
            },
    {
        if (index as usize) < self.sets.len() {
            Some(&self.sets[index as usize])
        } else {
            None
        }
    }

    /// The set with the given index, if `timestamp` falls inside its
    /// validity window; `SetExpired` on an unknown index or an
    /// out-of-window timestamp, and only then.
    pub fn set_in_force_at(&self, index: u32, timestamp: u32) -> (r: Result<
        &GuardianSet,
        BridgeError,
    >)
        ensures
            match r {
                Ok(s) => set_in_force(self@, index, timestamp) && s@ == self@[index as int],
                Err(e) => e == BridgeError::SetExpired && !set_in_force(self@, index, timestamp),
            },
    {
        if (index as usize) < self.sets.len() {
            let s = &self.sets[index as usize];
            if s.activated_at <= timestamp {
                match s.expires_at {
                    None => {
                        return Ok(s);
                    },
                    Some(e) => {
                        if timestamp < e {
                            return Ok(s);
                        }
                    },
                }
            }
        }
        Err(BridgeError::SetExpired)
    }

    /// Appends the successor guardian set. The superseded set stays valid
    /// until `now + GUARDIAN_SET_GRACE_SECS`; the new set takes over as the
    /// open-ended current set. The caller's authority to rotate is a host
    /// concern; this only keeps the registry's bookkeeping sound.
    pub fn activate_next(&mut self, new_set: GuardianSet, now: u32)
        requires
            registry_well_formed(old(self)@),
            guardian_set_well_formed(new_set@),
            new_set@.index as int == old(self)@.len(),
            new_set@.expires_at is None,
            now + GUARDIAN_SET_GRACE_SECS <= u32::MAX,
        ensures
            registry_well_formed(final(self)@),
            final(self)@ == old(self)@.update(
                old(self)@.len() - 1,
                GuardianSetView {
                    expires_at: Some((now + GUARDIAN_SET_GRACE_SECS) as u32),
                    ..old(self)@.last()
                },
            ).push(new_set@),
    {
        let prev = self.sets.pop();
        match prev {
            Some(p) => {
                let closed_out = GuardianSet {
                    index: p.index,
                    guardians: p.guardians,
                    activated_at: p.activated_at,
                    expires_at: Some(now + GUARDIAN_SET_GRACE_SECS),
                };
                self.sets.push(closed_out);
            },
            None => {
                proof {
                    assert(false);
                }
            },
        }
        self.sets.push(new_set);
        proof {
            let updated = old(self)@.update(
                old(self)@.len() - 1,
                GuardianSetView {
                    expires_at: Some((now + GUARDIAN_SET_GRACE_SECS) as u32),
                    ..old(self)@.last()
                },
            ).push(new_set@);
            assert(self@ =~~= updated);
        }
    }
}

} // verus!
