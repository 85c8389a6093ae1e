use wormhole_core::errors::BridgeError;
use wormhole_core::registry::{
    check_guardian_set, GuardianSet, GuardianSetRegistry, GUARDIAN_SET_GRACE_SECS,
};

fn make_set(index: u32, n: usize, activated_at: u32) -> GuardianSet {
    GuardianSet {
        index,
        guardians: (0..n).map(|i| vec![i as u8 + 1; 20]).collect(),
        activated_at,
        expires_at: None,
    }
}

#[test]
fn well_formed_set_accepted() {
    assert!(check_guardian_set(&make_set(0, 4, 0)));
    assert!(check_guardian_set(&make_set(0, 19, 0)));
}

#[test]
fn empty_set_rejected() {
    assert!(!check_guardian_set(&make_set(0, 0, 0)));
}

#[test]
fn oversized_set_rejected() {
    assert!(!check_guardian_set(&make_set(0, 20, 0)));
}

#[test]
fn wrong_address_length_rejected() {
    let mut set = make_set(0, 2, 0);
    set.guardians[1] = vec![1u8; 19];
    assert!(!check_guardian_set(&set));
}

#[test]
fn unsorted_addresses_rejected() {
    let mut set = make_set(0, 2, 0);
    set.guardians.swap(0, 1);
    assert!(!check_guardian_set(&set));
}

#[test]
fn duplicate_addresses_rejected() {
    let mut set = make_set(0, 2, 0);
    set.guardians[1] = set.guardians[0].clone();
    assert!(!check_guardian_set(&set));
}

#[test]
fn current_and_get_follow_rotation() {
    let mut registry = GuardianSetRegistry::new(make_set(0, 4, 0));
    assert_eq!(registry.current().index, 0);
    assert!(registry.get(0).is_some());
    assert!(registry.get(1).is_none());
    registry.activate_next(make_set(1, 4, 1000), 1000);
    assert_eq!(registry.current().index, 1);
    assert_eq!(registry.get(0).unwrap().expires_at, Some(1000 + GUARDIAN_SET_GRACE_SECS));
    assert_eq!(registry.get(1).unwrap().expires_at, None);
}

#[test]
fn grace_window_boundaries() {
    let mut registry = GuardianSetRegistry::new(make_set(0, 4, 0));
    let rotation_time = 1000u32;
    registry.activate_next(make_set(1, 4, rotation_time), rotation_time);
    let boundary = rotation_time + GUARDIAN_SET_GRACE_SECS;

    // A timestamp from just before rotation stays acceptable to the old
    // set throughout the grace window.
    assert!(registry.set_in_force_at(0, rotation_time - 1).is_ok());
    // The old set accepts timestamps up to, but not including, the boundary.
    assert!(registry.set_in_force_at(0, boundary - 1).is_ok());
    assert_eq!(
        registry.set_in_force_at(0, boundary).err(),
        Some(BridgeError::SetExpired)
    );
    // The new set is in force from its activation on.
    assert!(registry.set_in_force_at(1, rotation_time).is_ok());
    assert!(registry.set_in_force_at(1, boundary + 5).is_ok());
    // Before its activation the new set is not yet in force.
    assert_eq!(
        registry.set_in_force_at(1, rotation_time - 1).err(),
        Some(BridgeError::SetExpired)
    );
}

#[test]
fn unknown_index_is_set_expired() {
    let registry = GuardianSetRegistry::new(make_set(0, 4, 0));
    assert_eq!(registry.set_in_force_at(3, 0).err(), Some(BridgeError::SetExpired));
}
