use wormhole_core::quorum::has_quorum;
use wormhole_core::registry::GuardianSet;

fn make_set(n: usize) -> GuardianSet {
    GuardianSet {
        index: 0,
        guardians: (0..n).map(|i| vec![i as u8 + 1; 20]).collect(),
        activated_at: 0,
        expires_at: None,
    }
}

#[test]
fn quorum_threshold_for_all_set_sizes() {
    for n in 1..=19usize {
        let set = make_set(n);
        let threshold = n * 2 / 3 + 1;
        for count in 0..=n {
            let verified: Vec<u8> = (0..count as u8).collect();
            assert_eq!(
                has_quorum(&verified, &set),
                count >= threshold,
                "set size {} with {} verified signers",
                n,
                count
            );
        }
    }
}

#[test]
fn four_guardians_need_three_signers() {
    let set = make_set(4);
    assert!(!has_quorum(&vec![0, 1], &set));
    assert!(has_quorum(&vec![0, 1, 2], &set));
    assert!(has_quorum(&vec![0, 1, 2, 3], &set));
}

#[test]
fn nineteen_guardians_need_thirteen_signers() {
    let set = make_set(19);
    let twelve: Vec<u8> = (0..12).collect();
    let thirteen: Vec<u8> = (0..13).collect();
    assert!(!has_quorum(&twelve, &set));
    assert!(has_quorum(&thirteen, &set));
}
