use stellarflow_contracts::errors::ContractError;
use stellarflow_contracts::relayer::RelayerState;

fn key(b: u8) -> [u8; 32] {
    [b; 32]
}

fn sig() -> [u8; 64] {
    [0u8; 64]
}

#[test]
fn payload_needs_configured_quorum() {
    let mut relayer = RelayerState::new();
    relayer.add_validator(key(1));
    let sigs = vec![(key(1), sig())];
    assert_eq!(relayer.verify_cross_chain_payload(key(9), &sigs), Err(ContractError::InvalidProof));
    relayer.configure_threshold(2);
    assert_eq!(relayer.verify_cross_chain_payload(key(9), &sigs), Err(ContractError::InvalidProof));
}

#[test]
fn payload_selects_registered_signers_up_to_threshold() {
    let mut relayer = RelayerState::new();
    relayer.configure_threshold(2);
    relayer.add_validator(key(1));
    relayer.add_validator(key(2));
    relayer.add_validator(key(3));
    let sigs = vec![(key(7), sig()), (key(2), sig()), (key(8), sig()), (key(3), sig()), (key(1), sig())];
    assert_eq!(relayer.verify_cross_chain_payload(key(9), &sigs), Ok(vec![1, 3]));
    assert_eq!(relayer.verify_cross_chain_payload(key(9), &sigs), Err(ContractError::InvalidProof));
    assert_eq!(relayer.verify_cross_chain_payload(key(10), &sigs), Ok(vec![1, 3]));
}

#[test]
fn payload_without_enough_registered_signers_is_refused() {
    let mut relayer = RelayerState::new();
    relayer.configure_threshold(2);
    relayer.add_validator(key(1));
    relayer.add_validator(key(2));
    relayer.remove_validator(key(2));
    let sigs = vec![(key(1), sig()), (key(2), sig())];
    assert_eq!(relayer.verify_cross_chain_payload(key(9), &sigs), Err(ContractError::InvalidProof));
    relayer.add_validator(key(2));
    relayer.add_validator(key(2));
    assert_eq!(relayer.verify_cross_chain_payload(key(9), &sigs), Ok(vec![0, 1]));
}

#[test]
fn relayer_survives_storing_and_loading() {
    let mut relayer = RelayerState::new();
    relayer.configure_threshold(1);
    relayer.add_validator(key(1));
    relayer.verify_cross_chain_payload(key(9), &vec![(key(1), sig())]).unwrap();
    let (threshold, validators, used) = relayer.into_parts();
    assert_eq!((threshold, validators.len(), used.len()), (1, 1, 1));
    let mut reloaded = RelayerState::from_parts(threshold, validators, used);
    assert_eq!(
        reloaded.verify_cross_chain_payload(key(9), &vec![(key(1), sig())]),
        Err(ContractError::InvalidProof)
    );
}

#[test]
fn repeated_validator_key_counts_once() {
    let mut relayer = RelayerState::new();
    relayer.configure_threshold(2);
    relayer.add_validator(key(1));
    relayer.add_validator(key(2));
    let doubled = vec![(key(1), sig()), (key(1), sig())];
    assert_eq!(relayer.verify_cross_chain_payload(key(9), &doubled), Err(ContractError::InvalidProof));
    let sigs = vec![(key(1), sig()), (key(1), sig()), (key(5), sig()), (key(2), sig())];
    assert_eq!(relayer.verify_cross_chain_payload(key(9), &sigs), Ok(vec![0, 3]));
}
