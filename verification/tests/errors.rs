use stellarflow_contracts::errors::{ContractError, InvariantError};

#[test]
fn contract_error_codes_round_trip() {
    for code in 1..=110u32 {
        let e = ContractError::from_code(code).unwrap();
        assert_eq!(e.code(), code);
    }
    assert_eq!(ContractError::from_code(0), None);
    assert_eq!(ContractError::from_code(111), None);
}

#[test]
fn contract_error_known_codes() {
    assert_eq!(ContractError::AlreadyInitialized.code(), 1);
    assert_eq!(ContractError::OrderNotMaker.code(), 68);
    assert_eq!(ContractError::NotRecoveryKey.code(), 110);
    assert_eq!(ContractError::from_code(47), Some(ContractError::SlippageExceeded));
}

#[test]
fn contract_error_decode_needs_contract_kind() {
    assert_eq!(ContractError::decode(true, 5), Some(ContractError::UpgradeTimelockNotSatisfied));
    assert_eq!(ContractError::decode(false, 5), None);
    assert_eq!(ContractError::decode(true, 0), None);
}

#[test]
fn contract_error_through_host_error() {
    let err = ContractError::InvalidProof.to_host_error();
    assert_eq!(ContractError::try_from_error(err), Ok(ContractError::InvalidProof));
    let unknown = soroban_sdk::Error::from_contract_error(500);
    assert!(ContractError::try_from_error(unknown).is_err());
    let foreign = soroban_sdk::Error::from_type_and_code(
        soroban_sdk::xdr::ScErrorType::Budget,
        soroban_sdk::xdr::ScErrorCode::ExceededLimit,
    );
    assert!(ContractError::try_from_error(foreign).is_err());
}

#[test]
fn invariant_error_codes_round_trip() {
    for code in 1..=9u32 {
        assert_eq!(InvariantError::from_code(code).unwrap().code(), code);
    }
    assert_eq!(InvariantError::from_code(10), None);
    assert_eq!(InvariantError::Overflow.code(), 9);
}
