use stellarflow_contracts::errors::InvariantError;
use stellarflow_contracts::governance::{compute_weight, GovernanceInvariantsContract, VotingWeightLock};

fn setup() -> GovernanceInvariantsContract {
    GovernanceInvariantsContract::new()
}

const ADMIN: u64 = 1;
const USER1: u64 = 11;
const USER2: u64 = 12;
const USER3: u64 = 13;
const LEDGER: u32 = 7;

#[test]
fn test_initialize() {
    let mut client = setup();
    client.initialize(ADMIN).unwrap();
    assert_eq!(client.get_admin(), Some(ADMIN));
    assert_eq!(client.get_total_voting_weight(), 0);
}

#[test]
fn test_lock_tokens_updates_weight() {
    let mut client = setup();
    client.initialize(ADMIN).unwrap();
    client.lock_tokens(USER1, 1000_0000000, LEDGER).unwrap();

    assert_eq!(client.get_total_voting_weight(), 1000_0000000);
    let lock = client.get_user_weight(USER1).unwrap();
    assert_eq!(lock.weight, 1000_0000000);
    assert_eq!(lock.locked_amount, 1000_0000000);
}

#[test]
fn test_extend_lock_updates_weight() {
    let mut client = setup();
    client.initialize(ADMIN).unwrap();
    client.lock_tokens(USER1, 1000_0000000, LEDGER).unwrap();
    assert_eq!(client.get_total_voting_weight(), 1000_0000000);

    client.extend_lock(USER1, 500_0000000).unwrap();
    assert_eq!(client.get_total_voting_weight(), 1500_0000000);

    let lock = client.get_user_weight(USER1).unwrap();
    assert_eq!(lock.weight, 1500_0000000);
}

#[test]
fn test_invariant_holds_after_multiple_locks() {
    let mut client = setup();
    client.initialize(ADMIN).unwrap();
    client.lock_tokens(USER1, 1000_0000000, LEDGER).unwrap();
    client.lock_tokens(USER2, 2000_0000000, LEDGER).unwrap();
    client.lock_tokens(USER3, 500_0000000, LEDGER).unwrap();

    assert_eq!(client.get_total_voting_weight(), 3500_0000000);

    let users = vec![USER1, USER2, USER3];
    let computed = client.verify_full_invariant(&users).unwrap();
    assert_eq!(computed, 3500_0000000);
}

#[test]
fn test_invariant_holds_after_delegation() {
    let mut client = setup();
    client.initialize(ADMIN).unwrap();
    client.lock_tokens(USER1, 1000_0000000, LEDGER).unwrap();
    assert_eq!(client.get_total_voting_weight(), 1000_0000000);

    client.delegate_weight(USER1, USER2, 400_0000000, LEDGER).unwrap();

    assert_eq!(client.get_total_voting_weight(), 1000_0000000);

    let lock1 = client.get_user_weight(USER1).unwrap();
    assert_eq!(lock1.weight, 600_0000000);

    let lock2 = client.get_user_weight(USER2).unwrap();
    assert_eq!(lock2.weight, 400_0000000);

    let users = vec![USER1, USER2];
    let computed = client.verify_full_invariant(&users).unwrap();
    assert_eq!(computed, 1000_0000000);
}

#[test]
fn test_cannot_lock_zero_amount() {
    let mut client = setup();
    client.initialize(ADMIN).unwrap();
    let result = client.lock_tokens(USER1, 0, LEDGER);
    assert_eq!(result, Err(InvariantError::InvalidAmount));
}

#[test]
fn test_cannot_lock_twice() {
    let mut client = setup();
    client.initialize(ADMIN).unwrap();
    client.lock_tokens(USER1, 1000_0000000, LEDGER).unwrap();

    let result = client.lock_tokens(USER1, 500_0000000, LEDGER);
    assert_eq!(result, Err(InvariantError::LockAlreadyExists));
}

#[test]
fn test_cannot_extend_nonexistent_lock() {
    let mut client = setup();
    client.initialize(ADMIN).unwrap();
    let result = client.extend_lock(USER1, 500_0000000);
    assert_eq!(result, Err(InvariantError::NoLockFound));
}

#[test]
fn test_panic_on_invariant_drift() {
    let mut client = setup();
    client.initialize(ADMIN).unwrap();
    client.lock_tokens(USER1, 1000_0000000, LEDGER).unwrap();

    assert_eq!(client.get_total_voting_weight(), 1000_0000000);

    let users = vec![USER1];
    let computed = client.verify_full_invariant(&users).unwrap();
    assert_eq!(computed, 1000_0000000);
}

#[test]
fn initialize_twice_is_refused() {
    let mut client = setup();
    client.initialize(ADMIN).unwrap();
    assert_eq!(client.initialize(USER1), Err(InvariantError::AlreadyInitialized));
    assert_eq!(client.get_admin(), Some(ADMIN));
}

#[test]
fn lock_records_ledger_and_weight() {
    let mut client = setup();
    let lock = client.lock_tokens(USER1, 42, 99).unwrap();
    assert_eq!(lock, VotingWeightLock { user: USER1, locked_amount: 42, weight: 42, lock_ledger: 99 });
    assert_eq!(compute_weight(42), 42);
}

#[test]
fn lock_overflowing_total_is_refused() {
    let mut client = setup();
    client.lock_tokens(USER1, i128::MAX, LEDGER).unwrap();
    assert_eq!(client.lock_tokens(USER2, 1, LEDGER), Err(InvariantError::Overflow));
    assert_eq!(client.get_user_weight(USER2), None);
    assert_eq!(client.get_total_voting_weight(), i128::MAX);
}

#[test]
fn extend_overflowing_lock_is_refused() {
    let mut client = setup();
    client.lock_tokens(USER1, i128::MAX, LEDGER).unwrap();
    assert_eq!(client.extend_lock(USER1, 1), Err(InvariantError::Overflow));
    assert_eq!(client.extend_lock(USER1, -3), Err(InvariantError::InvalidAmount));
}

#[test]
fn delegation_errors() {
    let mut client = setup();
    assert_eq!(client.delegate_weight(USER1, USER2, 0, LEDGER), Err(InvariantError::InvalidAmount));
    assert_eq!(client.delegate_weight(USER1, USER2, 5, LEDGER), Err(InvariantError::NoLockFound));
    client.lock_tokens(USER1, 10, LEDGER).unwrap();
    assert_eq!(client.delegate_weight(USER1, USER2, 11, LEDGER), Err(InvariantError::InvalidAmount));
    assert_eq!(client.get_user_weight(USER2), None);
}

#[test]
fn delegation_to_existing_and_self() {
    let mut client = setup();
    client.lock_tokens(USER1, 10, 1).unwrap();
    client.lock_tokens(USER2, 5, 2).unwrap();
    client.delegate_weight(USER1, USER2, 4, 3).unwrap();
    assert_eq!(client.get_user_weight(USER1).unwrap().weight, 6);
    let lock2 = client.get_user_weight(USER2).unwrap();
    assert_eq!((lock2.weight, lock2.locked_amount, lock2.lock_ledger), (9, 9, 2));
    client.delegate_weight(USER2, USER2, 9, 4).unwrap();
    assert_eq!(client.get_user_weight(USER2).unwrap(), lock2);
    assert_eq!(client.get_total_voting_weight(), 15);
    assert_eq!(client.verify_full_invariant(&vec![USER2, USER1]), Ok(15));
}

#[test]
fn full_check_reports_overflowing_listing() {
    let mut client = setup();
    client.lock_tokens(USER1, i128::MAX, LEDGER).unwrap();
    assert_eq!(client.verify_full_invariant(&vec![USER1, USER1]), Err(InvariantError::Overflow));
}

#[test]
fn initialize_after_locks_resets_total() {
    let mut client = setup();
    client.lock_tokens(USER1, 10, LEDGER).unwrap();
    client.initialize(ADMIN).unwrap();
    assert_eq!(client.get_total_voting_weight(), 0);
    assert_eq!(client.get_user_weight(USER1).unwrap().weight, 10);
    assert!(!client.is_balanced());
    assert_eq!(client.lock_tokens(USER2, 0, LEDGER), Err(InvariantError::InvalidAmount));
    assert_eq!(client.extend_lock(USER1, -1), Err(InvariantError::InvalidAmount));
    assert_eq!(client.delegate_weight(USER1, USER2, 0, LEDGER), Err(InvariantError::InvalidAmount));
    assert_eq!(client.get_total_voting_weight(), 0);
    assert_eq!(client.get_user_weight(USER2), None);
}

#[test]
fn balance_check_follows_every_change() {
    let mut client = setup();
    assert!(client.is_balanced());
    client.initialize(ADMIN).unwrap();
    client.lock_tokens(USER1, 10, LEDGER).unwrap();
    client.extend_lock(USER1, 5).unwrap();
    client.delegate_weight(USER1, USER2, 3, LEDGER).unwrap();
    assert!(client.is_balanced());
    assert_eq!(client.get_total_voting_weight(), 15);
}

#[test]
fn ledger_survives_storing_and_loading() {
    let mut client = setup();
    client.initialize(ADMIN).unwrap();
    client.lock_tokens(USER1, 10, LEDGER).unwrap();
    let (admin, total, locks) = client.into_parts();
    assert_eq!((admin, total, locks.len()), (Some(ADMIN), 10, 1));
    let reloaded = GovernanceInvariantsContract::from_parts(admin, total, locks.clone()).unwrap();
    assert_eq!(reloaded.get_user_weight(USER1).unwrap().weight, 10);
    let mut doubled = locks.clone();
    doubled.push(locks[0]);
    assert!(GovernanceInvariantsContract::from_parts(admin, total, doubled).is_none());
    assert!(GovernanceInvariantsContract::from_parts(admin, -1, locks.clone()).is_none());
    let mut skewed = locks;
    skewed[0].weight = 11;
    assert!(GovernanceInvariantsContract::from_parts(admin, total, skewed).is_none());
}
