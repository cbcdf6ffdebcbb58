use soroban_sdk::Symbol;
use stellarflow_contracts::asset::symbol_to_asset_id;
use stellarflow_contracts::errors::ContractError;
use stellarflow_contracts::upgrade::{
    ContractData, NodeProfile, StakeRecord, StagedUpgrade, TimeLockedUpgradeContract, DEFAULT_HEARTBEAT_INTERVAL,
};

const ADMIN: u64 = 1;
const TREASURY: u64 = 2;

fn setup() -> TimeLockedUpgradeContract {
    TimeLockedUpgradeContract::new()
}

#[allow(deprecated)]
fn asset(code: &str) -> u32 {
    symbol_to_asset_id(&Symbol::short(code))
}

#[test]
fn test_get_data_before_and_after_init() {
    let mut client = setup();
    let result = client.get_data();
    assert_eq!(result, Err(ContractError::NotInitialized));
    client.initialize(ADMIN, TREASURY, Ok(())).unwrap();
    let data = client.get_data().unwrap();
    assert_eq!(data.admin, ADMIN);
    assert_eq!(data.value, 0u64);
}

#[test]
fn test_get_data_is_idempotent() {
    let mut client = setup();
    client.initialize(ADMIN, TREASURY, Ok(())).unwrap();
    let first_value = client.get_data().unwrap().value;
    let second_value = client.get_data().unwrap().value;
    assert_eq!(first_value, second_value);
    assert_eq!(first_value, 0);
}

#[test]
fn test_is_data_fresh_unknown_asset_returns_false() {
    let mut client = setup();
    client.initialize(ADMIN, TREASURY, Ok(())).unwrap();
    let asset = asset("NGN");
    assert!(!client.is_data_fresh(asset, 0));
}

#[test]
fn test_is_data_fresh_transitions_on_staleness() {
    let mut client = setup();
    client.initialize(ADMIN, TREASURY, Ok(())).unwrap();
    let asset = asset("KES");
    let now = 0u64;
    client.update_heartbeat(asset, ADMIN, now, Ok(())).unwrap();
    assert!(client.is_data_fresh(asset, now));
    let later = now + DEFAULT_HEARTBEAT_INTERVAL + 1;
    assert!(!client.is_data_fresh(asset, later));
}

#[test]
fn test_is_data_fresh_does_not_mutate_heartbeat() {
    let mut client = setup();
    client.initialize(ADMIN, TREASURY, Ok(())).unwrap();
    let asset = asset("GHS");
    let now = 0u64;
    client.update_heartbeat(asset, ADMIN, now, Ok(())).unwrap();
    for _ in 0..5 {
        assert!(client.is_data_fresh(asset, now));
    }
    let later = now + DEFAULT_HEARTBEAT_INTERVAL + 1;
    assert!(!client.is_data_fresh(asset, later));
}

#[test]
fn test_query_methods_do_not_interfere() {
    let mut client = setup();
    client.initialize(ADMIN, TREASURY, Ok(())).unwrap();
    let asset = asset("CFA");
    let value_before = client.get_data().unwrap().value;
    let _ = client.is_data_fresh(asset, 0);
    let value_after = client.get_data().unwrap().value;
    assert_eq!(value_before, value_after);
}

#[test]
fn initialize_errors() {
    let mut client = setup();
    assert_eq!(client.initialize(ADMIN, TREASURY, Err(ContractError::StaleData)), Err(ContractError::StaleData));
    assert_eq!(client.get_data(), Err(ContractError::NotInitialized));
    client.initialize(ADMIN, TREASURY, Ok(())).unwrap();
    assert_eq!(client.initialize(3, TREASURY, Ok(())), Err(ContractError::AlreadyInitialized));
}

#[test]
fn stake_then_unstake_restores_totals() {
    let mut client = setup();
    let node = 10;
    assert_eq!(client.stake_and_register(node, 0, 5, Ok(())), Err(ContractError::InvalidStakeAmount));
    assert_eq!(
        client.stake_and_register(node, 5, 5, Err(ContractError::RevokedAddress)),
        Err(ContractError::RevokedAddress)
    );
    let record = client.stake_and_register(node, 700, 55, Ok(())).unwrap();
    assert_eq!(record, StakeRecord { node, amount: 700, registered_at: 55 });
    assert_eq!(client.get_stake(node), 700);
    assert_eq!(client.get_total_staked(), 700);
    assert_eq!(client.get_last_update_timestamp(0), Some(55));
    assert_eq!(client.stake_and_register(node, 1, 56, Ok(())), Err(ContractError::AlreadyRegistered));
    assert_eq!(client.unstake(node), Ok(700));
    assert_eq!(client.get_stake(node), 0);
    assert_eq!(client.get_total_staked(), 0);
    assert_eq!(client.unstake(node), Err(ContractError::NotRegistered));
}

#[test]
fn stake_overflow_is_refused() {
    let mut client = setup();
    client.stake_and_register(10, u64::MAX, 1, Ok(())).unwrap();
    assert_eq!(client.stake_and_register(11, 1, 1, Ok(())), Err(ContractError::Overflow));
}

#[test]
fn signer_registration_and_revocation_threshold() {
    let mut client = setup();
    assert_eq!(client.register_signer(20, ADMIN), Err(ContractError::NotInitialized));
    client.initialize(ADMIN, TREASURY, Ok(())).unwrap();
    assert_eq!(client.revocation_threshold(), 1);
    assert_eq!(client.register_signer(20, 9), Err(ContractError::NotAdmin));
    client.register_signer(20, ADMIN).unwrap();
    client.register_signer(21, ADMIN).unwrap();
    client.register_signer(21, ADMIN).unwrap();
    client.register_signer(22, ADMIN).unwrap();
    assert!(client.is_signer(21));
    assert_eq!(client.revocation_threshold(), 2);
    assert_eq!(client.remove_signer(21, ADMIN, true), Err(ContractError::ContractPaused));
    client.remove_signer(21, ADMIN, false).unwrap();
    assert!(!client.is_signer(21));
    assert_eq!(client.revocation_threshold(), 2);
    client.remove_signer(20, ADMIN, false).unwrap();
    assert_eq!(client.revocation_threshold(), 1);
}

#[test]
fn revocation_vote_replaces_admin_at_threshold() {
    let mut client = setup();
    client.initialize(ADMIN, TREASURY, Ok(())).unwrap();
    client.register_signer(20, ADMIN).unwrap();
    client.register_signer(21, ADMIN).unwrap();
    client.register_signer(22, ADMIN).unwrap();
    assert_eq!(client.vote_revocation(20, 10, 11, Ok((1, 30))), Err(ContractError::SignatureExpired));
    assert_eq!(client.vote_revocation(99, 10, 5, Ok((1, 30))), Err(ContractError::Unauthorized));
    assert_eq!(client.vote_revocation(20, 10, 5, Ok((1, 30))), Ok(false));
    assert_eq!(client.get_data().unwrap().admin, ADMIN);
    assert_eq!(client.vote_revocation(21, 10, 5, Ok((2, 30))), Ok(true));
    assert_eq!(client.get_data().unwrap().admin, 30);
    assert_eq!(client.propose_revocation(20, 10, 5, Ok(()), Ok(())), Ok(()));
    assert_eq!(client.propose_revocation(99, 10, 5, Ok(()), Ok(())), Err(ContractError::Unauthorized));
    assert_eq!(client.propose_revocation(30, 10, 5, Ok(()), Ok(())), Ok(()));
}

#[test]
fn upgrade_is_staged_timelocked_and_executed() {
    let mut client = setup();
    client.initialize(ADMIN, TREASURY, Ok(())).unwrap();
    let hash = [7u8; 32];
    assert_eq!(
        client.propose_upgrade(hash, ADMIN, vec![20, 21], 100, 50, Ok(()), Ok(()), Ok(1), 2, 1_000),
        Err(ContractError::ThresholdNotReached)
    );
    assert_eq!(
        client.propose_upgrade(hash, 9, vec![], 100, 50, Ok(()), Ok(()), Ok(5), 2, 1_000),
        Err(ContractError::NotAdmin)
    );
    client.propose_upgrade(hash, ADMIN, vec![20, 21], 100, 50, Ok(()), Ok(()), Ok(2), 2, 1_000).unwrap();
    assert_eq!(
        client.get_pending_upgrade(),
        Some(StagedUpgrade { new_wasm_hash: hash, proposer: ADMIN, staged_at: 50, execute_at: 1_050 })
    );
    assert_eq!(client.get_upgrade_timelock_remaining(60), Some(990));
    assert_eq!(client.get_upgrade_timelock_remaining(2_000), Some(0));
    assert_eq!(
        client.execute_upgrade(ADMIN, 2_000, 60, Ok(()), Ok(()), false),
        Err(ContractError::UpgradeTimelockNotSatisfied)
    );
    assert_eq!(client.execute_upgrade(ADMIN, 2_000, 1_050, Ok(()), Ok(()), true), Ok(hash));
    assert_eq!(client.get_pending_upgrade(), None);
    assert_eq!(
        client.execute_upgrade(ADMIN, 2_000, 1_050, Ok(()), Ok(()), true),
        Err(ContractError::NoPendingUpgrade)
    );
}

#[test]
fn cancel_upgrade_clears_staging() {
    let mut client = setup();
    client.initialize(ADMIN, TREASURY, Ok(())).unwrap();
    client.propose_upgrade([1u8; 32], ADMIN, vec![], 100, 50, Ok(()), Ok(()), Ok(0), 0, 10).unwrap();
    assert_eq!(client.cancel_upgrade(9, Ok(())), Err(ContractError::NotAdmin));
    client.cancel_upgrade(ADMIN, Ok(())).unwrap();
    assert_eq!(client.get_pending_upgrade(), None);
    assert_eq!(client.get_upgrade_timelock_remaining(0), None);
}

#[test]
fn health_check_compares_admin() {
    let mut client = setup();
    assert_eq!(
        client.run_post_upgrade_health_check(ContractData { admin: ADMIN, value: 0 }),
        Err(ContractError::NotInitialized)
    );
    client.initialize(ADMIN, TREASURY, Ok(())).unwrap();
    assert_eq!(client.run_post_upgrade_health_check(ContractData { admin: ADMIN, value: 9 }), Ok(()));
    assert_eq!(
        client.run_post_upgrade_health_check(ContractData { admin: 5, value: 0 }),
        Err(ContractError::UpgradeHealthCheckFailed)
    );
}

#[test]
fn set_value_and_heartbeat_interval() {
    let mut client = setup();
    client.initialize(ADMIN, TREASURY, Ok(())).unwrap();
    assert_eq!(client.set_value(5, ADMIN, 10, 11, Ok(()), Ok(())), Err(ContractError::SignatureExpired));
    assert_eq!(
        client.set_value(5, ADMIN, 10, 9, Ok(()), Err(ContractError::InvalidNonce)),
        Err(ContractError::InvalidNonce)
    );
    client.set_value(5, ADMIN, 10, 9, Ok(()), Ok(())).unwrap();
    assert_eq!(client.get_data().unwrap().value, 5);
    assert_eq!(client.get_last_update_timestamp(1), Some(9));
    assert_eq!(client.get_heartbeat_interval(), DEFAULT_HEARTBEAT_INTERVAL);
    assert_eq!(client.set_heartbeat_interval(0, ADMIN, Ok(())), Err(ContractError::InvalidHeartbeatInterval));
    client.set_heartbeat_interval(60, ADMIN, Ok(())).unwrap();
    assert_eq!(client.get_heartbeat_interval(), 60);
    client.update_heartbeat(4, ADMIN, 100, Ok(())).unwrap();
    assert!(client.is_data_fresh(4, 160));
    assert!(!client.is_data_fresh(4, 161));
    assert!(client.is_data_fresh(4, 50));
    assert_eq!(
        client.update_heartbeat(4, ADMIN, 100, Err(ContractError::InsufficientLiquidityDepth)),
        Err(ContractError::InsufficientLiquidityDepth)
    );
}

#[test]
fn node_profiles_report_rates() {
    let mut client = setup();
    client.initialize(ADMIN, TREASURY, Ok(())).unwrap();
    assert_eq!(client.get_latest_rate(40), Err(ContractError::NotRegistered));
    client.upsert_node_profile(ADMIN, 40, 1_234, 0, 3, Ok(())).unwrap();
    assert_eq!(client.get_latest_rate(40), Err(ContractError::NotRegistered));
    client.upsert_node_profile(ADMIN, 40, 1_500, 90, 4, Ok(())).unwrap();
    assert_eq!(client.get_latest_rate(40), Ok(1_500));
    assert_eq!(
        TimeLockedUpgradeContract::scan_profile_for_rate(NodeProfile { node: 40, rate: 9, confidence: 1, updated_at: 0 }),
        Some(9)
    );
}

#[test]
fn feed_stakes_move_node_and_total_stake() {
    let mut client = setup();
    let node = 10;
    assert_eq!(
        client.stake_and_register_for_feed(node, 3, 50, 7, Ok(()), 'b', 100),
        Err(ContractError::InsufficientStakeForTier)
    );
    let record = client.stake_and_register_for_feed(node, 3, 150, 7, Ok(()), 'b', 100).unwrap();
    assert_eq!((record.amount, record.tier, record.registered_at), (150, 'b', 7));
    assert_eq!(
        client.stake_and_register_for_feed(node, 3, 150, 7, Ok(()), 'b', 100),
        Err(ContractError::FeedAlreadyRegistered)
    );
    client.stake_and_register_for_feed(node, 4, 50, 8, Ok(()), 'a', 0).unwrap();
    assert_eq!(client.get_feed_stake(node, 3, 7 + 259_200), 150);
    assert_eq!(client.get_stake(node), 200);
    assert_eq!(client.get_total_staked(), 200);
    assert_eq!(client.unstake_from_feed(node, 3), Ok(150));
    assert_eq!(client.get_stake(node), 50);
    assert_eq!(client.unstake_from_feed(node, 3), Err(ContractError::NotRegistered));
    assert_eq!(client.unstake_from_feed(node, 4), Ok(50));
    assert_eq!(client.get_stake(node), 0);
    assert_eq!(client.get_total_staked(), 0);
}

#[test]
fn lapsed_feed_stake_is_pruned_on_read() {
    let mut client = setup();
    let node = 11;
    client.stake_and_register_for_feed(node, 3, 150, 1_000, Ok(()), 'b', 0).unwrap();
    client.stake_and_register_for_feed(node, 4, 50, 1_000, Ok(()), 'b', 0).unwrap();
    assert_eq!(client.get_feed_stake(node, 3, 1_000 + 259_200), 150);
    assert_eq!(client.get_stake(node), 200);
    assert_eq!(client.get_feed_stake(node, 3, 1_000 + 259_201), 0);
    assert_eq!(client.get_stake(node), 50);
    assert_eq!(client.get_total_staked(), 50);
    assert_eq!(client.unstake_from_feed(node, 3), Err(ContractError::NotRegistered));
    assert_eq!(client.get_feed_stake(node, 4, 1_000), 50);
    assert_eq!(client.get_feed_stake(node, 9, 1_000_000), 0);
}

#[test]
fn fee_is_deducted_from_trade_amount() {
    assert_eq!(TimeLockedUpgradeContract::calculate_and_deduct_fee(10_000, 30), Ok((9_970, 30)));
    assert_eq!(TimeLockedUpgradeContract::calculate_and_deduct_fee(999, 25), Ok((997, 2)));
    assert_eq!(
        TimeLockedUpgradeContract::calculate_and_deduct_fee(1, 10_001),
        Err(ContractError::FeeCeilingExceeded)
    );
    assert_eq!(
        TimeLockedUpgradeContract::calculate_and_deduct_fee(u128::MAX, 2),
        Err(ContractError::MathOverflow)
    );
}

#[test]
fn state_survives_storing_and_loading() {
    let mut client = setup();
    client.initialize(ADMIN, TREASURY, Ok(())).unwrap();
    client.stake_and_register(10, 70, 3, Ok(())).unwrap();
    client.register_signer(20, ADMIN).unwrap();
    let parts = client.into_parts();
    assert_eq!(parts.total_staked, 70);
    let reloaded = TimeLockedUpgradeContract::from_parts(parts);
    assert_eq!(reloaded.get_stake(10), 70);
    assert!(reloaded.is_signer(20));
    assert_eq!(reloaded.get_data().unwrap().admin, ADMIN);
}

#[test]
fn ingestion_reports_and_feed_metrics() {
    let mut client = setup();
    assert_eq!(client.report_ingestion_dropout(ADMIN, false, Ok(2)), Err(ContractError::NotInitialized));
    client.initialize(ADMIN, TREASURY, Ok(())).unwrap();
    assert_eq!(client.report_ingestion_dropout(ADMIN, true, Ok(2)), Err(ContractError::ContractPaused));
    assert_eq!(client.report_ingestion_dropout(9, false, Ok(2)), Err(ContractError::NotAdmin));
    assert_eq!(client.report_ingestion_dropout(ADMIN, false, Ok(2)), Ok(2));
    let defaults = client.get_asset_feed_metrics(5, |score| score);
    assert_eq!((defaults.volume_score, defaults.volatility_bps), (10, 100));
    let m = client.set_asset_feed_metrics(ADMIN, 5, 250, 40, Ok(())).unwrap();
    assert_eq!((m.volume_score, m.volatility_bps), (100, 40));
    assert_eq!(client.get_asset_feed_metrics(5, |score| score), m);
    let adjusted = client.get_asset_feed_metrics(5, |score| score / 2 + 1);
    assert_eq!((adjusted.volume_score, adjusted.volatility_bps), (51, 40));
    assert_eq!(client.get_asset_feed_metrics(7, |score| score * 3).volume_score, 30);
    assert_eq!(
        client.set_asset_feed_metrics(ADMIN, 6, 20, 40, Err(ContractError::ThresholdNotReached)),
        Err(ContractError::ThresholdNotReached)
    );
}
