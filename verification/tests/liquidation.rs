use stellarflow_contracts::errors::ContractError;
use stellarflow_contracts::liquidation::{health_factor, liquidate, LiquidationResult, VaultPosition};

#[test]
fn calculates_health_factor_and_liquidation() {
    let position = VaultPosition {
        owner: 1,
        collateral_value: 100,
        liquidation_threshold_bps: 5_000,
        borrowed_value: 60,
    };
    assert!(health_factor(&position).unwrap() < 1);
    let result = liquidate(&position, 100).unwrap();
    assert!(result.liquidated);
    assert_eq!(result.liquidator_reward, 5);
    assert_eq!(result.protocol_reserve, 95);
}

#[test]
fn debt_free_position_is_healthy() {
    let position = VaultPosition { owner: 1, collateral_value: 0, liquidation_threshold_bps: 0, borrowed_value: 0 };
    assert_eq!(health_factor(&position), Ok(u128::MAX));
    assert_eq!(
        liquidate(&position, 77),
        Ok(LiquidationResult { liquidated: false, health_factor: u128::MAX, liquidator_reward: 0, protocol_reserve: 0 })
    );
}

#[test]
fn healthy_position_is_not_liquidated() {
    let position = VaultPosition { owner: 2, collateral_value: 300, liquidation_threshold_bps: 8_000, borrowed_value: 100 };
    assert_eq!(health_factor(&position), Ok(2));
    let result = liquidate(&position, 1_000).unwrap();
    assert!(!result.liquidated);
    assert_eq!(result.health_factor, 2);
    assert_eq!((result.liquidator_reward, result.protocol_reserve), (0, 0));
}

#[test]
fn boundary_health_factor_of_one() {
    let position = VaultPosition { owner: 3, collateral_value: 100, liquidation_threshold_bps: 10_000, borrowed_value: 100 };
    assert_eq!(health_factor(&position), Ok(1));
    assert!(!liquidate(&position, 40).unwrap().liquidated);
}

#[test]
fn overflowing_collateral_is_an_error() {
    let position = VaultPosition { owner: 4, collateral_value: u128::MAX, liquidation_threshold_bps: 2, borrowed_value: 1 };
    assert_eq!(health_factor(&position), Err(ContractError::MathOverflow));
    assert_eq!(liquidate(&position, 1), Err(ContractError::MathOverflow));
}

#[test]
fn liquidation_rounds_reward_down() {
    let position = VaultPosition { owner: 5, collateral_value: 1, liquidation_threshold_bps: 1, borrowed_value: 1_000 };
    let result = liquidate(&position, 39).unwrap();
    assert_eq!(result.health_factor, 0);
    assert_eq!((result.liquidator_reward, result.protocol_reserve), (1, 38));
}
