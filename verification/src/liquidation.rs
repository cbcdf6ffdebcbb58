//! Health factor and liquidation of a collateralised vault position.
use vstd::prelude::*;

use crate::errors::ContractError;
use crate::types::AccountId;

verus! {

/// Basis points in one whole.
pub const BPS_DENOMINATOR: u128 = 10_000;

/// A borrower's position: the value of its collateral, the share of it (in
/// basis points) that counts towards solvency, and what it has borrowed.
#[derive(Copy, Clone, Debug, PartialEq, Eq, Structural)]
pub struct VaultPosition {
    pub owner: AccountId,
    pub collateral_value: u128,
    pub liquidation_threshold_bps: u32,
    pub borrowed_value: u128,
}

/// The outcome of a liquidation attempt.
#[derive(Copy, Clone, Debug, PartialEq, Eq, Structural)]
pub struct LiquidationResult {
    pub liquidated: bool,
    pub health_factor: u128,
    pub liquidator_reward: u128,
    pub protocol_reserve: u128,
}

/// The health factor of `p`: the threshold-weighted collateral over the debt,
/// rounded down to a whole number; `u128::MAX` for a position without debt;
/// `MathOverflow` when the weighted collateral does not fit in 128 bits.
pub open spec fn health_factor_of(p: VaultPosition) -> Result<u128, ContractError> {
    if p.borrowed_value == 0 {
        Ok(u128::MAX)
    } else if p.collateral_value * p.liquidation_threshold_bps > u128::MAX {
        Err(ContractError::MathOverflow)
    } else {
        Ok(((p.collateral_value * p.liquidation_threshold_bps / p.borrowed_value as int) / 10_000) as u128)
    }
}

/// The outcome of liquidating `p` by buying `purchase` of its collateral: a
/// position with a health factor below one is liquidated, and the liquidator
/// keeps a twentieth of the purchase while the rest goes to the protocol reserve.
pub open spec fn liquidation_of(p: VaultPosition, purchase: u128) -> Result<LiquidationResult, ContractError> {
    match health_factor_of(p) {
        Err(e) => Err(e),
        Ok(hf) => if hf >= 1 {
            Ok(LiquidationResult { liquidated: false, health_factor: hf, liquidator_reward: 0, protocol_reserve: 0 })
        } else {
            Ok(
                LiquidationResult {
                    liquidated: true,
                    health_factor: hf,
                    liquidator_reward: purchase / 20,
                    protocol_reserve: (purchase - purchase / 20) as u128,
                },
            )
        },
    }
}

/// The health factor of `position`.
pub fn health_factor(position: &VaultPosition) -> (r: Result<u128, ContractError>)
    ensures
        r == health_factor_of(*position),
        position.borrowed_value == 0 ==> r == Ok::<u128, ContractError>(u128::MAX),
        position.borrowed_value > 0 && position.collateral_value * position.liquidation_threshold_bps
            <= u128::MAX ==> (r matches Ok(hf) && hf * position.borrowed_value * 10_000
            <= position.collateral_value * position.liquidation_threshold_bps < (hf + 1)
            * position.borrowed_value * 10_000),
        r is Err <==> position.borrowed_value > 0 && position.collateral_value
            * position.liquidation_threshold_bps > u128::MAX,
        r matches Err(e) ==> e == ContractError::MathOverflow,
{
    proof {
        law_health_factor_bounds(*position);
    }
    if position.borrowed_value == 0 {
        return Ok(u128::MAX);
    }
    let numerator = match position.collateral_value.checked_mul(position.liquidation_threshold_bps as u128) {
        Some(n) => n,
        None => return Err(ContractError::MathOverflow),
    };
    Ok(numerator / position.borrowed_value / 10_000)
}

/// Liquidate `position` if its health factor is below one, splitting the
/// purchased collateral between the liquidator and the protocol reserve.
pub fn liquidate(position: &VaultPosition, purchase_collateral: u128) -> (r: Result<LiquidationResult, ContractError>)
    ensures
        r == liquidation_of(*position, purchase_collateral),
{
    let hf = match health_factor(position) {
        Ok(h) => h,
        Err(e) => return Err(e),
    };
    if hf >= 1 {
        return Ok(LiquidationResult { liquidated: false, health_factor: hf, liquidator_reward: 0, protocol_reserve: 0 });
    }
    let reward = purchase_collateral / 20;
    Ok(LiquidationResult {
        liquidated: true,
        health_factor: hf,
        liquidator_reward: reward,
        protocol_reserve: purchase_collateral - reward,
    })
}

/// The health factor is the threshold-weighted collateral over the debt, in
/// whole units of 10 000 basis points, rounded down: `hf` is the one number
/// with `hf * debt * 10_000 <= collateral * bps < (hf + 1) * debt * 10_000`.
/// It is refused as an overflow exactly when `collateral * bps` does not fit
/// in 128 bits, and a position without debt has the greatest health factor.
pub proof fn law_health_factor_bounds(p: VaultPosition)
    ensures
        p.borrowed_value == 0 ==> health_factor_of(p) == Ok::<u128, ContractError>(u128::MAX),
        p.borrowed_value > 0 && p.collateral_value * p.liquidation_threshold_bps <= u128::MAX
            ==> (health_factor_of(p) matches Ok(hf) && hf * p.borrowed_value * 10_000 <= p.collateral_value
            * p.liquidation_threshold_bps < (hf + 1) * p.borrowed_value * 10_000),
        health_factor_of(p) is Err <==> p.borrowed_value > 0 && p.collateral_value * p.liquidation_threshold_bps
            > u128::MAX,
        health_factor_of(p) matches Err(e) ==> e == ContractError::MathOverflow,
{
    if p.borrowed_value > 0 && p.collateral_value * p.liquidation_threshold_bps <= u128::MAX {
        let n = p.collateral_value * p.liquidation_threshold_bps;
        let b = p.borrowed_value as int;
        let hf = (n / b) / 10_000;
        assert(hf * b * 10_000 <= n < (hf + 1) * b * 10_000) by (nonlinear_arith)
            requires
                n >= 0,
                b > 0,
                hf == (n / b) / 10_000,
        {
            assert(n / b * b <= n < (n / b + 1) * b);
            assert(hf * 10_000 <= n / b < (hf + 1) * 10_000);
        }
    }
}

/// A position is liquidated exactly when its threshold-weighted collateral is
/// below its debt (in basis points), and then the whole purchase is split
/// between the liquidator and the reserve, with nothing lost or created.
pub proof fn law_liquidation_split(p: VaultPosition, purchase: u128)
    requires
        health_factor_of(p) is Ok,
    ensures
        liquidation_of(p, purchase) matches Ok(res) && {
            &&& res.liquidated <==> (p.borrowed_value > 0 && p.collateral_value * p.liquidation_threshold_bps
                < p.borrowed_value * 10_000)
            &&& res.liquidated ==> res.liquidator_reward + res.protocol_reserve == purchase
            &&& res.liquidated ==> res.liquidator_reward * 20 <= purchase
            &&& !res.liquidated ==> res.liquidator_reward == 0 && res.protocol_reserve == 0
        },
{
    if p.borrowed_value > 0 {
        let n = p.collateral_value * p.liquidation_threshold_bps;
        let b = p.borrowed_value as int;
        assert(n >= 0);
        assert((n / b) / 10_000 == 0 <==> n < b * 10_000) by (nonlinear_arith)
            requires
                n >= 0,
                b > 0,
        {
            if n < b * 10_000 {
                assert(n / b < 10_000) by {
                    assert(n / b * b <= n);
                    if n / b >= 10_000 {
                        assert(n / b * b >= 10_000 * b);
                    }
                }
            } else {
                assert(n / b >= 10_000) by {
                    assert(n / b * b + n % b == n);
                    assert(n % b < b);
                    if n / b < 10_000 {
                        assert(n / b <= 9_999);
                        assert(n / b * b <= 9_999 * b);
                    }
                }
            }
        }
    }
}

} // verus!
