//! The messages the contract is instantiated with and driven by.

use vstd::prelude::*;

use crate::curve::CurveType;
use crate::types::Duration;

verus! {

/// The staking configuration requested at instantiation.
#[derive(Debug)]
pub struct StakingParams {
    /// The validator all tokens will be bonded to.
    pub validator: String,
    /// The unbonding period of the native staking module; claims may be
    /// redeemed only after it has passed.
    pub unbonding_period: Duration,
    /// The owner's cut of every unbond, a fraction with 18 decimal places.
    pub exit_tax: u128,
    /// The minimum amount worth bonding, unbonding or reinvesting.
    pub min_withdrawal: u128,
}

/// Everything needed to create one contract instance.
#[derive(Debug)]
pub struct InstantiateMsg {
    /// An external link for the published work.
    pub external_permalink_uri: String,
    /// The artist, entity or creator behind the work.
    pub creator: String,
    /// The name of the work.
    pub work: String,
    /// A free-text description of the work.
    pub description: String,
    /// An optional asset link.
    pub asset_uri: Option<String>,
    /// The name of the supply token.
    pub name: String,
    /// The symbol of the supply token.
    pub symbol: String,
    /// Decimal places of the supply token.
    pub decimals: u8,
    /// The reserve token denomination.
    pub reserve_denom: String,
    /// Decimal places of the reserve token.
    pub reserve_decimals: u8,
    /// The curve shape and its parameters.
    pub curve_type: CurveType,
    /// The staking configuration.
    pub staking_params: StakingParams,
}

/// The operations this library decides.  The inherited standard-token
/// messages (transfers, sends, allowances) are the standard ledger
/// module's surface and are dispatched to it outside the library; a
/// delegated burn reaches [`BurnFrom`](ExecuteMsg::BurnFrom) only after
/// that module has deducted the caller's allowance.
#[derive(Debug)]
pub enum ExecuteMsg {
    /// Buy supply tokens with the attached reserve payment.
    Buy {},
    /// Sell supply tokens back to the curve (overrides the standard burn).
    Burn { amount: u128 },
    /// Sell supply tokens from another account's balance at the caller's
    /// request, the caller receiving the proceeds.
    BurnFrom { owner: String, amount: u128 },
    /// Bond the attached payment of the bond denomination.
    Bond {},
    /// Unbond derivative tokens into a delayed claim, minus the exit tax.
    Unbond { amount: u128 },
    /// Release the caller's matured claims against available liquidity.
    Claim {},
    /// Withdraw accrued rewards and schedule the bond-all-tokens callback.
    Reinvest {},
    /// Bond the uncommitted liquid balance; only the contract itself may
    /// call this, as the second phase of a reinvest.
    _BondAllTokens {},
}

/// The read-only queries.
#[derive(Debug)]
pub enum QueryMsg {
    /// The pending claims of one account.
    Claims { address: String },
    /// The staking configuration and the derivative's nominal value.
    Investment {},
    /// The curve figures and the marginal price.
    CurveInfo {},
    /// One account's balance.
    Balance { address: String },
    /// The token metadata.
    TokenInfo {},
    /// A spending allowance of the standard ledger module; answered by
    /// that module outside the library.
    Allowance { owner: String, spender: String },
}

} // verus!
