//! The values handed back by the read-only queries.

use vstd::prelude::*;

use crate::claims::Claim;
use crate::types::Coin;

verus! {

/// The standard token metadata, as reported to queries.
#[derive(Debug)]
pub struct TokenInfoResponse {
    pub name: String,
    pub symbol: String,
    pub decimals: u8,
    pub total_supply: u128,
}

/// Token metadata together with the work's metadata.
#[derive(Debug)]
pub struct TokenInfoResponseWithMeta {
    pub external_permalink_uri: String,
    pub creator: String,
    pub work: String,
    pub description: String,
    pub asset_uri: Option<String>,
    pub token_info_response: TokenInfoResponse,
}

/// The staking configuration and the current derivative valuation.
#[derive(Debug)]
pub struct InvestmentResponse {
    pub token_supply: u128,
    pub staked_tokens: Coin,
    /// How many reserve tokens one derivative token is nominally worth,
    /// with 18 decimal places.
    pub nominal_value: u128,
    /// The owner created the contract and takes a cut.
    pub owner: String,
    /// The owner's cut of every unbond, with 18 decimal places.
    pub exit_tax: u128,
    /// All tokens are bonded to this validator.
    pub validator: String,
    /// The minimum amount worth bonding, unbonding or reinvesting.
    pub min_withdrawal: u128,
}

/// The current curve figures and the marginal price.
#[derive(Debug)]
pub struct CurveInfoResponse {
    /// How many reserve tokens have been received.
    pub reserve: u128,
    /// How many supply tokens have been issued.
    pub supply: u128,
    /// The marginal price at the current supply, with 18 decimal places.
    pub spot_price: u128,
    pub reserve_denom: String,
    pub claims: u128,
}

/// One account's balance, as reported to queries.
#[derive(Debug)]
pub struct BalanceResponse {
    pub balance: u128,
}

/// One account's pending claims, as reported to queries.
#[derive(Debug)]
pub struct ClaimsResponse {
    pub claims: Vec<Claim>,
}

/// One query's answer.  A query of the standard ledger module's surface
/// (an allowance) has no answer here: that module answers it outside the
/// library.
#[derive(Debug)]
pub enum QueryAnswer {
    Claims(ClaimsResponse),
    Investment(InvestmentResponse),
    CurveInfo(CurveInfoResponse),
    TokenInfo(TokenInfoResponseWithMeta),
    Balance(BalanceResponse),
}

} // verus!
