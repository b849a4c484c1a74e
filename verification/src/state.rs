//! The persistent state of one contract instance: the cached curve figures,
//! the token ledger and its metadata, the staking configuration and the
//! claims queue — one record, threaded explicitly through every operation.

use vstd::prelude::*;

use crate::claims::ClaimRecord;
use crate::claims::sum_claims;
use crate::curve::CurveType;
use crate::curve::DecimalPlaces;
use crate::curve::PRICE_ONE;
use crate::ledger::BalanceEntry;
use crate::ledger::sum_balances;
use crate::types::Duration;

verus! {

/// The cached pair of curve figures plus the earmarked claims counter.
#[derive(Debug)]
pub struct CurveState {
    /// How many reserve tokens are held against the issued supply.
    pub reserve: u128,
    /// How many supply tokens this instance has issued.
    pub supply: u128,
    /// The denomination of the reserve token.
    pub reserve_denom: String,
    /// How to normalize reserve and supply amounts.
    pub decimals: DecimalPlaces,
    /// How many reserve tokens are earmarked for unbonded claims.
    pub claims: u128,
}

impl CurveState {
    pub fn new(reserve_denom: String, decimals: DecimalPlaces) -> (r: Self)
        ensures
            r.reserve == 0,
            r.supply == 0,
            r.reserve_denom == reserve_denom,
            r.decimals == decimals,
            r.claims == 0,
    {
        CurveState { reserve: 0, supply: 0, reserve_denom, decimals, claims: 0 }
    }
}

/// Who may mint, and up to which total supply.
#[derive(Debug)]
pub struct MinterData {
    pub minter: String,
    pub cap: Option<u128>,
}

/// The cw20 token metadata and supply counter.
#[derive(Debug)]
pub struct TokenInfo {
    pub name: String,
    pub symbol: String,
    pub decimals: u8,
    pub total_supply: u128,
    pub mint: Option<MinterData>,
}

/// Token info together with the work's metadata.
#[derive(Debug)]
pub struct TokenInfoWithMeta {
    pub external_permalink_uri: String,
    pub creator: String,
    pub work: String,
    pub description: String,
    pub asset_uri: Option<String>,
    pub token_info: TokenInfo,
}

impl TokenInfoWithMeta {
    /// The configured supply cap, if any.
    pub open spec fn spec_get_cap(&self) -> Option<u128> {
        match self.token_info.mint {
            Some(m) => m.cap,
            None => None,
        }
    }

    pub fn get_cap(&self) -> (r: Option<u128>)
        ensures
            r == self.spec_get_cap(),
    {
        match &self.token_info.mint {
            Some(m) => match m.cap {
                Some(c) => Some(c),
                None => None,
            },
            None => None,
        }
    }
}

/// The staking configuration, fixed at instantiation.
#[derive(Debug)]
pub struct InvestmentInfo {
    /// The owner created the contract and receives the exit tax.
    pub owner: String,
    /// The only denomination accepted for bonding.
    pub bond_denom: String,
    /// How long an unbonded claim waits before it may be released.
    pub unbonding_period: Duration,
    /// The owner's cut of every unbond, a fraction with 18 decimal
    /// places; at most [`PRICE_ONE`] (that is, at most all of it).
    pub exit_tax: u128,
    /// All tokens are bonded to this validator.
    pub validator: String,
    /// The minimum amount worth bonding, unbonding or reinvesting.
    pub min_withdrawal: u128,
}

impl InvestmentInfo {
    /// The exit tax is a fraction of one.
    pub open spec fn wf(self) -> bool {
        self.exit_tax <= PRICE_ONE
    }
}

/// Everything one contract instance persists.
#[derive(Debug)]
#[verifier::ext_equal]
pub struct ContractState {
    pub curve_state: CurveState,
    pub curve_type: CurveType,
    pub token_info: TokenInfoWithMeta,
    pub balances: Vec<BalanceEntry>,
    pub invest: InvestmentInfo,
    pub claims: Vec<ClaimRecord>,
}

impl ContractState {
    /// The state invariants, established at instantiation and preserved by
    /// every operation: the stored curve is usable with the stored decimal
    /// places, the ledger balances sum to the recorded total supply, the
    /// queued claim amounts sum to the earmarked claims counter, and the
    /// exit tax is a fraction of one.
    pub open spec fn wf(self) -> bool {
        &&& self.curve_type.wf(self.curve_state.decimals)
        &&& sum_balances(self.balances@) == self.token_info.token_info.total_supply
        &&& sum_claims(self.claims@) == self.curve_state.claims
        &&& self.invest.wf()
    }
}

/// The ledger invariant: in every well-formed state — instantiation makes
/// one, and every operation's contract preserves well-formedness — the
/// account balances sum exactly to the recorded total supply.
pub proof fn lemma_ledger_invariant(s: ContractState)
    requires
        s.wf(),
    ensures
        sum_balances(s.balances@) == s.token_info.token_info.total_supply,
{
}

} // verus!
