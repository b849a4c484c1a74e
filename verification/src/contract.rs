//! The entry points: creating an instance, dispatching the operations, and
//! answering the read-only queries.

use vstd::prelude::*;

use crate::bonding::buy_post;
use crate::staking::bond_post;
use crate::bonding::execute_buy;
use crate::bonding::execute_sell;
use crate::bonding::execute_sell_from;
use crate::bonding::sell_from_post;
use crate::bonding::sell_post;
use crate::claims::spec_claims_of;
use crate::curve::CurveType;
use crate::curve::DecimalPlaces;
use crate::curve::PRICE_ONE;
use crate::curve::spec_spot_price;
use crate::curve::spot_price;
use crate::curve::spot_price_fits;
use crate::error::ContractError;
use crate::ledger::balance_of;
use crate::ledger::spec_balance_of;
use crate::ledger::sum_balances;
use crate::claims::sum_claims;
use crate::msg::ExecuteMsg;
use crate::msg::InstantiateMsg;
use crate::msg::QueryMsg;
use crate::query::BalanceResponse;
use crate::query::ClaimsResponse;
use crate::query::CurveInfoResponse;
use crate::query::QueryAnswer;
use crate::query::TokenInfoResponse;
use crate::query::TokenInfoResponseWithMeta;
use crate::staking::_bond_all_tokens;
use crate::staking::bond;
use crate::staking::bond_all_tokens_post;
use crate::staking::claim;
use crate::staking::claim_post;
use crate::staking::investment_fits;
use crate::staking::investment_ok;
use crate::staking::query_investment;
use crate::staking::reinvest;
use crate::staking::reinvest_post;
use crate::staking::unbond;
use crate::staking::unbond_post;
use crate::state::ContractState;
use crate::state::CurveState;
use crate::state::InvestmentInfo;
use crate::state::MinterData;
use crate::state::TokenInfo;
use crate::state::TokenInfoWithMeta;
use crate::types::Env;
use crate::types::MessageInfo;
use crate::types::Response;
use crate::types::StakeOracle;
use crate::types::nonpayable;

verus! {

/// `v` is one of the validators the host reports as active.
pub open spec fn validator_known(validators: Seq<String>, v: Seq<char>) -> bool {
    exists|i: int| 0 <= i < validators.len() && (#[trigger] validators[i])@ == v
}

fn validator_in_set(validators: &Vec<String>, v: &String) -> (r: bool)
    ensures
        r == validator_known(validators@, v@),
{
    let mut i: usize = 0;
    while i < validators.len()
        invariant
            i <= validators@.len(),
            forall|j: int| 0 <= j < i ==> (#[trigger] validators@[j])@ != v@,
        decreases validators@.len() - i,
    {
        if validators[i] == *v {
            return true;
        }
        i = i + 1;
    }
    false
}

/// Creates the state of a new contract instance.  The host-supplied facts
/// enter as arguments: the active validator set and the chain's bond
/// denomination.  The caller becomes the owner; the contract itself
/// becomes the only minter.
pub fn instantiate(
    env: &Env,
    info: &MessageInfo,
    msg: InstantiateMsg,
    validators: &Vec<String>,
    bonded_denom: String,
) -> (r: Result<(ContractState, Response), ContractError>)
    requires
        msg.curve_type.wf(
            DecimalPlaces { supply: msg.decimals as u32, reserve: msg.reserve_decimals as u32 },
        ),
        msg.staking_params.exit_tax <= PRICE_ONE,
    ensures
        info.funds@.len() != 0 ==> r == Err::<(ContractState, Response), ContractError>(
            ContractError::Payment(crate::error::PaymentError::NonPayable),
        ),
        info.funds@.len() == 0 ==> {
            &&& (!validator_known(validators@, msg.staking_params.validator@) ==> r == Err::<
                (ContractState, Response),
                ContractError,
            >(ContractError::NotInValidatorSet { validator: msg.staking_params.validator }))
            &&& (validator_known(validators@, msg.staking_params.validator@) ==> (r matches Ok(
                (st, resp),
            ) && {
                &&& st.wf()
                &&& st.curve_state.reserve == 0
                &&& st.curve_state.supply == 0
                &&& st.curve_state.claims == 0
                &&& st.curve_state.reserve_denom == msg.reserve_denom
                &&& st.curve_state.decimals == (DecimalPlaces {
                    supply: msg.decimals as u32,
                    reserve: msg.reserve_decimals as u32,
                })
                &&& st.curve_type == msg.curve_type
                &&& st.token_info.external_permalink_uri == msg.external_permalink_uri
                &&& st.token_info.creator == msg.creator
                &&& st.token_info.work == msg.work
                &&& st.token_info.description == msg.description
                &&& st.token_info.asset_uri == msg.asset_uri
                &&& st.token_info.token_info.name == msg.name
                &&& st.token_info.token_info.symbol == msg.symbol
                &&& st.token_info.token_info.decimals == msg.decimals
                &&& st.token_info.token_info.total_supply == 0
                &&& (st.token_info.token_info.mint matches Some(m) && m.minter@
                    == env.contract_address@ && m.cap is None)
                &&& st.balances@.len() == 0
                &&& st.claims@.len() == 0
                &&& st.invest.owner == info.sender
                &&& st.invest.bond_denom == bonded_denom
                &&& st.invest.unbonding_period == msg.staking_params.unbonding_period
                &&& st.invest.exit_tax == msg.staking_params.exit_tax
                &&& st.invest.validator == msg.staking_params.validator
                &&& st.invest.min_withdrawal == msg.staking_params.min_withdrawal
                &&& resp.messages@.len() == 0
                &&& resp.attributes@.len() == 0
            }))
        },
{
    match nonpayable(info) {
        Ok(_) => {},
        Err(e) => {
            return Err(ContractError::Payment(e));
        },
    }
    // the configured validator must be registered
    if !validator_in_set(validators, &msg.staking_params.validator) {
        return Err(ContractError::NotInValidatorSet { validator: msg.staking_params.validator });
    }
    let token_info = TokenInfoWithMeta {
        external_permalink_uri: msg.external_permalink_uri,
        creator: msg.creator,
        work: msg.work,
        description: msg.description,
        asset_uri: msg.asset_uri,
        token_info: TokenInfo {
            name: msg.name,
            symbol: msg.symbol,
            decimals: msg.decimals,
            total_supply: 0,
            // the contract itself is the minter, so only it can mint and burn
            mint: Some(MinterData { minter: env.contract_address.clone(), cap: None }),
        },
    };
    let invest = InvestmentInfo {
        owner: info.sender.clone(),
        bond_denom: bonded_denom,
        unbonding_period: msg.staking_params.unbonding_period,
        exit_tax: msg.staking_params.exit_tax,
        validator: msg.staking_params.validator,
        min_withdrawal: msg.staking_params.min_withdrawal,
    };
    let places = DecimalPlaces::new(msg.decimals, msg.reserve_decimals);
    let curve_state = CurveState::new(msg.reserve_denom, places);
    let st = ContractState {
        curve_state,
        curve_type: msg.curve_type,
        token_info,
        balances: Vec::new(),
        invest,
        claims: Vec::new(),
    };
    proof {
        assert(sum_balances(st.balances@) == 0);
        assert(sum_claims(st.claims@) == 0);
    }
    Ok((st, Response::new()))
}

/// Dispatches one operation against the state, using the given curve; the
/// stored one is passed by [`execute`], but a derived contract may supply
/// its own.
pub fn do_execute(
    state: &mut ContractState,
    env: &Env,
    info: &MessageInfo,
    msg: ExecuteMsg,
    curve: &CurveType,
    oracle: &StakeOracle,
) -> (r: Result<Response, ContractError>)
    requires
        old(state).wf(),
        curve.wf(old(state).curve_state.decimals),
    ensures
        match msg {
            ExecuteMsg::Buy {  } => buy_post(*old(state), *final(state), *env, *info, *curve, r),
            ExecuteMsg::Burn { amount } => sell_post(
                *old(state),
                *final(state),
                *env,
                *info,
                *curve,
                amount,
                r,
            ),
            ExecuteMsg::BurnFrom { owner, amount } => sell_from_post(
                *old(state),
                *final(state),
                *env,
                *info,
                *curve,
                owner,
                amount,
                r,
            ),
            ExecuteMsg::Bond {  } => bond_post(
                *old(state),
                *final(state),
                *env,
                *info,
                *curve,
                oracle.delegations@,
                r,
            ),
            ExecuteMsg::Unbond { amount } => unbond_post(
                *old(state),
                *final(state),
                *env,
                *info,
                *curve,
                oracle.delegations@,
                amount,
                r,
            ),
            ExecuteMsg::Claim {  } => claim_post(
                *old(state),
                *final(state),
                *env,
                *info,
                oracle.bond_balance,
                r,
            ),
            ExecuteMsg::Reinvest {  } => reinvest_post(*old(state), *final(state), *env, *info, r),
            ExecuteMsg::_BondAllTokens {  } => bond_all_tokens_post(
                *old(state),
                *final(state),
                *env,
                *info,
                oracle.bond_balance,
                r,
            ),
        },
{
    match msg {
        ExecuteMsg::Buy {} => execute_buy(state, env, info, curve),
        ExecuteMsg::Burn { amount } => execute_sell(state, env, info, curve, amount),
        ExecuteMsg::BurnFrom { owner, amount } => execute_sell_from(
            state,
            env,
            info,
            curve,
            &owner,
            amount,
        ),
        ExecuteMsg::Bond {} => bond(state, env, info, curve, &oracle.delegations),
        ExecuteMsg::Unbond { amount } => unbond(state, env, info, curve, &oracle.delegations, amount),
        ExecuteMsg::Claim {} => claim(state, env, info, oracle.bond_balance),
        ExecuteMsg::Reinvest {} => reinvest(state, env, info),
        ExecuteMsg::_BondAllTokens {} => _bond_all_tokens(state, env, info, oracle.bond_balance),
    }
}

/// Dispatches one operation using the stored curve.
pub fn execute(
    state: &mut ContractState,
    env: &Env,
    info: &MessageInfo,
    msg: ExecuteMsg,
    oracle: &StakeOracle,
) -> (r: Result<Response, ContractError>)
    requires
        old(state).wf(),
    ensures
        match msg {
            ExecuteMsg::Buy {  } => buy_post(
                *old(state),
                *final(state),
                *env,
                *info,
                old(state).curve_type,
                r,
            ),
            ExecuteMsg::Burn { amount } => sell_post(
                *old(state),
                *final(state),
                *env,
                *info,
                old(state).curve_type,
                amount,
                r,
            ),
            ExecuteMsg::BurnFrom { owner, amount } => sell_from_post(
                *old(state),
                *final(state),
                *env,
                *info,
                old(state).curve_type,
                owner,
                amount,
                r,
            ),
            ExecuteMsg::Bond {  } => bond_post(
                *old(state),
                *final(state),
                *env,
                *info,
                old(state).curve_type,
                oracle.delegations@,
                r,
            ),
            ExecuteMsg::Unbond { amount } => unbond_post(
                *old(state),
                *final(state),
                *env,
                *info,
                old(state).curve_type,
                oracle.delegations@,
                amount,
                r,
            ),
            ExecuteMsg::Claim {  } => claim_post(
                *old(state),
                *final(state),
                *env,
                *info,
                oracle.bond_balance,
                r,
            ),
            ExecuteMsg::Reinvest {  } => reinvest_post(*old(state), *final(state), *env, *info, r),
            ExecuteMsg::_BondAllTokens {  } => bond_all_tokens_post(
                *old(state),
                *final(state),
                *env,
                *info,
                oracle.bond_balance,
                r,
            ),
        },
{
    let curve = state.curve_type;
    do_execute(state, env, info, msg, &curve, oracle)
}

/// The curve info response reports the stored figures and the marginal
/// price at the current supply.
pub open spec fn curve_info_ok(
    state: ContractState,
    curve: CurveType,
    resp: CurveInfoResponse,
) -> bool {
    &&& resp.reserve == state.curve_state.reserve
    &&& resp.supply == state.curve_state.supply
    &&& resp.claims == state.curve_state.claims
    &&& resp.reserve_denom == state.curve_state.reserve_denom
    &&& resp.spot_price == spec_spot_price(
        curve,
        state.curve_state.decimals,
        state.curve_state.supply as nat,
    )
}

/// The reserve and supply quantities, and the marginal price at the
/// current supply.
pub fn query_curve_info(state: &ContractState, curve: &CurveType) -> (r: Result<
    CurveInfoResponse,
    ContractError,
>)
    requires
        curve.wf(state.curve_state.decimals),
    ensures
        r is Ok <==> spot_price_fits(*curve, state.curve_state.decimals, state.curve_state.supply as nat),
        r matches Ok(resp) ==> curve_info_ok(*state, *curve, resp),
        r is Err ==> r == Err::<CurveInfoResponse, ContractError>(ContractError::Overflow {  }),
{
    let price = match spot_price(curve, &state.curve_state.decimals, state.curve_state.supply) {
        Ok(v) => v,
        Err(e) => {
            return Err(e);
        },
    };
    Ok(
        CurveInfoResponse {
            reserve: state.curve_state.reserve,
            supply: state.curve_state.supply,
            spot_price: price,
            reserve_denom: state.curve_state.reserve_denom.clone(),
            claims: state.curve_state.claims,
        },
    )
}

/// The token info response repeats the stored metadata and supply.
pub open spec fn token_info_ok(state: ContractState, resp: TokenInfoResponseWithMeta) -> bool {
    &&& resp.external_permalink_uri == state.token_info.external_permalink_uri
    &&& resp.creator == state.token_info.creator
    &&& resp.work == state.token_info.work
    &&& resp.description == state.token_info.description
    &&& resp.asset_uri == state.token_info.asset_uri
    &&& resp.token_info_response.name == state.token_info.token_info.name
    &&& resp.token_info_response.symbol == state.token_info.token_info.symbol
    &&& resp.token_info_response.decimals == state.token_info.token_info.decimals
    &&& resp.token_info_response.total_supply == state.token_info.token_info.total_supply
}

/// The token metadata, including the work's metadata.
pub fn query_token_info_with_meta(state: &ContractState) -> (r: TokenInfoResponseWithMeta)
    ensures
        token_info_ok(*state, r),
{
    let asset_uri = match &state.token_info.asset_uri {
        Some(s) => Some(s.clone()),
        None => None,
    };
    TokenInfoResponseWithMeta {
        external_permalink_uri: state.token_info.external_permalink_uri.clone(),
        creator: state.token_info.creator.clone(),
        work: state.token_info.work.clone(),
        description: state.token_info.description.clone(),
        asset_uri,
        token_info_response: TokenInfoResponse {
            name: state.token_info.token_info.name.clone(),
            symbol: state.token_info.token_info.symbol.clone(),
            decimals: state.token_info.token_info.decimals,
            total_supply: state.token_info.token_info.total_supply,
        },
    }
}

/// Answers one query against the state, using the given curve for prices.
/// An allowance query belongs to the standard ledger module and is
/// answered outside the library: its answer here is `None`.
pub fn do_query(state: &ContractState, _env: &Env, msg: QueryMsg, curve: &CurveType) -> (r: Result<
    Option<QueryAnswer>,
    ContractError,
>)
    requires
        curve.wf(state.curve_state.decimals),
    ensures
        match msg {
            QueryMsg::Claims { address } => r matches Ok(a) && a matches Some(ans) && (ans
                matches QueryAnswer::Claims(resp) && resp.claims@ == spec_claims_of(
                state.claims@,
                address@,
            )),
            QueryMsg::Investment {  } => {
                &&& (r is Ok <==> investment_fits(*state))
                &&& (r matches Ok(a) ==> a matches Some(ans) && (ans matches QueryAnswer::Investment(
                    resp,
                ) && investment_ok(*state, resp)))
                &&& (r is Err ==> r == Err::<Option<QueryAnswer>, ContractError>(
                    ContractError::Overflow {  },
                ))
            },
            QueryMsg::CurveInfo {  } => {
                &&& (r is Ok <==> spot_price_fits(
                    *curve,
                    state.curve_state.decimals,
                    state.curve_state.supply as nat,
                ))
                &&& (r matches Ok(a) ==> a matches Some(ans) && (ans matches QueryAnswer::CurveInfo(
                    resp,
                ) && curve_info_ok(*state, *curve, resp)))
                &&& (r is Err ==> r == Err::<Option<QueryAnswer>, ContractError>(
                    ContractError::Overflow {  },
                ))
            },
            QueryMsg::Balance { address } => r matches Ok(a) && a matches Some(ans) && (ans
                matches QueryAnswer::Balance(resp) && resp.balance == spec_balance_of(
                state.balances@,
                address@,
            )),
            QueryMsg::TokenInfo {  } => r matches Ok(a) && a matches Some(ans) && (ans
                matches QueryAnswer::TokenInfo(resp) && token_info_ok(*state, resp)),
            QueryMsg::Allowance { owner, spender } => r matches Ok(a) && a is None,
        },
{
    match msg {
        QueryMsg::Claims { address } => {
            let claims = crate::claims::query_claims(&state.claims, &address);
            Ok(Some(QueryAnswer::Claims(ClaimsResponse { claims })))
        },
        QueryMsg::Investment {} => match query_investment(state) {
            Ok(resp) => Ok(Some(QueryAnswer::Investment(resp))),
            Err(e) => Err(e),
        },
        QueryMsg::CurveInfo {} => match query_curve_info(state, curve) {
            Ok(resp) => Ok(Some(QueryAnswer::CurveInfo(resp))),
            Err(e) => Err(e),
        },
        QueryMsg::Balance { address } => {
            let balance = balance_of(&state.balances, &address);
            Ok(Some(QueryAnswer::Balance(BalanceResponse { balance })))
        },
        QueryMsg::TokenInfo {} => Ok(Some(QueryAnswer::TokenInfo(query_token_info_with_meta(state)))),
        QueryMsg::Allowance { owner: _, spender: _ } => Ok(None),
    }
}

/// Answers one query using the stored curve.
pub fn query(state: &ContractState, _env: &Env, msg: QueryMsg) -> (r: Result<
    Option<QueryAnswer>,
    ContractError,
>)
    requires
        state.wf(),
    ensures
        match msg {
            QueryMsg::Claims { address } => r matches Ok(a) && a matches Some(ans) && (ans
                matches QueryAnswer::Claims(resp) && resp.claims@ == spec_claims_of(
                state.claims@,
                address@,
            )),
            QueryMsg::Investment {  } => {
                &&& (r is Ok <==> investment_fits(*state))
                &&& (r matches Ok(a) ==> a matches Some(ans) && (ans matches QueryAnswer::Investment(
                    resp,
                ) && investment_ok(*state, resp)))
                &&& (r is Err ==> r == Err::<Option<QueryAnswer>, ContractError>(
                    ContractError::Overflow {  },
                ))
            },
            QueryMsg::CurveInfo {  } => {
                &&& (r is Ok <==> spot_price_fits(
                    state.curve_type,
                    state.curve_state.decimals,
                    state.curve_state.supply as nat,
                ))
                &&& (r matches Ok(a) ==> a matches Some(ans) && (ans matches QueryAnswer::CurveInfo(
                    resp,
                ) && curve_info_ok(*state, state.curve_type, resp)))
                &&& (r is Err ==> r == Err::<Option<QueryAnswer>, ContractError>(
                    ContractError::Overflow {  },
                ))
            },
            QueryMsg::Balance { address } => r matches Ok(a) && a matches Some(ans) && (ans
                matches QueryAnswer::Balance(resp) && resp.balance == spec_balance_of(
                state.balances@,
                address@,
            )),
            QueryMsg::TokenInfo {  } => r matches Ok(a) && a matches Some(ans) && (ans
                matches QueryAnswer::TokenInfo(resp) && token_info_ok(*state, resp)),
            QueryMsg::Allowance { owner, spender } => r matches Ok(a) && a is None,
        },
{
    let curve = state.curve_type;
    do_query(state, _env, msg, &curve)
}

} // verus!
