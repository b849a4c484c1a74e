use cw20_bondcamp::contract::{execute, instantiate};
use cw20_bondcamp::curve::{CurveType, PRICE_ONE};
use cw20_bondcamp::error::ContractError;
use cw20_bondcamp::msg::{ExecuteMsg, InstantiateMsg, QueryMsg, StakingParams};
use cw20_bondcamp::query::QueryAnswer;
use cw20_bondcamp::staking::query_investment;
use cw20_bondcamp::state::ContractState;
use cw20_bondcamp::types::{BlockInfo, Coin, Duration, Effect, Env, Expiration, MessageInfo, StakeOracle};

const CREATOR: &str = "creator";
const CONTRACT: &str = "cosmos2contract";
const VALIDATOR: &str = "default-validator";
const UNBONDING_SECONDS: u64 = 3 * 86_400;

fn mock_env() -> Env {
    Env {
        contract_address: CONTRACT.to_string(),
        block: BlockInfo { height: 12_345, time: 1_571_797_419_879_305_533 },
    }
}

fn later(env: &Env, seconds: u64) -> Env {
    Env {
        contract_address: env.contract_address.clone(),
        block: BlockInfo {
            height: env.block.height,
            time: env.block.time + seconds * 1_000_000_000,
        },
    }
}

fn mock_info(sender: &str, funds: Vec<Coin>) -> MessageInfo {
    MessageInfo { sender: sender.to_string(), funds }
}

fn coins(amount: u128, denom: &str) -> Vec<Coin> {
    vec![Coin { denom: denom.to_string(), amount }]
}

fn oracle(delegated: u128, balance: u128) -> StakeOracle {
    let delegations = if delegated == 0 { vec![] } else { coins(delegated, "ustake") };
    StakeOracle { delegations, bond_balance: balance }
}

/// A one-to-one curve (constant price 1 with equal decimals), so that
/// bonded reserve and issued supply track each other exactly.
fn setup_staking(tax_percent: u64) -> ContractState {
    let msg = InstantiateMsg {
        external_permalink_uri: "https://squarepusher.bandcamp.com/album/feed-me-weird-things-remastered"
            .to_string(),
        creator: "Squarepusher".to_string(),
        work: "Feed Me Weird Things (Remaster)".to_string(),
        description: "Feed Me Weird Things (Remaster) - Bandcamp".to_string(),
        asset_uri: Some("https://f4.bcbits.com/img/a0113459728_10.jpg".to_string()),
        name: "Windscale2Coin".to_string(),
        symbol: "WIND".to_string(),
        decimals: 6,
        reserve_denom: "ustake".to_string(),
        reserve_decimals: 6,
        curve_type: CurveType::Constant { value: 1, scale: 0 },
        staking_params: StakingParams {
            validator: VALIDATOR.to_string(),
            unbonding_period: Duration::Time(UNBONDING_SECONDS),
            exit_tax: tax_percent as u128 * (PRICE_ONE / 100),
            min_withdrawal: 50,
        },
    };
    let info = mock_info(CREATOR, vec![]);
    let validators = vec![VALIDATOR.to_string()];
    let (state, _) =
        instantiate(&mock_env(), &info, msg, &validators, "ustake".to_string()).unwrap();
    state
}

fn get_balance(state: &ContractState, addr: &str) -> u128 {
    match cw20_bondcamp::contract::query(
        state,
        &mock_env(),
        QueryMsg::Balance { address: addr.to_string() },
    ) {
        Ok(Some(QueryAnswer::Balance(b))) => b.balance,
        other => panic!("unexpected answer: {:?}", other),
    }
}

#[test]
fn bonding_fails_with_wrong_denom() {
    let mut state = setup_staking(2);
    let info = mock_info("bob", coins(500, "photon"));
    let err = execute(&mut state, &mock_env(), &info, ExecuteMsg::Bond {}, &oracle(0, 0))
        .unwrap_err();
    assert_eq!(err, ContractError::EmptyBalance { denom: "ustake".to_string() });
}

#[test]
fn bonding_issues_tokens_and_delegates() {
    let mut state = setup_staking(2);
    let info = mock_info("bob", vec![
        Coin { denom: "random".to_string(), amount: 10 },
        Coin { denom: "ustake".to_string(), amount: 1000 },
    ]);
    let res = execute(&mut state, &mock_env(), &info, ExecuteMsg::Bond {}, &oracle(0, 0)).unwrap();

    assert_eq!(1, res.messages.len());
    match &res.messages[0] {
        Effect::Delegate { validator, amount } => {
            assert_eq!(validator.as_str(), VALIDATOR);
            assert_eq!(amount.denom.as_str(), "ustake");
            assert_eq!(amount.amount, 1000);
        }
        other => panic!("unexpected message: {:?}", other),
    }

    // bob got 1000 derivative tokens for 1000 stake at the one-to-one curve
    assert_eq!(get_balance(&state, "bob"), 1000);
    let invest = query_investment(&state).unwrap();
    assert_eq!(invest.token_supply, 1000);
    assert_eq!(invest.staked_tokens.amount, 1000);
    assert_eq!(invest.nominal_value, PRICE_ONE);
}

#[test]
fn bonding_rejects_a_stale_cache() {
    let mut state = setup_staking(2);
    // the host reports 500 bonded while the cache still says 0
    let info = mock_info("bob", coins(1000, "ustake"));
    let err = execute(&mut state, &mock_env(), &info, ExecuteMsg::Bond {}, &oracle(500, 0))
        .unwrap_err();
    assert_eq!(err, ContractError::BondedMismatch { stored: 0, queried: 500 });
}

#[test]
fn bonding_rejects_mixed_delegations() {
    let mut state = setup_staking(2);
    let info = mock_info("bob", coins(1000, "ustake"));
    let mixed = StakeOracle {
        delegations: vec![
            Coin { denom: "ustake".to_string(), amount: 100 },
            Coin { denom: "photon".to_string(), amount: 50 },
        ],
        bond_balance: 0,
    };
    let err = execute(&mut state, &mock_env(), &info, ExecuteMsg::Bond {}, &mixed).unwrap_err();
    assert_eq!(
        err,
        ContractError::DifferentBondDenom {
            denom1: "ustake".to_string(),
            denom2: "photon".to_string()
        }
    );
}

#[test]
fn unbonding_below_minimum_fails_and_changes_nothing() {
    let mut state = setup_staking(10);
    let info = mock_info("bob", coins(1000, "ustake"));
    execute(&mut state, &mock_env(), &info, ExecuteMsg::Bond {}, &oracle(0, 0)).unwrap();

    let info = mock_info("bob", vec![]);
    let err = execute(
        &mut state,
        &mock_env(),
        &info,
        ExecuteMsg::Unbond { amount: 49 },
        &oracle(1000, 0),
    )
    .unwrap_err();
    assert_eq!(
        err,
        ContractError::UnbondTooSmall { min_bonded: 50, denom: "ustake".to_string() }
    );
    // all state is unchanged
    assert_eq!(get_balance(&state, "bob"), 1000);
    assert_eq!(state.curve_state.supply, 1000);
    assert_eq!(state.curve_state.reserve, 1000);
    assert_eq!(state.curve_state.claims, 0);
    assert!(state.claims.is_empty());
}

#[test]
fn unbonding_taxes_and_queues_a_claim() {
    let mut state = setup_staking(10);
    let env = mock_env();
    let info = mock_info("bob", coins(1000, "ustake"));
    execute(&mut state, &env, &info, ExecuteMsg::Bond {}, &oracle(0, 0)).unwrap();

    // bob unbonds 600 at a 10% exit tax: 60 go to the owner as derivative
    // tokens, 540 are converted to reserve and queued as a claim
    let info = mock_info("bob", vec![]);
    let res = execute(
        &mut state,
        &env,
        &info,
        ExecuteMsg::Unbond { amount: 600 },
        &oracle(1000, 0),
    )
    .unwrap();

    assert_eq!(1, res.messages.len());
    match &res.messages[0] {
        Effect::Undelegate { validator, amount } => {
            assert_eq!(validator.as_str(), VALIDATOR);
            assert_eq!(amount.denom.as_str(), "ustake");
            assert_eq!(amount.amount, 540);
        }
        other => panic!("unexpected message: {:?}", other),
    }

    assert_eq!(get_balance(&state, "bob"), 400);
    assert_eq!(get_balance(&state, CREATOR), 60);
    assert_eq!(state.curve_state.supply, 460);
    assert_eq!(state.curve_state.reserve, 460);
    assert_eq!(state.curve_state.claims, 540);

    // the claim matures after the unbonding period
    let claims = cw20_bondcamp::claims::query_claims(&state.claims, &"bob".to_string());
    assert_eq!(claims.len(), 1);
    assert_eq!(claims[0].amount, 540);
    assert_eq!(
        claims[0].release_at,
        Expiration::AtTime(env.block.time + UNBONDING_SECONDS * 1_000_000_000)
    );

    // the ratio is maintained at one
    let invest = query_investment(&state).unwrap();
    assert_eq!(invest.nominal_value, PRICE_ONE);
}

#[test]
fn claims_paid_out_properly() {
    let mut state = setup_staking(10);
    let env = mock_env();
    let info = mock_info("bob", coins(1000, "ustake"));
    execute(&mut state, &env, &info, ExecuteMsg::Bond {}, &oracle(0, 0)).unwrap();

    let info = mock_info("bob", vec![]);
    execute(&mut state, &env, &info, ExecuteMsg::Unbond { amount: 600 }, &oracle(1000, 0))
        .unwrap();
    assert_eq!(state.curve_state.claims, 540);

    let claim_ready = later(&env, UNBONDING_SECONDS + 3600);
    let too_soon = later(&env, 86_400);

    // bob cannot exercise claims without enough contract balance
    let err = execute(
        &mut state,
        &claim_ready,
        &info,
        ExecuteMsg::Claim {},
        &oracle(460, 10),
    )
    .unwrap_err();
    assert_eq!(err, ContractError::BalanceTooSmall {});

    // with balance but before maturity, nothing can be released
    let err = execute(&mut state, &too_soon, &info, ExecuteMsg::Claim {}, &oracle(460, 540))
        .unwrap_err();
    assert_eq!(err, ContractError::NothingToClaim {});

    // with cash and a matured claim the payout goes through
    let res = execute(
        &mut state,
        &claim_ready,
        &info,
        ExecuteMsg::Claim {},
        &oracle(460, 540),
    )
    .unwrap();
    assert_eq!(1, res.messages.len());
    match &res.messages[0] {
        Effect::Send { to_address, amount } => {
            assert_eq!(to_address.as_str(), "bob");
            assert_eq!(amount.denom.as_str(), "ustake");
            assert_eq!(amount.amount, 540);
        }
        other => panic!("unexpected message: {:?}", other),
    }

    // the claim is gone and nothing is earmarked any more
    assert!(cw20_bondcamp::claims::query_claims(&state.claims, &"bob".to_string()).is_empty());
    assert_eq!(state.curve_state.claims, 0);
}

#[test]
fn claims_respect_the_liquidity_cap() {
    let mut state = setup_staking(10);
    let env = mock_env();
    let info = mock_info("bob", coins(2000, "ustake"));
    execute(&mut state, &env, &info, ExecuteMsg::Bond {}, &oracle(0, 0)).unwrap();

    // two unbonds leave two claims: 540 and 450
    let info = mock_info("bob", vec![]);
    execute(&mut state, &env, &info, ExecuteMsg::Unbond { amount: 600 }, &oracle(2000, 0))
        .unwrap();
    execute(&mut state, &env, &info, ExecuteMsg::Unbond { amount: 500 }, &oracle(1460, 0))
        .unwrap();
    assert_eq!(state.curve_state.claims, 540 + 450);

    // only 500 of liquidity: the first claim (540) does not fit, the
    // second (450) is paid in full
    let claim_ready = later(&env, UNBONDING_SECONDS + 3600);
    let res = execute(
        &mut state,
        &claim_ready,
        &info,
        ExecuteMsg::Claim {},
        &oracle(1010, 500),
    )
    .unwrap();
    match &res.messages[0] {
        Effect::Send { to_address: _, amount } => assert_eq!(amount.amount, 450),
        other => panic!("unexpected message: {:?}", other),
    }
    assert_eq!(state.curve_state.claims, 540);
    let claims = cw20_bondcamp::claims::query_claims(&state.claims, &"bob".to_string());
    assert_eq!(claims.len(), 1);
    assert_eq!(claims[0].amount, 540);
}

#[test]
fn reinvest_is_a_two_phase_protocol() {
    let mut state = setup_staking(2);
    let env = mock_env();
    let info = mock_info("anyone", vec![]);
    let res = execute(&mut state, &env, &info, ExecuteMsg::Reinvest {}, &oracle(0, 0)).unwrap();
    assert_eq!(2, res.messages.len());
    match &res.messages[0] {
        Effect::WithdrawReward { validator } => assert_eq!(validator.as_str(), VALIDATOR),
        other => panic!("unexpected message: {:?}", other),
    }
    match &res.messages[1] {
        Effect::InvokeBondAllTokens { contract_addr } => {
            assert_eq!(contract_addr.as_str(), CONTRACT)
        }
        other => panic!("unexpected message: {:?}", other),
    }
}

#[test]
fn bond_all_tokens_is_self_callable_only() {
    let mut state = setup_staking(2);
    let info = mock_info("bob", vec![]);
    let err = execute(
        &mut state,
        &mock_env(),
        &info,
        ExecuteMsg::_BondAllTokens {},
        &oracle(0, 500),
    )
    .unwrap_err();
    assert_eq!(err, ContractError::Unauthorized {});
}

#[test]
fn bond_all_tokens_skips_small_leftovers() {
    let mut state = setup_staking(2);
    let info = mock_info(CONTRACT, vec![]);
    // below the minimum withdrawal: a deliberate no-op success
    let res = execute(
        &mut state,
        &mock_env(),
        &info,
        ExecuteMsg::_BondAllTokens {},
        &oracle(0, 49),
    )
    .unwrap();
    assert_eq!(0, res.messages.len());
    assert_eq!(state.curve_state.reserve, 0);
}

#[test]
fn rebonding_rewards_raises_the_nominal_value() {
    let mut state = setup_staking(2);
    let env = mock_env();
    let info = mock_info("bob", coins(1000, "ustake"));
    execute(&mut state, &env, &info, ExecuteMsg::Bond {}, &oracle(0, 0)).unwrap();

    // 500 of accrued rewards sit in the contract's balance; the second
    // phase of a reinvest folds them into the reserve and delegates them
    let info = mock_info(CONTRACT, vec![]);
    let res = execute(
        &mut state,
        &env,
        &info,
        ExecuteMsg::_BondAllTokens {},
        &oracle(1000, 500),
    )
    .unwrap();
    match &res.messages[0] {
        Effect::Delegate { validator: _, amount } => assert_eq!(amount.amount, 500),
        other => panic!("unexpected message: {:?}", other),
    }

    // 1000 issued, 1500 bonded: one token is now nominally worth 1.5
    let invest = query_investment(&state).unwrap();
    assert_eq!(invest.token_supply, 1000);
    assert_eq!(invest.staked_tokens.amount, 1500);
    assert_eq!(invest.nominal_value, 15 * PRICE_ONE / 10);

    // a further bond walks the curve, not the nominal ratio: at the
    // one-to-one curve, 3000 more reserve issues 4500 - 1000 = 3500 tokens
    let info = mock_info("alice", coins(3000, "ustake"));
    execute(&mut state, &env, &info, ExecuteMsg::Bond {}, &oracle(1500, 0)).unwrap();
    assert_eq!(get_balance(&state, "alice"), 3500);
    assert_eq!(state.curve_state.reserve, 4500);
    assert_eq!(state.curve_state.supply, 4500);
}
