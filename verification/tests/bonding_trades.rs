use cw20_bondcamp::contract::{execute, instantiate, query, query_curve_info, query_token_info_with_meta};
use cw20_bondcamp::curve::{CurveType, PRICE_ONE};
use cw20_bondcamp::error::{ContractError, PaymentError};
use cw20_bondcamp::msg::{ExecuteMsg, InstantiateMsg, QueryMsg, StakingParams};
use cw20_bondcamp::query::QueryAnswer;
use cw20_bondcamp::state::ContractState;
use cw20_bondcamp::types::{BlockInfo, Coin, Duration, Effect, Env, MessageInfo, StakeOracle};

const DENOM: &str = "satoshi";
const CREATOR: &str = "creator";
const INVESTOR: &str = "investor";

fn mock_env() -> Env {
    Env {
        contract_address: "cosmos2contract".to_string(),
        block: BlockInfo { height: 12_345, time: 1_571_797_419_879_305_533 },
    }
}

fn mock_info(sender: &str, funds: Vec<Coin>) -> MessageInfo {
    MessageInfo { sender: sender.to_string(), funds }
}

fn no_oracle() -> StakeOracle {
    StakeOracle { delegations: vec![], bond_balance: 0 }
}

fn coins(amount: u128, denom: &str) -> Vec<Coin> {
    vec![Coin { denom: denom.to_string(), amount }]
}

fn setup(decimals: u8, reserve_decimals: u8, curve_type: CurveType) -> ContractState {
    let msg = InstantiateMsg {
        external_permalink_uri: "https://squarepusher.bandcamp.com/album/feed-me-weird-things-remastered"
            .to_string(),
        creator: "Squarepusher".to_string(),
        work: "Feed Me Weird Things (Remaster)".to_string(),
        description: "Feed Me Weird Things (Remaster) - Bandcamp".to_string(),
        asset_uri: Some("https://f4.bcbits.com/img/a0113459728_10.jpg".to_string()),
        name: "Windscale2Coin".to_string(),
        symbol: "WIND".to_string(),
        decimals,
        reserve_denom: DENOM.to_string(),
        reserve_decimals,
        curve_type,
        staking_params: StakingParams {
            validator: "default-validator".to_string(),
            unbonding_period: Duration::Time(3 * 86_400),
            exit_tax: 2 * (PRICE_ONE / 100),
            min_withdrawal: 50,
        },
    };
    let info = mock_info(CREATOR, vec![]);
    let validators = vec!["default-validator".to_string()];
    let (state, _) =
        instantiate(&mock_env(), &info, msg, &validators, "ustake".to_string()).unwrap();
    state
}

fn get_balance(state: &ContractState, addr: &str) -> u128 {
    match query(state, &mock_env(), QueryMsg::Balance { address: addr.to_string() }) {
        Ok(Some(QueryAnswer::Balance(b))) => b.balance,
        other => panic!("unexpected answer: {:?}", other),
    }
}

#[test]
fn buy_issues_tokens() {
    let curve_type = CurveType::Linear { slope: 1, scale: 1 };
    let mut state = setup(2, 8, curve_type);

    // succeeds with proper token (5 BTC = 5*10^8 satoshi)
    let info = mock_info(INVESTOR, coins(500_000_000, DENOM));
    execute(&mut state, &mock_env(), &info, ExecuteMsg::Buy {}, &no_oracle()).unwrap();

    // the investor got 1000 WIND (10.00)
    assert_eq!(get_balance(&state, INVESTOR), 1000);

    // second stake needs more to get the next 1000 WIND
    let info = mock_info(INVESTOR, coins(1_500_000_000, DENOM));
    execute(&mut state, &mock_env(), &info, ExecuteMsg::Buy {}, &no_oracle()).unwrap();
    assert_eq!(get_balance(&state, INVESTOR), 2000);

    // check curve info updated
    let curve = query_curve_info(&state, &curve_type).unwrap();
    assert_eq!(curve.reserve, 2_000_000_000);
    assert_eq!(curve.supply, 2000);
    assert_eq!(curve.spot_price, 2 * PRICE_ONE);

    // check token info updated
    let token = query_token_info_with_meta(&state);
    assert_eq!(token.token_info_response.decimals, 2);
    assert_eq!(token.token_info_response.total_supply, 2000);
}

#[test]
fn buying_fails_with_wrong_denom() {
    let curve_type = CurveType::Linear { slope: 1, scale: 1 };
    let mut state = setup(2, 8, curve_type);

    // fails when no tokens sent
    let info = mock_info(INVESTOR, vec![]);
    let err = execute(&mut state, &mock_env(), &info, ExecuteMsg::Buy {}, &no_oracle()).unwrap_err();
    assert_eq!(err, ContractError::Payment(PaymentError::NoFunds));

    // fails when wrong tokens sent
    let info = mock_info(INVESTOR, coins(1234567, "wei"));
    let err = execute(&mut state, &mock_env(), &info, ExecuteMsg::Buy {}, &no_oracle()).unwrap_err();
    assert_eq!(
        err,
        ContractError::Payment(PaymentError::MissingDenom(DENOM.to_string()))
    );

    // fails when too many tokens sent
    let info = mock_info(
        INVESTOR,
        vec![
            Coin { denom: DENOM.to_string(), amount: 3400022 },
            Coin { denom: "wei".to_string(), amount: 1234567 },
        ],
    );
    let err = execute(&mut state, &mock_env(), &info, ExecuteMsg::Buy {}, &no_oracle()).unwrap_err();
    assert_eq!(err, ContractError::Payment(PaymentError::MultipleDenoms));
}

#[test]
fn burning_sends_reserve() {
    let curve_type = CurveType::Linear { slope: 1, scale: 1 };
    let mut state = setup(2, 8, curve_type);

    // succeeds with proper token (20 BTC = 20*10^8 satoshi)
    let info = mock_info(INVESTOR, coins(2_000_000_000, DENOM));
    execute(&mut state, &mock_env(), &info, ExecuteMsg::Buy {}, &no_oracle()).unwrap();

    // the investor got 2000 WIND (20.00)
    assert_eq!(get_balance(&state, INVESTOR), 2000);

    // cannot burn too much
    let info = mock_info(INVESTOR, vec![]);
    let err = execute(
        &mut state,
        &mock_env(),
        &info,
        ExecuteMsg::Burn { amount: 3000 },
        &no_oracle(),
    )
    .unwrap_err();
    assert_eq!(err, ContractError::Overflow {});
    // nothing changed
    assert_eq!(get_balance(&state, INVESTOR), 2000);

    // burn 1000 WIND to get back 15 BTC (*10^8)
    let info = mock_info(INVESTOR, vec![]);
    let res = execute(
        &mut state,
        &mock_env(),
        &info,
        ExecuteMsg::Burn { amount: 1000 },
        &no_oracle(),
    )
    .unwrap();

    // balance is lower
    assert_eq!(get_balance(&state, INVESTOR), 1000);

    // ensure we got our money back
    assert_eq!(1, res.messages.len());
    match &res.messages[0] {
        Effect::Send { to_address, amount } => {
            assert_eq!(to_address.as_str(), INVESTOR);
            assert_eq!(amount.denom.as_str(), DENOM);
            assert_eq!(amount.amount, 1_500_000_000);
        }
        other => panic!("unexpected message: {:?}", other),
    }

    // check curve info updated
    let curve = query_curve_info(&state, &curve_type).unwrap();
    assert_eq!(curve.reserve, 500_000_000);
    assert_eq!(curve.supply, 1000);
    assert_eq!(curve.spot_price, PRICE_ONE);

    // check token info updated
    let token = query_token_info_with_meta(&state);
    assert_eq!(token.token_info_response.decimals, 2);
    assert_eq!(token.token_info_response.total_supply, 1000);
}

#[test]
fn constant_curve_trades() {
    // value 15, scale 1: a fixed price of 1.5 reserve per supply token
    let curve_type = CurveType::Constant { value: 15, scale: 1 };
    let mut state = setup(9, 6, curve_type);

    // spend 45_000 reserve units for 30_000_000 supply units
    let info = mock_info("bobby", coins(45_000, DENOM));
    execute(&mut state, &mock_env(), &info, ExecuteMsg::Buy {}, &no_oracle()).unwrap();
    assert_eq!(get_balance(&state, "bobby"), 30_000_000);

    // the spot price is the constant 1.5
    let curve = query_curve_info(&state, &curve_type).unwrap();
    assert_eq!(curve.spot_price, 15 * PRICE_ONE / 10);

    // burn 1_000_000 supply units to get back 1_500 reserve units
    let info = mock_info("bobby", vec![]);
    let res = execute(
        &mut state,
        &mock_env(),
        &info,
        ExecuteMsg::Burn { amount: 1_000_000 },
        &no_oracle(),
    )
    .unwrap();
    assert_eq!(get_balance(&state, "bobby"), 29_000_000);
    match &res.messages[0] {
        Effect::Send { to_address, amount } => {
            assert_eq!(to_address.as_str(), "bobby");
            assert_eq!(amount.amount, 1_500);
        }
        other => panic!("unexpected message: {:?}", other),
    }
}

#[test]
fn burn_from_sends_reserve_to_spender() {
    let curve_type = CurveType::Constant { value: 15, scale: 1 };
    let mut state = setup(9, 6, curve_type);

    let info = mock_info("bobby", coins(45_000, DENOM));
    execute(&mut state, &mock_env(), &info, ExecuteMsg::Buy {}, &no_oracle()).unwrap();

    // cannot burn more than the owner has (the allowance bookkeeping lives
    // with the standard ledger module, outside this library)
    let info = mock_info("alice", vec![]);
    let err = execute(
        &mut state,
        &mock_env(),
        &info,
        ExecuteMsg::BurnFrom { owner: "bobby".to_string(), amount: 31_000_000 },
        &no_oracle(),
    )
    .unwrap_err();
    assert_eq!(err, ContractError::Overflow {});

    // burn 1_000_000 of bobby's supply; alice receives the reserve
    let res = execute(
        &mut state,
        &mock_env(),
        &info,
        ExecuteMsg::BurnFrom { owner: "bobby".to_string(), amount: 1_000_000 },
        &no_oracle(),
    )
    .unwrap();
    assert_eq!(get_balance(&state, "bobby"), 29_000_000);
    assert_eq!(get_balance(&state, "alice"), 0);
    match &res.messages[0] {
        Effect::Send { to_address, amount } => {
            assert_eq!(to_address.as_str(), "alice");
            assert_eq!(amount.amount, 1_500);
        }
        other => panic!("unexpected message: {:?}", other),
    }
}

#[test]
fn burning_zero_is_rejected() {
    let curve_type = CurveType::Linear { slope: 1, scale: 1 };
    let mut state = setup(2, 8, curve_type);
    let info = mock_info(INVESTOR, vec![]);
    let err = execute(
        &mut state,
        &mock_env(),
        &info,
        ExecuteMsg::Burn { amount: 0 },
        &no_oracle(),
    )
    .unwrap_err();
    assert_eq!(err, ContractError::InvalidZeroAmount {});
}

#[test]
fn selling_rejects_attached_funds() {
    let curve_type = CurveType::Linear { slope: 1, scale: 1 };
    let mut state = setup(2, 8, curve_type);
    let info = mock_info(INVESTOR, coins(5, DENOM));
    let err = execute(
        &mut state,
        &mock_env(),
        &info,
        ExecuteMsg::Burn { amount: 10 },
        &no_oracle(),
    )
    .unwrap_err();
    assert_eq!(err, ContractError::Payment(PaymentError::NonPayable));
}

#[test]
fn minting_is_reserved_to_the_contract() {
    let curve_type = CurveType::Linear { slope: 1, scale: 1 };
    let mut state = setup(2, 8, curve_type);
    // a direct mint by anyone but the contract itself is rejected
    let info = mock_info(INVESTOR, vec![]);
    let err = cw20_bondcamp::bonding::execute_mint(
        &mut state,
        &mock_env(),
        &info,
        &INVESTOR.to_string(),
        100,
    )
    .unwrap_err();
    assert_eq!(err, ContractError::Unauthorized {});

    // the contract itself may mint
    let info = mock_info("cosmos2contract", vec![]);
    cw20_bondcamp::bonding::execute_mint(
        &mut state,
        &mock_env(),
        &info,
        &INVESTOR.to_string(),
        100,
    )
    .unwrap();
    assert_eq!(get_balance(&state, INVESTOR), 100);
}

#[test]
fn minting_cannot_exceed_a_cap() {
    let curve_type = CurveType::Linear { slope: 1, scale: 1 };
    let mut state = setup(2, 8, curve_type);
    // configure a cap, as a token with a limited supply would
    if let Some(m) = &mut state.token_info.token_info.mint {
        m.cap = Some(150);
    }
    let info = mock_info("cosmos2contract", vec![]);
    cw20_bondcamp::bonding::execute_mint(&mut state, &mock_env(), &info, &INVESTOR.to_string(), 100)
        .unwrap();
    let err = cw20_bondcamp::bonding::execute_mint(
        &mut state,
        &mock_env(),
        &info,
        &INVESTOR.to_string(),
        100,
    )
    .unwrap_err();
    assert_eq!(err, ContractError::CannotExceedCap {});
    assert_eq!(get_balance(&state, INVESTOR), 100);
}

#[test]
fn buy_then_sell_yields_no_more_than_paid() {
    let curve_type = CurveType::Linear { slope: 1, scale: 1 };
    let mut state = setup(2, 8, curve_type);

    // an uneven payment that does not land on a whole supply unit
    let paid: u128 = 700_000_000;
    let info = mock_info(INVESTOR, coins(paid, DENOM));
    execute(&mut state, &mock_env(), &info, ExecuteMsg::Buy {}, &no_oracle()).unwrap();
    let minted = get_balance(&state, INVESTOR);
    assert_eq!(minted, 1183);

    // selling everything that was minted returns exactly what was paid
    let info = mock_info(INVESTOR, vec![]);
    let res = execute(
        &mut state,
        &mock_env(),
        &info,
        ExecuteMsg::Burn { amount: minted },
        &no_oracle(),
    )
    .unwrap();
    match &res.messages[0] {
        Effect::Send { to_address: _, amount } => {
            assert!(amount.amount <= paid);
            assert_eq!(amount.amount, paid);
        }
        other => panic!("unexpected message: {:?}", other),
    }
    assert_eq!(state.curve_state.reserve, 0);
    assert_eq!(state.curve_state.supply, 0);
}

#[test]
fn balances_always_sum_to_the_total_supply() {
    let curve_type = CurveType::Linear { slope: 1, scale: 1 };
    let mut state = setup(2, 8, curve_type);

    let check = |state: &ContractState| {
        let sum: u128 = state.balances.iter().map(|e| e.amount).sum();
        assert_eq!(sum, state.token_info.token_info.total_supply);
    };
    check(&state);

    let info = mock_info(INVESTOR, coins(500_000_000, DENOM));
    execute(&mut state, &mock_env(), &info, ExecuteMsg::Buy {}, &no_oracle()).unwrap();
    check(&state);

    let info = mock_info("carl", coins(1_500_000_000, DENOM));
    execute(&mut state, &mock_env(), &info, ExecuteMsg::Buy {}, &no_oracle()).unwrap();
    check(&state);

    let info = mock_info(INVESTOR, vec![]);
    execute(&mut state, &mock_env(), &info, ExecuteMsg::Burn { amount: 400 }, &no_oracle())
        .unwrap();
    check(&state);

    // a failing operation changes nothing
    execute(&mut state, &mock_env(), &info, ExecuteMsg::Burn { amount: 10_000 }, &no_oracle())
        .unwrap_err();
    check(&state);
}
