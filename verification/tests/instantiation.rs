use cw20_bondcamp::contract::{instantiate, query_curve_info, query_token_info_with_meta};
use cw20_bondcamp::curve::{CurveType, PRICE_ONE};
use cw20_bondcamp::error::ContractError;
use cw20_bondcamp::msg::{InstantiateMsg, StakingParams};
use cw20_bondcamp::staking::query_investment;
use cw20_bondcamp::state::ContractState;
use cw20_bondcamp::types::{BlockInfo, Coin, Duration, Env, MessageInfo};

const DENOM: &str = "satoshi";
const CREATOR: &str = "creator";
const DEFAULT_VALIDATOR: &str = "default-validator";

fn mock_env() -> Env {
    Env {
        contract_address: "cosmos2contract".to_string(),
        block: BlockInfo { height: 12_345, time: 1_571_797_419_879_305_533 },
    }
}

fn mock_info(sender: &str, funds: Vec<Coin>) -> MessageInfo {
    MessageInfo { sender: sender.to_string(), funds }
}

fn default_instantiate(
    asset_uri: Option<String>,
    decimals: u8,
    reserve_decimals: u8,
    curve_type: CurveType,
    tax_percent: u64,
    min_withdrawal: u128,
) -> InstantiateMsg {
    InstantiateMsg {
        external_permalink_uri: "https://squarepusher.bandcamp.com/album/feed-me-weird-things-remastered"
            .to_string(),
        creator: "Squarepusher".to_string(),
        work: "Feed Me Weird Things (Remaster)".to_string(),
        description: "Feed Me Weird Things (Remaster) - Bandcamp".to_string(),
        asset_uri,
        name: "Windscale2Coin".to_string(),
        symbol: "WIND".to_string(),
        decimals,
        reserve_denom: DENOM.to_string(),
        reserve_decimals,
        curve_type,
        staking_params: StakingParams {
            validator: String::from(DEFAULT_VALIDATOR),
            unbonding_period: Duration::Time(3 * 86_400),
            exit_tax: tax_percent as u128 * (PRICE_ONE / 100),
            min_withdrawal,
        },
    }
}

fn setup(
    asset_uri: Option<String>,
    decimals: u8,
    reserve_decimals: u8,
    curve_type: CurveType,
) -> ContractState {
    let msg = default_instantiate(asset_uri, decimals, reserve_decimals, curve_type, 2, 50);
    let info = mock_info(CREATOR, vec![]);
    let validators = vec![DEFAULT_VALIDATOR.to_string()];
    let (state, res) =
        instantiate(&mock_env(), &info, msg, &validators, "ustake".to_string()).unwrap();
    assert_eq!(0, res.messages.len());
    state
}

#[test]
fn proper_instantiation() {
    let curve_type = CurveType::SquareRoot { slope: 1, scale: 1 };
    let msg = default_instantiate(
        Some("https://f4.bcbits.com/img/a0113459728_10.jpg".to_string()),
        2,
        8,
        curve_type,
        2,
        50,
    );
    let info = mock_info(CREATOR, vec![]);
    let validators = vec![DEFAULT_VALIDATOR.to_string()];
    let (state, res) =
        instantiate(&mock_env(), &info, msg, &validators, "ustake".to_string()).unwrap();
    assert_eq!(0, res.messages.len());

    // token info is proper
    let token = query_token_info_with_meta(&state);
    assert_eq!(
        &token.external_permalink_uri,
        "https://squarepusher.bandcamp.com/album/feed-me-weird-things-remastered"
    );
    assert_eq!(&token.creator, "Squarepusher");
    assert_eq!(&token.work, "Feed Me Weird Things (Remaster)");
    assert_eq!(&token.description, "Feed Me Weird Things (Remaster) - Bandcamp");
    assert_eq!(
        token.asset_uri,
        Some("https://f4.bcbits.com/img/a0113459728_10.jpg".to_string())
    );
    assert_eq!(&token.token_info_response.name, "Windscale2Coin");
    assert_eq!(&token.token_info_response.symbol, "WIND");
    assert_eq!(token.token_info_response.decimals, 2);
    assert_eq!(token.token_info_response.total_supply, 0);

    // curve state is sensible
    let curve = query_curve_info(&state, &curve_type).unwrap();
    assert_eq!(curve.reserve, 0);
    assert_eq!(curve.supply, 0);
    assert_eq!(curve.reserve_denom.as_str(), DENOM);
    // spot price 0 as supply is 0
    assert_eq!(curve.spot_price, 0);

    // curve type is stored properly
    assert_eq!(state.curve_type, curve_type);

    // no balance
    let bal = cw20_bondcamp::ledger::balance_of(&state.balances, &CREATOR.to_string());
    assert_eq!(bal, 0);
}

#[test]
fn proper_instantiation_even_with_no_asset_uri() {
    let curve_type = CurveType::SquareRoot { slope: 1, scale: 1 };
    let state = setup(None, 2, 8, curve_type);

    let token = query_token_info_with_meta(&state);
    assert_eq!(token.asset_uri, None);
    assert_eq!(&token.token_info_response.name, "Windscale2Coin");
    assert_eq!(&token.token_info_response.symbol, "WIND");
    assert_eq!(token.token_info_response.decimals, 2);
    assert_eq!(token.token_info_response.total_supply, 0);

    let curve = query_curve_info(&state, &curve_type).unwrap();
    assert_eq!(curve.reserve, 0);
    assert_eq!(curve.supply, 0);
    assert_eq!(curve.reserve_denom.as_str(), DENOM);
    assert_eq!(curve.spot_price, 0);
    assert_eq!(state.curve_type, curve_type);
}

#[test]
fn proper_staking_instantiation() {
    let curve_type = CurveType::Linear { slope: 1, scale: 1 };
    let msg = InstantiateMsg {
        external_permalink_uri: "https://squarepusher.bandcamp.com/album/feed-me-weird-things-remastered"
            .to_string(),
        creator: "Squarepusher".to_string(),
        work: "Feed Me Weird Things (Remaster)".to_string(),
        description: "Feed Me Weird Things (Remaster) - Bandcamp".to_string(),
        name: "Windscale2Coin".to_string(),
        symbol: "WIND".to_string(),
        decimals: 2,
        reserve_denom: DENOM.to_string(),
        reserve_decimals: 8,
        asset_uri: None,
        curve_type,
        staking_params: StakingParams {
            validator: String::from("my-validator-addr"),
            unbonding_period: Duration::Time(3 * 86_400),
            exit_tax: 2 * (PRICE_ONE / 100),
            min_withdrawal: 50,
        },
    };
    let info = mock_info(CREATOR, vec![]);
    let validators = vec![
        "john".to_string(),
        "mary".to_string(),
        "my-validator-addr".to_string(),
    ];
    let (state, res) =
        instantiate(&mock_env(), &info, msg, &validators, "ustake".to_string()).unwrap();
    assert_eq!(0, res.messages.len());

    // token info is proper
    let token = query_token_info_with_meta(&state);
    assert_eq!(&token.token_info_response.name, "Windscale2Coin");
    assert_eq!(&token.token_info_response.symbol, "WIND");
    assert_eq!(token.token_info_response.decimals, 2);
    assert_eq!(token.token_info_response.total_supply, 0);

    // no balance, no claims
    let bal = cw20_bondcamp::ledger::balance_of(&state.balances, &CREATOR.to_string());
    assert_eq!(bal, 0);
    let claims = cw20_bondcamp::claims::query_claims(&state.claims, &CREATOR.to_string());
    assert!(claims.is_empty());

    // investment info correct
    let invest = query_investment(&state).unwrap();
    assert_eq!(&invest.owner, CREATOR);
    assert_eq!(&invest.validator, "my-validator-addr");
    assert_eq!(invest.exit_tax, 2 * (PRICE_ONE / 100));
    assert_eq!(invest.min_withdrawal, 50);
    assert_eq!(invest.token_supply, 0);
    assert_eq!(invest.staked_tokens.denom.as_str(), "ustake");
    assert_eq!(invest.staked_tokens.amount, 0);
    assert_eq!(invest.nominal_value, PRICE_ONE);
}

#[test]
fn instantiation_with_missing_validator() {
    let curve_type = CurveType::Linear { slope: 1, scale: 1 };
    let mut msg = default_instantiate(None, 2, 8, curve_type, 2, 50);
    msg.staking_params.validator = String::from("my-validator-addr");
    let info = mock_info(CREATOR, vec![]);
    let validators = vec!["john".to_string()];
    let err = instantiate(&mock_env(), &info, msg, &validators, "ustake".to_string()).unwrap_err();
    assert_eq!(
        err,
        ContractError::NotInValidatorSet { validator: "my-validator-addr".into() }
    );
}

#[test]
fn instantiation_rejects_attached_funds() {
    let curve_type = CurveType::Linear { slope: 1, scale: 1 };
    let msg = default_instantiate(None, 2, 8, curve_type, 2, 50);
    let info = mock_info(
        CREATOR,
        vec![Coin { denom: DENOM.to_string(), amount: 5 }],
    );
    let validators = vec![DEFAULT_VALIDATOR.to_string()];
    let err = instantiate(&mock_env(), &info, msg, &validators, "ustake".to_string()).unwrap_err();
    assert_eq!(
        err,
        ContractError::Payment(cw20_bondcamp::error::PaymentError::NonPayable)
    );
}
