//! The curve-priced trades and the ledger primitives they settle through:
//! minting and burning supply tokens, buying with reserve, and selling
//! supply back for reserve.
//!
//! Every operation takes the contract state by mutable reference and is
//! atomic: on any error the state is exactly as it was.

use vstd::prelude::*;

use crate::curve::CurveType;
use crate::curve::reserve_for;
use crate::curve::reserve_for_fits;
use crate::curve::spec_reserve_for;
use crate::curve::spec_supply_for;
use crate::curve::supply_for;
use crate::curve::supply_for_fits;
use crate::error::ContractError;
use crate::ledger::add_to_balance;
use crate::ledger::balance_of;
use crate::ledger::lemma_balance_le_sum;
use crate::ledger::spec_balance_of;
use crate::ledger::sub_from_balance;
use crate::state::ContractState;
use crate::state::TokenInfoWithMeta;
use crate::types::Attribute;
use crate::types::AttrValue;
use crate::types::Coin;
use crate::types::Effect;
use crate::types::Env;
use crate::types::MessageInfo;
use crate::types::Response;
use crate::types::attr_amount;
use crate::types::attr_text;
use crate::types::coin_is;
use crate::types::must_pay;
use crate::types::nonpayable;
use crate::types::spec_must_pay;

verus! {

/// The token metadata fields other than the supply counter are the same.
pub open spec fn token_meta_unchanged(a: TokenInfoWithMeta, b: TokenInfoWithMeta) -> bool {
    &&& a.external_permalink_uri == b.external_permalink_uri
    &&& a.creator == b.creator
    &&& a.work == b.work
    &&& a.description == b.description
    &&& a.asset_uri == b.asset_uri
    &&& a.token_info.name == b.token_info.name
    &&& a.token_info.symbol == b.token_info.symbol
    &&& a.token_info.decimals == b.token_info.decimals
    &&& a.token_info.mint == b.token_info.mint
}

/// Everything except the ledger (balances and supply counter) is the same.
pub open spec fn non_ledger_unchanged(a: ContractState, b: ContractState) -> bool {
    &&& a.curve_state == b.curve_state
    &&& a.curve_type == b.curve_type
    &&& a.invest == b.invest
    &&& a.claims@ == b.claims@
    &&& token_meta_unchanged(a.token_info, b.token_info)
}

/// Why a mint of `amount` by `sender` would be rejected when the ledger
/// stands at `total` with the given minter configuration, if it would be.
pub open spec fn spec_mint_check_core(
    mint: Option<crate::state::MinterData>,
    total: nat,
    sender: Seq<char>,
    amount: u128,
) -> Option<ContractError> {
    if amount == 0 {
        Some(ContractError::InvalidZeroAmount {})
    } else if !(mint matches Some(m) && m.minter@ == sender) {
        Some(ContractError::Unauthorized {})
    } else if total + amount > u128::MAX {
        Some(ContractError::Overflow {})
    } else if (match mint {
        Some(m) => m.cap,
        None => None,
    }) matches Some(c) && total + amount > c {
        Some(ContractError::CannotExceedCap {})
    } else {
        None
    }
}

/// Why a mint of `amount` by `sender` would be rejected, if it would be.
pub open spec fn spec_mint_check(t: TokenInfoWithMeta, sender: Seq<char>, amount: u128) -> Option<
    ContractError,
> {
    spec_mint_check_core(t.token_info.mint, t.token_info.total_supply as nat, sender, amount)
}

/// Why a burn of `amount` from `sender` would be rejected, if it would be.
pub open spec fn spec_burn_check(s: ContractState, sender: Seq<char>, amount: u128) -> Option<
    ContractError,
> {
    if amount == 0 {
        Some(ContractError::InvalidZeroAmount {})
    } else if amount > spec_balance_of(s.balances@, sender) {
        Some(ContractError::Overflow {})
    } else {
        None
    }
}

pub(crate) fn attr_of_text(key: &str, value: String) -> (a: Attribute)
    ensures
        attr_text(a, key@, value@),
{
    Attribute { key: key.to_owned(), value: AttrValue::Text(value) }
}

pub(crate) fn attr_of_amount(key: &str, value: u128) -> (a: Attribute)
    ensures
        attr_amount(a, key@, value),
{
    Attribute { key: key.to_owned(), value: AttrValue::Amount(value) }
}

/// Mints `amount` new supply tokens to `recipient`.  Only the configured
/// minter — the contract itself — may mint; a configured cap is enforced.
pub fn execute_mint(
    state: &mut ContractState,
    _env: &Env,
    info: &MessageInfo,
    recipient: &String,
    amount: u128,
) -> (r: Result<Response, ContractError>)
    requires
        old(state).wf(),
    ensures
        final(state).wf(),
        r is Err ==> *final(state) == *old(state),
        r is Err ==> (spec_mint_check(old(state).token_info, info.sender@, amount) matches Some(e)
            && r == Err::<Response, ContractError>(e)),
        r is Ok <==> spec_mint_check(old(state).token_info, info.sender@, amount) is None,
        r matches Ok(resp) ==> {
            &&& final(state).token_info.token_info.total_supply == old(
                state,
            ).token_info.token_info.total_supply + amount
            &&& spec_balance_of(final(state).balances@, recipient@) == spec_balance_of(
                old(state).balances@,
                recipient@,
            ) + amount
            &&& forall|b: Seq<char>|
                b != recipient@ ==> spec_balance_of(final(state).balances@, b) == spec_balance_of(
                    old(state).balances@,
                    b,
                )
            &&& non_ledger_unchanged(*final(state), *old(state))
            &&& resp.messages@.len() == 0
            &&& resp.attributes@.len() == 3
            &&& attr_text(resp.attributes@[0], "action"@, "mint"@)
            &&& attr_text(resp.attributes@[1], "to"@, recipient@)
            &&& attr_amount(resp.attributes@[2], "amount"@, amount)
        },
{
    if amount == 0 {
        return Err(ContractError::InvalidZeroAmount {});
    }
    let authorized = match &state.token_info.token_info.mint {
        Some(m) => m.minter == info.sender,
        None => false,
    };
    if !authorized {
        return Err(ContractError::Unauthorized {});
    }
    let total = state.token_info.token_info.total_supply;
    let new_total = match total.checked_add(amount) {
        Some(v) => v,
        None => {
            return Err(ContractError::Overflow {});
        },
    };
    match state.token_info.get_cap() {
        Some(limit) => {
            if new_total > limit {
                return Err(ContractError::CannotExceedCap {});
            }
        },
        None => {},
    }
    proof {
        lemma_balance_le_sum(state.balances@, recipient@);
    }
    state.token_info.token_info.total_supply = new_total;
    add_to_balance(&mut state.balances, recipient, amount);
    let mut attributes: Vec<Attribute> = Vec::new();
    attributes.push(attr_of_text("action", "mint".to_owned()));
    attributes.push(attr_of_text("to", recipient.clone()));
    attributes.push(attr_of_amount("amount", amount));
    Ok(Response { messages: Vec::new(), attributes })
}

/// Burns `amount` supply tokens from the caller's balance.
pub fn execute_burn(state: &mut ContractState, _env: &Env, info: &MessageInfo, amount: u128) -> (r:
    Result<Response, ContractError>)
    requires
        old(state).wf(),
    ensures
        final(state).wf(),
        r is Err ==> *final(state) == *old(state),
        r is Err ==> (spec_burn_check(*old(state), info.sender@, amount) matches Some(e) && r
            == Err::<Response, ContractError>(e)),
        r is Ok <==> spec_burn_check(*old(state), info.sender@, amount) is None,
        r matches Ok(resp) ==> {
            &&& final(state).token_info.token_info.total_supply == old(
                state,
            ).token_info.token_info.total_supply - amount
            &&& spec_balance_of(final(state).balances@, info.sender@) == spec_balance_of(
                old(state).balances@,
                info.sender@,
            ) - amount
            &&& forall|b: Seq<char>|
                b != info.sender@ ==> spec_balance_of(final(state).balances@, b)
                    == spec_balance_of(old(state).balances@, b)
            &&& non_ledger_unchanged(*final(state), *old(state))
            &&& resp.messages@.len() == 0
            &&& resp.attributes@.len() == 3
            &&& attr_text(resp.attributes@[0], "action"@, "burn"@)
            &&& attr_text(resp.attributes@[1], "from"@, info.sender@)
            &&& attr_amount(resp.attributes@[2], "amount"@, amount)
        },
{
    if amount == 0 {
        return Err(ContractError::InvalidZeroAmount {});
    }
    proof {
        lemma_balance_le_sum(state.balances@, info.sender@);
    }
    match sub_from_balance(&mut state.balances, &info.sender, amount) {
        Ok(_) => {},
        Err(e) => {
            return Err(e);
        },
    }
    state.token_info.token_info.total_supply = state.token_info.token_info.total_supply - amount;
    let mut attributes: Vec<Attribute> = Vec::new();
    attributes.push(attr_of_text("action", "burn".to_owned()));
    attributes.push(attr_of_text("from", info.sender.clone()));
    attributes.push(attr_of_amount("amount", amount));
    Ok(Response { messages: Vec::new(), attributes })
}

/// What the curve step of a buy concludes: the new supply and the minted
/// difference, or the arithmetic fault.
pub open spec fn spec_buy_curve(s: ContractState, curve: CurveType, payment: u128) -> Result<
    (nat, nat),
    ContractError,
> {
    if s.curve_state.reserve + payment > u128::MAX {
        Err(ContractError::Overflow {})
    } else if !supply_for_fits(curve, s.curve_state.decimals, (s.curve_state.reserve
        + payment) as nat) {
        Err(ContractError::Overflow {})
    } else {
        let ns = spec_supply_for(curve, s.curve_state.decimals, (s.curve_state.reserve
            + payment) as nat);
        if ns < s.curve_state.supply {
            Err(ContractError::Overflow {})
        } else {
            Ok((ns, (ns - s.curve_state.supply) as nat))
        }
    }
}

/// Everything the contract of [`execute_buy`] states: how the state after
/// the call (`post`) relates to the one before it (`pre`), and which
/// result comes back for which inputs.
pub open spec fn buy_post(pre: ContractState, post: ContractState, env: Env, info: MessageInfo, curve: CurveType, r: Result<Response, ContractError>) -> bool {
    &&& (post.wf())
    &&& (r is Err ==> post == pre)
    &&& (spec_must_pay(info.funds@, pre.curve_state.reserve_denom) matches Err(e) ==> r
            == Err::<Response, ContractError>(ContractError::Payment(e)))
    &&& (spec_must_pay(info.funds@, pre.curve_state.reserve_denom) matches Ok(payment) ==> {
            &&& spec_buy_curve(pre, curve, payment) matches Err(e) ==> r == Err::<
                Response,
                ContractError,
            >(e)
            &&& (spec_buy_curve(pre, curve, payment) matches Ok((ns, minted)) ==> {
                &&& (spec_mint_check(pre.token_info, env.contract_address@, minted as u128)
                    matches Some(e) ==> r == Err::<Response, ContractError>(e))
                &&& (spec_mint_check(pre.token_info, env.contract_address@, minted as u128)
                    is None ==> {
                    &&& r is Ok
                    &&& post.curve_state.reserve == pre.curve_state.reserve + payment
                    &&& post.curve_state.supply == ns
                    &&& post.curve_state.reserve_denom == pre.curve_state.reserve_denom
                    &&& post.curve_state.decimals == pre.curve_state.decimals
                    &&& post.curve_state.claims == pre.curve_state.claims
                    &&& post.token_info.token_info.total_supply == pre.token_info.token_info.total_supply + minted
                    &&& spec_balance_of(post.balances@, info.sender@) == spec_balance_of(
                        pre.balances@,
                        info.sender@,
                    ) + minted
                    &&& forall|b: Seq<char>|
                        b != info.sender@ ==> spec_balance_of(post.balances@, b)
                            == spec_balance_of(pre.balances@, b)
                    &&& post.curve_type == pre.curve_type
                    &&& post.invest == pre.invest
                    &&& post.claims@ == pre.claims@
                    &&& token_meta_unchanged(post.token_info, pre.token_info)
                    &&& (r matches Ok(resp) ==> {
                        &&& resp.messages@.len() == 0
                        &&& resp.attributes@.len() == 4
                        &&& attr_text(resp.attributes@[0], "action"@, "buy"@)
                        &&& attr_text(resp.attributes@[1], "from"@, info.sender@)
                        &&& attr_amount(resp.attributes@[2], "reserve"@, payment)
                        &&& attr_amount(resp.attributes@[3], "supply"@, minted as u128)
                    })
                })
            })
        })
}

/// Buys supply tokens with the attached reserve payment: the payment joins
/// the reserve, the curve determines the new supply, and the difference is
/// minted to the payer.
pub fn execute_buy(state: &mut ContractState, env: &Env, info: &MessageInfo, curve: &CurveType) -> (
    r: Result<Response, ContractError>)
    requires
        old(state).wf(),
        curve.wf(old(state).curve_state.decimals),
    ensures
        buy_post(*old(state), *final(state), *env, *info, *curve, r),

{
    let payment = match must_pay(info, &state.curve_state.reserve_denom) {
        Ok(p) => p,
        Err(e) => {
            return Err(ContractError::Payment(e));
        },
    };
    let new_reserve = match state.curve_state.reserve.checked_add(payment) {
        Some(v) => v,
        None => {
            return Err(ContractError::Overflow {});
        },
    };
    let new_supply = match supply_for(curve, &state.curve_state.decimals, new_reserve) {
        Ok(v) => v,
        Err(e) => {
            return Err(e);
        },
    };
    let minted = match new_supply.checked_sub(state.curve_state.supply) {
        Some(v) => v,
        None => {
            return Err(ContractError::Overflow {});
        },
    };
    // mint to the payer, acting as the contract itself: nobody else may
    let sub_info = MessageInfo { sender: env.contract_address.clone(), funds: Vec::new() };
    match execute_mint(state, env, &sub_info, &info.sender, minted) {
        Ok(_) => {},
        Err(e) => {
            return Err(e);
        },
    }
    state.curve_state.reserve = new_reserve;
    state.curve_state.supply = new_supply;
    let mut attributes: Vec<Attribute> = Vec::new();
    attributes.push(attr_of_text("action", "buy".to_owned()));
    attributes.push(attr_of_text("from", info.sender.clone()));
    attributes.push(attr_of_amount("reserve", payment));
    attributes.push(attr_of_amount("supply", minted));
    Ok(Response { messages: Vec::new(), attributes })
}

/// What the curve step of a sell concludes: the new supply, the new
/// reserve and the released difference, or the arithmetic fault.
pub open spec fn spec_sell_curve(s: ContractState, curve: CurveType, amount: u128) -> Result<
    (nat, nat, nat),
    ContractError,
> {
    if s.curve_state.supply < amount {
        Err(ContractError::Overflow {})
    } else if !reserve_for_fits(curve, s.curve_state.decimals, (s.curve_state.supply
        - amount) as nat) {
        Err(ContractError::Overflow {})
    } else {
        let ns = (s.curve_state.supply - amount) as nat;
        let nr = spec_reserve_for(curve, s.curve_state.decimals, ns);
        if nr > s.curve_state.reserve {
            Err(ContractError::Overflow {})
        } else {
            Ok((ns, nr, (s.curve_state.reserve - nr) as nat))
        }
    }
}

/// A sell of `amount` by `sender` has been applied: the curve figures moved
/// to `ns` and `nr`, the tokens were burnt, and nothing else changed.
pub open spec fn sell_applied(
    old_state: ContractState,
    new_state: ContractState,
    sender: Seq<char>,
    amount: u128,
    ns: nat,
    nr: nat,
) -> bool {
    &&& new_state.curve_state.supply == ns
    &&& new_state.curve_state.reserve == nr
    &&& new_state.curve_state.reserve_denom == old_state.curve_state.reserve_denom
    &&& new_state.curve_state.decimals == old_state.curve_state.decimals
    &&& new_state.curve_state.claims == old_state.curve_state.claims
    &&& new_state.token_info.token_info.total_supply
        == old_state.token_info.token_info.total_supply - amount
    &&& spec_balance_of(new_state.balances@, sender) == spec_balance_of(
        old_state.balances@,
        sender,
    ) - amount
    &&& forall|b: Seq<char>|
        b != sender ==> spec_balance_of(new_state.balances@, b) == spec_balance_of(
            old_state.balances@,
            b,
        )
    &&& new_state.curve_type == old_state.curve_type
    &&& new_state.invest == old_state.invest
    &&& new_state.claims@ == old_state.claims@
    &&& token_meta_unchanged(new_state.token_info, old_state.token_info)
}

/// The response of a sell transfers `released` reserve to `receiver` and
/// records the burner, the supply burnt and the reserve released.
pub open spec fn sell_response(
    resp: Response,
    burner: Seq<char>,
    receiver: Seq<char>,
    denom: Seq<char>,
    amount: u128,
    released: u128,
) -> bool {
    &&& resp.messages@.len() == 1
    &&& (resp.messages@[0] matches Effect::Send { to_address, amount: c } && to_address@
        == receiver && coin_is(c, denom, released))
    &&& resp.attributes@.len() >= 3
    &&& attr_text(resp.attributes@[0], "from"@, burner)
    &&& attr_amount(resp.attributes@[1], "supply"@, amount)
    &&& attr_amount(resp.attributes@[2], "reserve"@, released)
}

/// The shared sell logic: burns `amount` from `info.sender`, walks the
/// curve down, and sends the released reserve to `receiver`.
fn do_sell(
    state: &mut ContractState,
    env: &Env,
    info: &MessageInfo,
    curve: &CurveType,
    receiver: &String,
    amount: u128,
) -> (r: Result<Response, ContractError>)
    requires
        old(state).wf(),
        curve.wf(old(state).curve_state.decimals),
    ensures
        final(state).wf(),
        r is Err ==> *final(state) == *old(state),
        spec_burn_check(*old(state), info.sender@, amount) matches Some(e) ==> r == Err::<
            Response,
            ContractError,
        >(e),
        spec_burn_check(*old(state), info.sender@, amount) is None ==> {
            &&& (spec_sell_curve(*old(state), *curve, amount) matches Err(e) ==> r == Err::<
                Response,
                ContractError,
            >(e))
            &&& (spec_sell_curve(*old(state), *curve, amount) matches Ok((ns, nr, released)) ==> {
                &&& r is Ok
                &&& sell_applied(*old(state), *final(state), info.sender@, amount, ns, nr)
                &&& (r matches Ok(resp) ==> {
                    &&& sell_response(
                        resp,
                        info.sender@,
                        receiver@,
                        old(state).curve_state.reserve_denom@,
                        amount,
                        released as u128,
                    )
                    &&& resp.attributes@.len() == 3
                })
            })
        },
{
    // test the burn's own conditions first, so that no state is touched
    // before the last fallible step
    if amount == 0 {
        return Err(ContractError::InvalidZeroAmount {});
    }
    let bal = balance_of(&state.balances, &info.sender);
    if amount > bal {
        return Err(ContractError::Overflow {});
    }
    let new_supply = match state.curve_state.supply.checked_sub(amount) {
        Some(v) => v,
        None => {
            return Err(ContractError::Overflow {});
        },
    };
    let new_reserve = match reserve_for(curve, &state.curve_state.decimals, new_supply) {
        Ok(v) => v,
        Err(e) => {
            return Err(e);
        },
    };
    let released = match state.curve_state.reserve.checked_sub(new_reserve) {
        Some(v) => v,
        None => {
            return Err(ContractError::Overflow {});
        },
    };
    match execute_burn(state, env, info, amount) {
        Ok(_) => {},
        Err(e) => {
            return Err(e);
        },
    }
    state.curve_state.supply = new_supply;
    state.curve_state.reserve = new_reserve;
    let mut messages: Vec<Effect> = Vec::new();
    messages.push(
        Effect::Send {
            to_address: receiver.clone(),
            amount: Coin { denom: state.curve_state.reserve_denom.clone(), amount: released },
        },
    );
    let mut attributes: Vec<Attribute> = Vec::new();
    attributes.push(attr_of_text("from", info.sender.clone()));
    attributes.push(attr_of_amount("supply", amount));
    attributes.push(attr_of_amount("reserve", released));
    Ok(Response { messages, attributes })
}

/// Everything the contract of [`execute_sell`] states: how the state after
/// the call (`post`) relates to the one before it (`pre`), and which
/// result comes back for which inputs.
pub open spec fn sell_post(pre: ContractState, post: ContractState, env: Env, info: MessageInfo, curve: CurveType, amount: u128, r: Result<Response, ContractError>) -> bool {
    &&& (post.wf())
    &&& (r is Err ==> post == pre)
    &&& (info.funds@.len() != 0 ==> r == Err::<Response, ContractError>(
            ContractError::Payment(crate::error::PaymentError::NonPayable),
        ))
    &&& (info.funds@.len() == 0 ==> {
            &&& (spec_burn_check(pre, info.sender@, amount) matches Some(e) ==> r == Err::<
                Response,
                ContractError,
            >(e))
            &&& (spec_burn_check(pre, info.sender@, amount) is None ==> {
                &&& (spec_sell_curve(pre, curve, amount) matches Err(e) ==> r == Err::<
                    Response,
                    ContractError,
                >(e))
                &&& (spec_sell_curve(pre, curve, amount) matches Ok((ns, nr, released))
                    ==> {
                    &&& r is Ok
                    &&& sell_applied(pre, post, info.sender@, amount, ns, nr)
                    &&& (r matches Ok(resp) ==> {
                        &&& sell_response(
                            resp,
                            info.sender@,
                            info.sender@,
                            pre.curve_state.reserve_denom@,
                            amount,
                            released as u128,
                        )
                        &&& resp.attributes@.len() == 4
                        &&& attr_text(resp.attributes@[3], "action"@, "burn"@)
                    })
                })
            })
        })
}

/// Sells `amount` supply tokens back to the curve: burns them from the
/// caller and sends the released reserve to the caller.
pub fn execute_sell(
    state: &mut ContractState,
    env: &Env,
    info: &MessageInfo,
    curve: &CurveType,
    amount: u128,
) -> (r: Result<Response, ContractError>)
    requires
        old(state).wf(),
        curve.wf(old(state).curve_state.decimals),
    ensures
        sell_post(*old(state), *final(state), *env, *info, *curve, amount, r),

{
    match nonpayable(info) {
        Ok(_) => {},
        Err(e) => {
            return Err(ContractError::Payment(e));
        },
    }
    let receiver = info.sender.clone();
    let mut res = match do_sell(state, env, info, curve, &receiver, amount) {
        Ok(v) => v,
        Err(e) => {
            return Err(e);
        },
    };
    res.attributes.push(attr_of_text("action", "burn".to_owned()));
    Ok(res)
}

/// Everything the contract of [`execute_sell_from`] states: how the state after
/// the call (`post`) relates to the one before it (`pre`), and which
/// result comes back for which inputs.
pub open spec fn sell_from_post(pre: ContractState, post: ContractState, env: Env, info: MessageInfo, curve: CurveType, owner: String, amount: u128, r: Result<Response, ContractError>) -> bool {
    &&& (post.wf())
    &&& (r is Err ==> post == pre)
    &&& (info.funds@.len() != 0 ==> r == Err::<Response, ContractError>(
            ContractError::Payment(crate::error::PaymentError::NonPayable),
        ))
    &&& (info.funds@.len() == 0 ==> {
            &&& (spec_burn_check(pre, owner@, amount) matches Some(e) ==> r == Err::<
                Response,
                ContractError,
            >(e))
            &&& (spec_burn_check(pre, owner@, amount) is None ==> {
                &&& (spec_sell_curve(pre, curve, amount) matches Err(e) ==> r == Err::<
                    Response,
                    ContractError,
                >(e))
                &&& (spec_sell_curve(pre, curve, amount) matches Ok((ns, nr, released))
                    ==> {
                    &&& r is Ok
                    &&& sell_applied(pre, post, owner@, amount, ns, nr)
                    &&& (r matches Ok(resp) ==> {
                        &&& sell_response(
                            resp,
                            owner@,
                            info.sender@,
                            pre.curve_state.reserve_denom@,
                            amount,
                            released as u128,
                        )
                        &&& resp.attributes@.len() == 5
                        &&& attr_text(resp.attributes@[3], "action"@, "burn_from"@)
                        &&& attr_text(resp.attributes@[4], "by"@, info.sender@)
                    })
                })
            })
        })
}

/// Sells `amount` supply tokens from `owner`'s balance at the caller's
/// request; the released reserve goes to the caller.  The caller's
/// spending allowance is part of the standard token-ledger surface and
/// must have been deducted before the state reaches this operation.
pub fn execute_sell_from(
    state: &mut ContractState,
    env: &Env,
    info: &MessageInfo,
    curve: &CurveType,
    owner: &String,
    amount: u128,
) -> (r: Result<Response, ContractError>)
    requires
        old(state).wf(),
        curve.wf(old(state).curve_state.decimals),
    ensures
        sell_from_post(*old(state), *final(state), *env, *info, *curve, *owner, amount, r),

{
    match nonpayable(info) {
        Ok(_) => {},
        Err(e) => {
            return Err(ContractError::Payment(e));
        },
    }
    let owner_info = MessageInfo { sender: owner.clone(), funds: Vec::new() };
    let mut res = match do_sell(state, env, &owner_info, curve, &info.sender, amount) {
        Ok(v) => v,
        Err(e) => {
            return Err(e);
        },
    };
    res.attributes.push(attr_of_text("action", "burn_from".to_owned()));
    res.attributes.push(attr_of_text("by", info.sender.clone()));
    Ok(res)
}


/// A successful buy keeps the reserve solvent: afterwards the reserve
/// still covers the redemption value of the issued curve supply, because
/// the curve maps round-trip conservatively.
pub proof fn lemma_buy_keeps_reserve_covering(
    pre: ContractState,
    post: ContractState,
    env: Env,
    info: MessageInfo,
    curve: CurveType,
    r: Result<Response, ContractError>,
)
    requires
        curve.wf(pre.curve_state.decimals),
        buy_post(pre, post, env, info, curve, r),
        r is Ok,
    ensures
        post.curve_state.reserve >= spec_reserve_for(
            curve,
            post.curve_state.decimals,
            post.curve_state.supply as nat,
        ),
{
    let dec = pre.curve_state.decimals;
    match spec_must_pay(info.funds@, pre.curve_state.reserve_denom) {
        Err(e) => {
            assert(false);
        },
        Ok(payment) => {
            match spec_buy_curve(pre, curve, payment) {
                Err(e) => {
                    assert(false);
                },
                Ok((ns, minted)) => {
                    crate::curve::lemma_round_trip(
                        curve,
                        dec,
                        (pre.curve_state.reserve + payment) as nat,
                    );
                },
            }
        },
    }
}

/// A successful sell settles the state exactly onto the curve: afterwards
/// the reserve is precisely the redemption value of the remaining supply.
pub proof fn lemma_sell_settles_on_curve(
    pre: ContractState,
    post: ContractState,
    env: Env,
    info: MessageInfo,
    curve: CurveType,
    amount: u128,
    r: Result<Response, ContractError>,
)
    requires
        curve.wf(pre.curve_state.decimals),
        sell_post(pre, post, env, info, curve, amount, r),
        r is Ok,
    ensures
        post.curve_state.reserve == spec_reserve_for(
            curve,
            post.curve_state.decimals,
            post.curve_state.supply as nat,
        ),
{
    if info.funds@.len() != 0 {
        assert(false);
    } else {
        match spec_burn_check(pre, info.sender@, amount) {
            Some(e) => {
                assert(false);
            },
            None => {
                match spec_sell_curve(pre, curve, amount) {
                    Err(e) => {
                        assert(false);
                    },
                    Ok((ns, nr, released)) => {
                    },
                }
            },
        }
    }
}

/// Buying and then immediately selling the minted amount never yields more
/// reserve than was paid in.  From a state whose reserve is exactly the
/// redemption value of its supply, a successful buy of `payment` followed
/// by a sell of the minted amount releases exactly `payment` and restores
/// the curve figures.  (A state whose reserve exceeds that redemption
/// value — surplus left behind by earlier truncation — is excluded: there
/// the seller would also capture the surplus.)
pub proof fn lemma_buy_then_sell_no_gain(
    pre: ContractState,
    post: ContractState,
    curve: CurveType,
    payment: u128,
    ns: nat,
    minted: nat,
)
    requires
        pre.wf(),
        curve.wf(pre.curve_state.decimals),
        pre.curve_state.reserve == spec_reserve_for(
            curve,
            pre.curve_state.decimals,
            pre.curve_state.supply as nat,
        ),
        spec_buy_curve(pre, curve, payment) == Ok::<(nat, nat), ContractError>((ns, minted)),
        post.curve_state.reserve == pre.curve_state.reserve + payment,
        post.curve_state.supply == ns,
        post.curve_state.decimals == pre.curve_state.decimals,
    ensures
        spec_sell_curve(post, curve, minted as u128) matches Ok((ns2, nr2, released)) ==> {
            &&& released == payment
            &&& nr2 == pre.curve_state.reserve
            &&& ns2 == pre.curve_state.supply
        },
{
    assert(ns - minted == pre.curve_state.supply);
}

} // verus!
