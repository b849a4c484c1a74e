//! The staking-derivative engine: bonding a stakeable asset for derivative
//! tokens, unbonding with an exit tax and a delayed claim, releasing
//! matured claims, and reinvesting accrued rewards.
//!
//! The externally reported facts — the delegated totals and the contract's
//! liquid balance — enter as plain arguments; every operation that mutates
//! the cached reserve first re-asserts that the cache agrees with the
//! reported total (the reconciliation invariant).  Every operation takes
//! the state by mutable reference and is atomic: on any error the state is
//! exactly as it was.

use vstd::prelude::*;

use crate::bonding::attr_of_amount;
use crate::bonding::attr_of_text;
use crate::bonding::execute_burn;
use crate::bonding::execute_mint;
use crate::bonding::spec_buy_curve;
use crate::bonding::spec_burn_check;
use crate::bonding::spec_mint_check;
use crate::bonding::token_meta_unchanged;
use crate::claims::ClaimRecord;
use crate::claims::claim_tokens;
use crate::claims::lemma_release_sum;
use crate::claims::spec_release;
use crate::curve::CurveType;
use crate::curve::PRICE_ONE;
use crate::curve::reserve_for;
use crate::curve::reserve_for_fits;
use crate::curve::spec_reserve_for;
use crate::curve::supply_for;
use crate::error::ContractError;
use crate::ledger::balance_of;
use crate::ledger::spec_balance_of;
use crate::state::ContractState;
use crate::state::CurveState;
use crate::types::Attribute;
use crate::types::AttrValue;
use crate::types::Coin;
use crate::types::Effect;
use crate::types::Env;
use crate::types::MessageInfo;
use crate::types::Response;
use crate::types::attr_amount;
use crate::types::attr_text;
use crate::types::coin_is;

verus! {

/// The first coin of the wanted denomination among the attached funds.
pub open spec fn spec_find_payment(funds: Seq<Coin>, denom: Seq<char>) -> Option<Coin>
    decreases funds.len(),
{
    if funds.len() == 0 {
        None
    } else if funds[0].denom@ == denom {
        Some(funds[0])
    } else {
        spec_find_payment(funds.skip(1), denom)
    }
}

proof fn lemma_find_payment_at(funds: Seq<Coin>, denom: Seq<char>, i: int)
    requires
        0 <= i < funds.len(),
        funds[i].denom@ == denom,
        forall|j: int| 0 <= j < i ==> funds[j].denom@ != denom,
    ensures
        spec_find_payment(funds, denom) == Some(funds[i]),
    decreases i,
{
    if i > 0 {
        assert(funds.skip(1)[i - 1] == funds[i]);
        assert(forall|j: int| 0 <= j < i - 1 ==> funds.skip(1)[j] == funds[j + 1]);
        lemma_find_payment_at(funds.skip(1), denom, i - 1);
    }
}

proof fn lemma_find_payment_absent(funds: Seq<Coin>, denom: Seq<char>)
    requires
        forall|j: int| 0 <= j < funds.len() ==> funds[j].denom@ != denom,
    ensures
        spec_find_payment(funds, denom) is None,
    decreases funds.len(),
{
    if funds.len() > 0 {
        assert(forall|j: int| 0 <= j < funds.len() - 1 ==> funds.skip(1)[j] == funds[j + 1]);
        lemma_find_payment_absent(funds.skip(1), denom);
    }
}

/// What summing the reported delegations concludes, walking them in order
/// with the running total `acc`: the total, a mixed-denomination error
/// naming the first offender, or an overflow.
pub open spec fn spec_sum_bonds(
    dels: Seq<Coin>,
    denom: Seq<char>,
    denom1: String,
    acc: nat,
) -> Result<nat, ContractError>
    decreases dels.len(),
{
    if dels.len() == 0 {
        Ok(acc)
    } else if dels[0].denom@ != denom {
        Err(ContractError::DifferentBondDenom { denom1, denom2: dels[0].denom })
    } else if acc + dels[0].amount > u128::MAX {
        Err(ContractError::Overflow {})
    } else {
        spec_sum_bonds(dels.skip(1), denom, denom1, (acc + dels[0].amount) as nat)
    }
}

/// The total amount delegated, requiring a single denomination across all
/// reported delegations; none at all is a total of zero.
pub open spec fn spec_get_bonded(dels: Seq<Coin>) -> Result<nat, ContractError> {
    if dels.len() == 0 {
        Ok(0nat)
    } else {
        spec_sum_bonds(dels, dels[0].denom@, dels[0].denom, 0)
    }
}

/// Sums the delegations reported by the host, insisting they are all of
/// one denomination.
fn get_bonded(delegations: &Vec<Coin>) -> (r: Result<u128, ContractError>)
    ensures
        r matches Ok(v) ==> spec_get_bonded(delegations@) == Ok::<nat, ContractError>(v as nat),
        r matches Err(e) ==> spec_get_bonded(delegations@) == Err::<nat, ContractError>(e),
{
    let ghost s0 = delegations@;
    if delegations.len() == 0 {
        return Ok(0);
    }
    let ghost denom0 = s0[0].denom@;
    let ghost denom1 = s0[0].denom;
    let mut acc: u128 = 0;
    let mut i: usize = 0;
    proof {
        assert(s0.skip(0) =~= s0);
    }
    while i < delegations.len()
        invariant
            delegations@ == s0,
            0 < s0.len(),
            i <= s0.len(),
            denom0 == s0[0].denom@,
            denom1 == s0[0].denom,
            spec_sum_bonds(s0, denom0, denom1, 0) == spec_sum_bonds(
                s0.skip(i as int),
                denom0,
                denom1,
                acc as nat,
            ),
        decreases s0.len() - i,
    {
        let ghost pre = s0.skip(i as int);
        proof {
            assert(pre[0] == s0[i as int]);
            assert(pre.skip(1) =~= s0.skip(i as int + 1));
        }
        if !(delegations[i].denom == delegations[0].denom) {
            return Err(
                ContractError::DifferentBondDenom {
                    denom1: delegations[0].denom.clone(),
                    denom2: delegations[i].denom.clone(),
                },
            );
        }
        acc = match acc.checked_add(delegations[i].amount) {
            Some(v) => v,
            None => {
                return Err(ContractError::Overflow {});
            },
        };
        i = i + 1;
    }
    proof {
        assert(s0.skip(s0.len() as int) =~= Seq::<Coin>::empty());
    }
    Ok(acc)
}

/// The amount of the first coin of denomination `denom` among the funds.
fn find_payment_amount(funds: &Vec<Coin>, denom: &String) -> (r: Option<u128>)
    ensures
        r matches Some(a) ==> (spec_find_payment(funds@, denom@) matches Some(c) && c.amount == a),
        r is None <==> spec_find_payment(funds@, denom@) is None,
{
    let mut i: usize = 0;
    while i < funds.len()
        invariant
            i <= funds@.len(),
            forall|j: int| 0 <= j < i ==> funds@[j].denom@ != denom@,
        decreases funds@.len() - i,
    {
        if funds[i].denom == *denom {
            proof {
                lemma_find_payment_at(funds@, denom@, i as int);
            }
            return Some(funds[i].amount);
        }
        i = i + 1;
    }
    proof {
        lemma_find_payment_absent(funds@, denom@);
    }
    None
}

/// The fail-closed reconciliation check: the cached reserve must equal the
/// externally reported bonded total.
fn assert_bonds(curve_state: &CurveState, bonded: u128) -> (r: Result<(), ContractError>)
    ensures
        r is Ok <==> curve_state.reserve == bonded,
        r is Err ==> r == Err::<(), ContractError>(
            ContractError::BondedMismatch { stored: curve_state.reserve, queried: bonded },
        ),
{
    if curve_state.reserve != bonded {
        Err(ContractError::BondedMismatch { stored: curve_state.reserve, queried: bonded })
    } else {
        Ok(())
    }
}

/// Everything the contract of [`bond`] states: how the state after
/// the call (`post`) relates to the one before it (`pre`), and which
/// result comes back for which inputs.
pub open spec fn bond_post(pre: ContractState, post: ContractState, env: Env, info: MessageInfo, curve: CurveType, delegations: Seq<Coin>, r: Result<Response, ContractError>) -> bool {
    &&& (post.wf())
    &&& (r is Err ==> post == pre)
    &&& (spec_find_payment(info.funds@, pre.invest.bond_denom@) is None ==> r == Err::<Response, ContractError,>(ContractError::EmptyBalance { denom: pre.invest.bond_denom }))
    &&& (spec_find_payment(info.funds@, pre.invest.bond_denom@) matches Some(payment) ==> {
            &&& (spec_get_bonded(delegations) matches Err(e) ==> r == Err::<
                Response,
                ContractError,
            >(e))
            &&& (spec_get_bonded(delegations) matches Ok(bonded) ==> {
                &&& (bonded != pre.curve_state.reserve ==> r == Err::<
                    Response,
                    ContractError,
                >(
                    ContractError::BondedMismatch {
                        stored: pre.curve_state.reserve,
                        queried: bonded as u128,
                    },
                ))
                &&& (bonded == pre.curve_state.reserve ==> {
                    &&& (spec_buy_curve(pre, curve, payment.amount) matches Err(e) ==> r
                        == Err::<Response, ContractError>(e))
                    &&& (spec_buy_curve(pre, curve, payment.amount) matches Ok(
                        (ns, minted),
                    ) ==> {
                        &&& (spec_mint_check(
                            pre.token_info,
                            env.contract_address@,
                            minted as u128,
                        ) matches Some(e) ==> r == Err::<Response, ContractError>(e))
                        &&& (spec_mint_check(
                            pre.token_info,
                            env.contract_address@,
                            minted as u128,
                        ) is None ==> {
                            &&& r is Ok
                            &&& post.curve_state.reserve == pre.curve_state.reserve
                                + payment.amount
                            &&& post.curve_state.supply == ns
                            &&& post.curve_state.reserve_denom == pre.curve_state.reserve_denom
                            &&& post.curve_state.decimals == pre.curve_state.decimals
                            &&& post.curve_state.claims == pre.curve_state.claims
                            &&& post.token_info.token_info.total_supply == pre.token_info.token_info.total_supply + minted
                            &&& spec_balance_of(post.balances@, info.sender@)
                                == spec_balance_of(pre.balances@, info.sender@) + minted
                            &&& forall|b: Seq<char>|
                                b != info.sender@ ==> spec_balance_of(post.balances@, b)
                                    == spec_balance_of(pre.balances@, b)
                            &&& post.curve_type == pre.curve_type
                            &&& post.invest == pre.invest
                            &&& post.claims@ == pre.claims@
                            &&& token_meta_unchanged(
                                post.token_info,
                                pre.token_info,
                            )
                            &&& (r matches Ok(resp) ==> {
                                &&& resp.messages@.len() == 1
                                &&& (resp.messages@[0] matches Effect::Delegate {
                                    validator,
                                    amount: c,
                                } && validator@ == pre.invest.validator@ && coin_is(
                                    c,
                                    pre.invest.bond_denom@,
                                    payment.amount,
                                ))
                                &&& resp.attributes@.len() == 4
                                &&& attr_text(resp.attributes@[0], "action"@, "bond"@)
                                &&& attr_text(resp.attributes@[1], "from"@, info.sender@)
                                &&& attr_amount(resp.attributes@[2], "bonded"@, payment.amount)
                                &&& attr_amount(resp.attributes@[3], "minted"@, minted as u128)
                            })
                        })
                    })
                })
            })
        })
}

/// Bonds the attached payment of the bond denomination: after the
/// reconciliation check, the payment joins the reserve, the curve
/// determines the new supply, the difference is minted to the caller, and
/// the payment is delegated to the configured validator.
pub fn bond(
    state: &mut ContractState,
    env: &Env,
    info: &MessageInfo,
    curve: &CurveType,
    delegations: &Vec<Coin>,
) -> (r: Result<Response, ContractError>)
    requires
        old(state).wf(),
        curve.wf(old(state).curve_state.decimals),
    ensures
        bond_post(*old(state), *final(state), *env, *info, *curve, delegations@, r),

{
    // find the payment of the bond denomination among the attached funds
    let payment_amount = match find_payment_amount(&info.funds, &state.invest.bond_denom) {
        Some(a) => a,
        None => {
            return Err(ContractError::EmptyBalance { denom: state.invest.bond_denom.clone() });
        },
    };
    // the reconciliation invariant, against the reported delegations
    let bonded = match get_bonded(delegations) {
        Ok(v) => v,
        Err(e) => {
            return Err(e);
        },
    };
    match assert_bonds(&state.curve_state, bonded) {
        Ok(_) => {},
        Err(e) => {
            return Err(e);
        },
    }
    // the same curve-priced mint computation as a buy
    let new_reserve = match state.curve_state.reserve.checked_add(payment_amount) {
        Some(v) => v,
        None => {
            return Err(ContractError::Overflow {});
        },
    };
    let new_supply = match supply_for(curve, &state.curve_state.decimals, new_reserve) {
        Ok(v) => v,
        Err(e) => {
            return Err(e);
        },
    };
    let minted = match new_supply.checked_sub(state.curve_state.supply) {
        Some(v) => v,
        None => {
            return Err(ContractError::Overflow {});
        },
    };
    // mint to the caller, acting as the contract itself
    let sub_info = MessageInfo { sender: env.contract_address.clone(), funds: Vec::new() };
    match execute_mint(state, env, &sub_info, &info.sender, minted) {
        Ok(_) => {},
        Err(e) => {
            return Err(e);
        },
    }
    state.curve_state.reserve = new_reserve;
    state.curve_state.supply = new_supply;
    let mut messages: Vec<Effect> = Vec::new();
    messages.push(
        Effect::Delegate {
            validator: state.invest.validator.clone(),
            amount: Coin { denom: state.invest.bond_denom.clone(), amount: payment_amount },
        },
    );
    let mut attributes: Vec<Attribute> = Vec::new();
    attributes.push(attr_of_text("action", "bond".to_owned()));
    attributes.push(attr_of_text("from", info.sender.clone()));
    attributes.push(attr_of_amount("bonded", payment_amount));
    attributes.push(attr_of_amount("minted", minted));
    Ok(Response { messages, attributes })
}


/// The exit tax taken from an unbonded `amount`: the fixed-point product
/// with the configured fraction, truncating.
pub open spec fn spec_tax(amount: u128, exit_tax: u128) -> nat {
    (((amount * exit_tax) as int) / (PRICE_ONE as int)) as nat
}

proof fn lemma_tax_le_amount(amount: u128, exit_tax: u128)
    requires
        exit_tax <= PRICE_ONE,
    ensures
        spec_tax(amount, exit_tax) <= amount,
{
    assert(amount * exit_tax <= amount * PRICE_ONE) by (nonlinear_arith)
        requires
            exit_tax <= PRICE_ONE,
            amount >= 0,
    ;
    vstd::arithmetic::div_mod::lemma_div_is_ordered(
        (amount * exit_tax) as int,
        (amount * PRICE_ONE) as int,
        PRICE_ONE as int,
    );
    vstd::arithmetic::div_mod::lemma_div_by_multiple(amount as int, PRICE_ONE as int);
    assert((amount * PRICE_ONE) as int / (PRICE_ONE as int) == amount);
}

/// Everything the contract of [`unbond`] states: how the state after
/// the call (`post`) relates to the one before it (`pre`), and which
/// result comes back for which inputs.
pub open spec fn unbond_post(pre: ContractState, post: ContractState, env: Env, info: MessageInfo, curve: CurveType, delegations: Seq<Coin>, amount: u128, r: Result<Response, ContractError>) -> bool {
    &&& (post.wf())
    &&& (r is Err ==> post == pre)
    &&& (amount < pre.invest.min_withdrawal ==> r == Err::<Response, ContractError>(
            ContractError::UnbondTooSmall {
                min_bonded: pre.invest.min_withdrawal,
                denom: pre.invest.bond_denom,
            },
        ))
    &&& (amount >= pre.invest.min_withdrawal ==> {
            &&& (amount * pre.invest.exit_tax > u128::MAX ==> r == Err::<
                Response,
                ContractError,
            >(ContractError::Overflow {  }))
            &&& (amount * pre.invest.exit_tax <= u128::MAX ==> {
                let tax = spec_tax(amount, pre.invest.exit_tax);
                &&& (spec_burn_check(pre, info.sender@, amount) matches Some(e) ==> r
                    == Err::<Response, ContractError>(e))
                &&& (spec_burn_check(pre, info.sender@, amount) is None ==> {
                    &&& (tax > 0 ==> (crate::bonding::spec_mint_check_core(
                        pre.token_info.token_info.mint,
                        (pre.token_info.token_info.total_supply - amount) as nat,
                        env.contract_address@,
                        tax as u128,
                    ) matches Some(e) ==> r == Err::<Response, ContractError>(e)))
                    &&& ((tax == 0 || crate::bonding::spec_mint_check_core(
                        pre.token_info.token_info.mint,
                        (pre.token_info.token_info.total_supply - amount) as nat,
                        env.contract_address@,
                        tax as u128,
                    ) is None) ==> {
                        &&& (spec_get_bonded(delegations) matches Err(e) ==> r == Err::<
                            Response,
                            ContractError,
                        >(e))
                        &&& (spec_get_bonded(delegations) matches Ok(bonded) ==> {
                            &&& (bonded != pre.curve_state.reserve ==> r == Err::<
                                Response,
                                ContractError,
                            >(
                                ContractError::BondedMismatch {
                                    stored: pre.curve_state.reserve,
                                    queried: bonded as u128,
                                },
                            ))
                            &&& (bonded == pre.curve_state.reserve ==> {
                                &&& (spec_unbond_curve(pre, curve, amount, tax)
                                    matches Err(e) ==> r == Err::<Response, ContractError>(e))
                                &&& (spec_unbond_curve(pre, curve, amount, tax)
                                    matches Ok((ns, nr, unbonded)) ==> {
                                    &&& (!pre.invest.unbonding_period.after_fits(env.block)
                                        ==> r == Err::<Response, ContractError>(
                                        ContractError::Overflow {  },
                                    ))
                                    &&& (pre.invest.unbonding_period.after_fits(env.block)
                                        ==> {
                                        &&& r is Ok
                                        &&& post.curve_state.supply == ns
                                        &&& post.curve_state.reserve == nr
                                        &&& post.curve_state.claims == pre.curve_state.claims + unbonded
                                        &&& post.curve_state.reserve_denom == pre.curve_state.reserve_denom
                                        &&& post.curve_state.decimals == pre.curve_state.decimals
                                        &&& post.token_info.token_info.total_supply == pre.token_info.token_info.total_supply - amount + tax
                                        &&& forall|b: Seq<char>|
                                            spec_balance_of(post.balances@, b)
                                                == spec_balance_of(pre.balances@, b) - (
                                            if b == info.sender@ {
                                                amount as int
                                            } else {
                                                0int
                                            }) + (if b == pre.invest.owner@ {
                                                tax as int
                                            } else {
                                                0int
                                            })
                                        &&& post.claims@ == pre.claims@.push(
                                            ClaimRecord {
                                                address: info.sender,
                                                amount: unbonded as u128,
                                                release_at: pre.invest.unbonding_period.spec_after(env.block),
                                            },
                                        )
                                        &&& post.curve_type == pre.curve_type
                                        &&& post.invest == pre.invest
                                        &&& token_meta_unchanged(
                                            post.token_info,
                                            pre.token_info,
                                        )
                                        &&& (r matches Ok(resp) ==> {
                                            &&& resp.messages@.len() == 1
                                            &&& (resp.messages@[0] matches Effect::Undelegate {
                                                validator,
                                                amount: c,
                                            } && validator@ == pre.invest.validator@
                                                && coin_is(
                                                c,
                                                pre.invest.bond_denom@,
                                                unbonded as u128,
                                            ))
                                            &&& resp.attributes@.len() == 4
                                            &&& attr_text(
                                                resp.attributes@[0],
                                                "action"@,
                                                "unbond"@,
                                            )
                                            &&& attr_text(resp.attributes@[1], "to"@, info.sender@)
                                            &&& attr_amount(
                                                resp.attributes@[2],
                                                "unbonded"@,
                                                unbonded as u128,
                                            )
                                            &&& attr_amount(resp.attributes@[3], "burnt"@, amount)
                                        })
                                    })
                                })
                            })
                        })
                    })
                })
            })
        })
}

/// Unbonds `amount` derivative tokens: burns them from the caller, mints
/// the exit tax to the owner, re-asserts the reconciliation invariant,
/// converts the remainder to reserve along the curve, queues that reserve
/// as a claim maturing after the unbonding period, and undelegates it.
pub fn unbond(
    state: &mut ContractState,
    env: &Env,
    info: &MessageInfo,
    curve: &CurveType,
    delegations: &Vec<Coin>,
    amount: u128,
) -> (r: Result<Response, ContractError>)
    requires
        old(state).wf(),
        curve.wf(old(state).curve_state.decimals),
    ensures
        unbond_post(*old(state), *final(state), *env, *info, *curve, delegations@, amount, r),

{
    if amount < state.invest.min_withdrawal {
        return Err(
            ContractError::UnbondTooSmall {
                min_bonded: state.invest.min_withdrawal,
                denom: state.invest.bond_denom.clone(),
            },
        );
    }
    // the exit tax, in derivative tokens, truncating
    let tax_num = match amount.checked_mul(state.invest.exit_tax) {
        Some(v) => v,
        None => {
            return Err(ContractError::Overflow {});
        },
    };
    let tax = tax_num / PRICE_ONE;
    proof {
        lemma_tax_le_amount(amount, state.invest.exit_tax);
    }
    // the burn of `amount` from the caller must go through
    if amount == 0 {
        return Err(ContractError::InvalidZeroAmount {});
    }
    let bal = balance_of(&state.balances, &info.sender);
    if amount > bal {
        return Err(ContractError::Overflow {});
    }
    proof {
        crate::ledger::lemma_balance_le_sum(state.balances@, info.sender@);
    }
    // the mint of the tax to the owner must go through
    if tax > 0 {
        let authorized = match &state.token_info.token_info.mint {
            Some(m) => m.minter == env.contract_address,
            None => false,
        };
        if !authorized {
            return Err(ContractError::Unauthorized {});
        }
        let total_after = state.token_info.token_info.total_supply - amount + tax;
        match state.token_info.get_cap() {
            Some(limit) => {
                if total_after > limit {
                    return Err(ContractError::CannotExceedCap {});
                }
            },
            None => {},
        }
    }
    // the reconciliation invariant, against the reported delegations
    let bonded = match get_bonded(delegations) {
        Ok(v) => v,
        Err(e) => {
            return Err(e);
        },
    };
    match assert_bonds(&state.curve_state, bonded) {
        Ok(_) => {},
        Err(e) => {
            return Err(e);
        },
    }
    // walk the curve down by the remainder and earmark the reserve released
    let amount_minus_tax = amount - tax;
    let new_supply = match state.curve_state.supply.checked_sub(amount_minus_tax) {
        Some(v) => v,
        None => {
            return Err(ContractError::Overflow {});
        },
    };
    let new_reserve = match reserve_for(curve, &state.curve_state.decimals, new_supply) {
        Ok(v) => v,
        Err(e) => {
            return Err(e);
        },
    };
    let unbonded = match state.curve_state.reserve.checked_sub(new_reserve) {
        Some(v) => v,
        None => {
            return Err(ContractError::Overflow {});
        },
    };
    let new_claims = match state.curve_state.claims.checked_add(unbonded) {
        Some(v) => v,
        None => {
            return Err(ContractError::Overflow {});
        },
    };
    let release_at = match state.invest.unbonding_period.after(&env.block) {
        Ok(v) => v,
        Err(e) => {
            return Err(e);
        },
    };
    // every check has passed: apply the transition
    match execute_burn(state, env, info, amount) {
        Ok(_) => {},
        Err(e) => {
            return Err(e);
        },
    }
    if tax > 0 {
        let sub_info = MessageInfo { sender: env.contract_address.clone(), funds: Vec::new() };
        let owner = state.invest.owner.clone();
        match execute_mint(state, env, &sub_info, &owner, tax) {
            Ok(_) => {},
            Err(e) => {
                return Err(e);
            },
        }
    }
    state.curve_state.supply = new_supply;
    state.curve_state.reserve = new_reserve;
    state.curve_state.claims = new_claims;
    crate::claims::create_claim(&mut state.claims, &info.sender, unbonded, release_at);
    let mut messages: Vec<Effect> = Vec::new();
    messages.push(
        Effect::Undelegate {
            validator: state.invest.validator.clone(),
            amount: Coin { denom: state.invest.bond_denom.clone(), amount: unbonded },
        },
    );
    let mut attributes: Vec<Attribute> = Vec::new();
    attributes.push(attr_of_text("action", "unbond".to_owned()));
    attributes.push(attr_of_text("to", info.sender.clone()));
    attributes.push(attr_of_amount("unbonded", unbonded));
    attributes.push(attr_of_amount("burnt", amount));
    Ok(Response { messages, attributes })
}

/// What the curve step of an unbond concludes from the burnt amount and
/// the tax: the new supply, the new reserve and the reserve set aside for
/// the claim, or the arithmetic fault.
pub open spec fn spec_unbond_curve(
    s: ContractState,
    curve: CurveType,
    amount: u128,
    tax: nat,
) -> Result<(nat, nat, nat), ContractError> {
    if s.curve_state.supply < amount - tax {
        Err(ContractError::Overflow {})
    } else if !reserve_for_fits(curve, s.curve_state.decimals, (s.curve_state.supply - (amount
        - tax)) as nat) {
        Err(ContractError::Overflow {})
    } else {
        let ns = (s.curve_state.supply - (amount - tax)) as nat;
        let nr = spec_reserve_for(curve, s.curve_state.decimals, ns);
        if nr > s.curve_state.reserve {
            Err(ContractError::Overflow {})
        } else if s.curve_state.claims + (s.curve_state.reserve - nr) > u128::MAX {
            Err(ContractError::Overflow {})
        } else {
            Ok((ns, nr, (s.curve_state.reserve - nr) as nat))
        }
    }
}

/// Everything the contract of [`claim`] states: how the state after
/// the call (`post`) relates to the one before it (`pre`), and which
/// result comes back for which inputs.
pub open spec fn claim_post(pre: ContractState, post: ContractState, env: Env, info: MessageInfo, balance: u128, r: Result<Response, ContractError>) -> bool {
    &&& (post.wf())
    &&& (r is Err ==> post == pre)
    &&& (balance < pre.invest.min_withdrawal ==> r == Err::<Response, ContractError>(
            ContractError::BalanceTooSmall {  },
        ))
    &&& (balance >= pre.invest.min_withdrawal ==> {
            let kept = spec_release(pre.claims@, info.sender@, env.block, balance as nat, 0).0;
            let taken = spec_release(
                pre.claims@,
                info.sender@,
                env.block,
                balance as nat,
                0,
            ).1;
            &&& (taken == 0 ==> r == Err::<Response, ContractError>(
                ContractError::NothingToClaim {  },
            ))
            &&& (taken > 0 ==> {
                &&& r is Ok
                &&& post.claims@ == kept
                &&& post.curve_state.claims == pre.curve_state.claims - taken
                &&& post.curve_state.reserve == pre.curve_state.reserve
                &&& post.curve_state.supply == pre.curve_state.supply
                &&& post.curve_state.reserve_denom == pre.curve_state.reserve_denom
                &&& post.curve_state.decimals == pre.curve_state.decimals
                &&& post.balances == pre.balances
                &&& post.token_info == pre.token_info
                &&& post.curve_type == pre.curve_type
                &&& post.invest == pre.invest
                &&& (r matches Ok(resp) ==> {
                    &&& resp.messages@.len() == 1
                    &&& (resp.messages@[0] matches Effect::Send { to_address, amount: c }
                        && to_address@ == info.sender@ && coin_is(
                        c,
                        pre.invest.bond_denom@,
                        taken as u128,
                    ))
                    &&& resp.attributes@.len() == 3
                    &&& attr_text(resp.attributes@[0], "action"@, "claim"@)
                    &&& attr_text(resp.attributes@[1], "from"@, info.sender@)
                    &&& attr_amount(resp.attributes@[2], "amount"@, taken as u128)
                })
            })
        })
}

/// Releases the caller's matured claims, bounded by the contract's liquid
/// `balance` of the bond denomination, and sends the released reserve.
pub fn claim(state: &mut ContractState, env: &Env, info: &MessageInfo, balance: u128) -> (r: Result<
    Response,
    ContractError,
>)
    requires
        old(state).wf(),
    ensures
        claim_post(*old(state), *final(state), *env, *info, balance, r),

{
    if balance < state.invest.min_withdrawal {
        return Err(ContractError::BalanceTooSmall {});
    }
    let released = claim_tokens(&state.claims, &info.sender, &env.block, balance);
    let kept = released.0;
    let to_send = released.1;
    if to_send == 0 {
        return Err(ContractError::NothingToClaim {});
    }
    proof {
        lemma_release_sum(state.claims@, info.sender@, env.block, balance as nat, 0);
    }
    state.curve_state.claims = state.curve_state.claims - to_send;
    state.claims = kept;
    let mut messages: Vec<Effect> = Vec::new();
    messages.push(
        Effect::Send {
            to_address: info.sender.clone(),
            amount: Coin { denom: state.invest.bond_denom.clone(), amount: to_send },
        },
    );
    let mut attributes: Vec<Attribute> = Vec::new();
    attributes.push(attr_of_text("action", "claim".to_owned()));
    attributes.push(attr_of_text("from", info.sender.clone()));
    attributes.push(attr_of_amount("amount", to_send));
    Ok(Response { messages, attributes })
}

/// Everything the contract of [`reinvest`] states: how the state after
/// the call (`post`) relates to the one before it (`pre`), and which
/// result comes back for which inputs.
pub open spec fn reinvest_post(pre: ContractState, post: ContractState, env: Env, info: MessageInfo, r: Result<Response, ContractError>) -> bool {
    &&& (post.wf())
    &&& (post == pre)
    &&& (r is Ok)
    &&& (r matches Ok(resp) ==> {
            &&& resp.messages@.len() == 2
            &&& (resp.messages@[0] matches Effect::WithdrawReward { validator } && validator@
                == pre.invest.validator@)
            &&& (resp.messages@[1] matches Effect::InvokeBondAllTokens { contract_addr }
                && contract_addr@ == env.contract_address@)
            &&& resp.attributes@.len() == 0
        })
}

/// Withdraws the accrued rewards and asks the host to call the contract's
/// own bond-all-tokens entry point afterwards — a two-phase protocol,
/// because the rewards arrive only once the first effect has settled.
pub fn reinvest(state: &mut ContractState, env: &Env, info: &MessageInfo) -> (r: Result<
    Response,
    ContractError,
>)
    requires
        old(state).wf(),
    ensures
        reinvest_post(*old(state), *final(state), *env, *info, r),

{
    let mut messages: Vec<Effect> = Vec::new();
    messages.push(Effect::WithdrawReward { validator: state.invest.validator.clone() });
    messages.push(Effect::InvokeBondAllTokens { contract_addr: env.contract_address.clone() });
    Ok(Response { messages, attributes: Vec::new() })
}

/// Everything the contract of [`_bond_all_tokens`] states: how the state after
/// the call (`post`) relates to the one before it (`pre`), and which
/// result comes back for which inputs.
pub open spec fn bond_all_tokens_post(pre: ContractState, post: ContractState, env: Env, info: MessageInfo, balance: u128, r: Result<Response, ContractError>) -> bool {
    &&& (post.wf())
    &&& (r is Err ==> post == pre)
    &&& (info.sender@ != env.contract_address@ ==> r == Err::<Response, ContractError>(
            ContractError::Unauthorized {  },
        ))
    &&& (info.sender@ == env.contract_address@ ==> {
            &&& (balance < pre.curve_state.claims || balance - pre.curve_state.claims
                < pre.invest.min_withdrawal ==> {
                &&& r is Ok
                &&& post == pre
                &&& (r matches Ok(resp) ==> resp.messages@.len() == 0 && resp.attributes@.len()
                    == 0)
            })
            &&& (balance >= pre.curve_state.claims && balance - pre.curve_state.claims >= pre.invest.min_withdrawal ==> {
                let leftover = (balance - pre.curve_state.claims) as u128;
                &&& (pre.curve_state.reserve + leftover > u128::MAX ==> r == Err::<
                    Response,
                    ContractError,
                >(ContractError::Overflow {  }))
                &&& (pre.curve_state.reserve + leftover <= u128::MAX ==> {
                    &&& r is Ok
                    &&& post.curve_state.reserve == pre.curve_state.reserve
                        + leftover
                    &&& post.curve_state.supply == pre.curve_state.supply
                    &&& post.curve_state.claims == pre.curve_state.claims
                    &&& post.curve_state.reserve_denom == pre.curve_state.reserve_denom
                    &&& post.curve_state.decimals == pre.curve_state.decimals
                    &&& post.balances == pre.balances
                    &&& post.token_info == pre.token_info
                    &&& post.curve_type == pre.curve_type
                    &&& post.invest == pre.invest
                    &&& post.claims == pre.claims
                    &&& (r matches Ok(resp) ==> {
                        &&& resp.messages@.len() == 1
                        &&& (resp.messages@[0] matches Effect::Delegate { validator, amount: c }
                            && validator@ == pre.invest.validator@ && coin_is(
                            c,
                            pre.invest.bond_denom@,
                            leftover,
                        ))
                        &&& resp.attributes@.len() == 2
                        &&& attr_text(resp.attributes@[0], "action"@, "reinvest"@)
                        &&& attr_amount(resp.attributes@[1], "bonded"@, leftover)
                    })
                })
            })
        })
}

/// Adds the contract's uncommitted liquid balance — what is left after the
/// earmarked claims — to the reserve and delegates it.  Callable only by
/// the contract itself; too small a leftover is a deliberate no-op
/// success, since anyone may trigger the preceding reinvest speculatively.
pub fn _bond_all_tokens(
    state: &mut ContractState,
    env: &Env,
    info: &MessageInfo,
    balance: u128,
) -> (r: Result<Response, ContractError>)
    requires
        old(state).wf(),
    ensures
        bond_all_tokens_post(*old(state), *final(state), *env, *info, balance, r),

{
    // only the contract itself, as the callback of a reinvest
    if !(info.sender == env.contract_address) {
        return Err(ContractError::Unauthorized {});
    }
    // deduct the earmarked claims; too little left is a no-op success
    let leftover = match balance.checked_sub(state.curve_state.claims) {
        Some(v) => v,
        None => {
            return Ok(Response::new());
        },
    };
    if leftover < state.invest.min_withdrawal {
        return Ok(Response::new());
    }
    let new_reserve = match state.curve_state.reserve.checked_add(leftover) {
        Some(v) => v,
        None => {
            return Err(ContractError::Overflow {});
        },
    };
    state.curve_state.reserve = new_reserve;
    let mut messages: Vec<Effect> = Vec::new();
    messages.push(
        Effect::Delegate {
            validator: state.invest.validator.clone(),
            amount: Coin { denom: state.invest.bond_denom.clone(), amount: leftover },
        },
    );
    let mut attributes: Vec<Attribute> = Vec::new();
    attributes.push(attr_of_text("action", "reinvest".to_owned()));
    attributes.push(attr_of_amount("bonded", leftover));
    Ok(Response { messages, attributes })
}

/// Whether computing the nominal value stays within 128 bits.
pub open spec fn investment_fits(state: ContractState) -> bool {
    state.curve_state.supply == 0 || state.curve_state.reserve * PRICE_ONE <= u128::MAX
}

/// The investment response reports the staking configuration and values
/// one derivative token at reserve per issued supply, falling back to one
/// when nothing has been issued yet.
pub open spec fn investment_ok(state: ContractState, resp: crate::query::InvestmentResponse) -> bool {
    &&& resp.token_supply == state.curve_state.supply
    &&& coin_is(resp.staked_tokens, state.invest.bond_denom@, state.curve_state.reserve)
    &&& resp.nominal_value == (if state.curve_state.supply == 0 {
        PRICE_ONE as nat
    } else {
        (((state.curve_state.reserve * PRICE_ONE) as int) / (state.curve_state.supply as int)) as nat
    })
    &&& resp.owner@ == state.invest.owner@
    &&& resp.exit_tax == state.invest.exit_tax
    &&& resp.validator@ == state.invest.validator@
    &&& resp.min_withdrawal == state.invest.min_withdrawal
}

/// The staking configuration and the current nominal value of one
/// derivative token: the reserve per issued token, or one when nothing has
/// been issued yet.
pub fn query_investment(state: &ContractState) -> (r: Result<
    crate::query::InvestmentResponse,
    ContractError,
>)
    ensures
        r is Ok <==> investment_fits(*state),
        r is Err ==> r == Err::<crate::query::InvestmentResponse, ContractError>(
            ContractError::Overflow {  },
        ),
        r matches Ok(resp) ==> investment_ok(*state, resp),
{
    let nominal_value = if state.curve_state.supply == 0 {
        PRICE_ONE
    } else {
        let num = match state.curve_state.reserve.checked_mul(PRICE_ONE) {
            Some(v) => v,
            None => {
                return Err(ContractError::Overflow {});
            },
        };
        num / state.curve_state.supply
    };
    Ok(
        crate::query::InvestmentResponse {
            token_supply: state.curve_state.supply,
            staked_tokens: Coin {
                denom: state.invest.bond_denom.clone(),
                amount: state.curve_state.reserve,
            },
            nominal_value,
            owner: state.invest.owner.clone(),
            exit_tax: state.invest.exit_tax,
            validator: state.invest.validator.clone(),
            min_withdrawal: state.invest.min_withdrawal,
        },
    )
}

} // verus!
