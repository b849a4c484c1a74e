//! The balance side of the token ledger: a list of per-account balances.
//!
//! The ledger invariant — the balances sum to the recorded total supply —
//! is stated over [`sum_balances`]; the mint and burn operations in
//! `bonding` preserve it and every public operation's contract carries it.

use vstd::prelude::*;

use crate::error::ContractError;

verus! {

/// One account's balance.
#[derive(Debug)]
pub struct BalanceEntry {
    pub address: String,
    pub amount: u128,
}

/// The sum of all balances in the ledger.
pub open spec fn sum_balances(s: Seq<BalanceEntry>) -> nat
    decreases s.len(),
{
    if s.len() == 0 {
        0nat
    } else {
        (s[0].amount + sum_balances(s.skip(1))) as nat
    }
}

/// The balance of `addr`, zero if it has no entry.
pub open spec fn spec_balance_of(s: Seq<BalanceEntry>, addr: Seq<char>) -> nat
    decreases s.len(),
{
    if s.len() == 0 {
        0nat
    } else if s[0].address@ == addr {
        s[0].amount as nat
    } else {
        spec_balance_of(s.skip(1), addr)
    }
}

/// Every single balance is bounded by the sum of all of them.
pub proof fn lemma_balance_le_sum(s: Seq<BalanceEntry>, addr: Seq<char>)
    ensures
        spec_balance_of(s, addr) <= sum_balances(s),
    decreases s.len(),
{
    if s.len() > 0 {
        lemma_balance_le_sum(s.skip(1), addr);
    }
}

proof fn lemma_sum_update(s: Seq<BalanceEntry>, i: int, e: BalanceEntry)
    requires
        0 <= i < s.len(),
    ensures
        sum_balances(s.update(i, e)) == sum_balances(s) - s[i].amount + e.amount,
    decreases i,
{
    let t = s.update(i, e);
    if i == 0 {
        assert(t.skip(1) =~= s.skip(1));
    } else {
        lemma_sum_update(s.skip(1), i - 1, e);
        assert(t.skip(1) =~= s.skip(1).update(i - 1, e));
    }
}

proof fn lemma_sum_push(s: Seq<BalanceEntry>, e: BalanceEntry)
    ensures
        sum_balances(s.push(e)) == sum_balances(s) + e.amount,
    decreases s.len(),
{
    let t = s.push(e);
    if s.len() == 0 {
        assert(t.len() == 1);
        assert(t[0] == e);
        assert(t.skip(1) =~= Seq::<BalanceEntry>::empty());
        assert(sum_balances(t.skip(1)) == 0);
        assert(sum_balances(s) == 0);
        assert(sum_balances(t) == e.amount);
    } else {
        assert(t[0] == s[0]);
        lemma_sum_push(s.skip(1), e);
        assert(t.skip(1) =~= s.skip(1).push(e));
        assert(sum_balances(t.skip(1)) == sum_balances(s.skip(1)) + e.amount);
        assert(sum_balances(t) == t[0].amount + sum_balances(t.skip(1)));
        assert(sum_balances(s) == s[0].amount + sum_balances(s.skip(1)));
    }
}

/// The balance of an address whose first entry is at `i`.
proof fn lemma_balance_of_at(s: Seq<BalanceEntry>, addr: Seq<char>, i: int)
    requires
        0 <= i < s.len(),
        s[i].address@ == addr,
        forall|j: int| 0 <= j < i ==> s[j].address@ != addr,
    ensures
        spec_balance_of(s, addr) == s[i].amount,
    decreases i,
{
    if i > 0 {
        assert(s.skip(1)[i - 1] == s[i]);
        assert(forall|j: int| 0 <= j < i - 1 ==> s.skip(1)[j] == s[j + 1]);
        lemma_balance_of_at(s.skip(1), addr, i - 1);
    }
}

/// An address with no entry has balance zero.
proof fn lemma_balance_of_absent(s: Seq<BalanceEntry>, addr: Seq<char>)
    requires
        forall|j: int| 0 <= j < s.len() ==> s[j].address@ != addr,
    ensures
        spec_balance_of(s, addr) == 0,
    decreases s.len(),
{
    if s.len() > 0 {
        assert(forall|j: int| 0 <= j < s.len() - 1 ==> s.skip(1)[j] == s[j + 1]);
        lemma_balance_of_absent(s.skip(1), addr);
    }
}

/// Updating an entry in place, keeping its address, does not change any
/// other address's balance.
proof fn lemma_balance_of_update_other(s: Seq<BalanceEntry>, i: int, e: BalanceEntry, b: Seq<char>)
    requires
        0 <= i < s.len(),
        s[i].address@ == e.address@,
        b != e.address@,
    ensures
        spec_balance_of(s.update(i, e), b) == spec_balance_of(s, b),
    decreases i,
{
    let t = s.update(i, e);
    if i == 0 {
        assert(t.skip(1) =~= s.skip(1));
    } else {
        lemma_balance_of_update_other(s.skip(1), i - 1, e, b);
        assert(t.skip(1) =~= s.skip(1).update(i - 1, e));
    }
}

/// Appending an entry does not change any other address's balance.
proof fn lemma_balance_of_push_other(s: Seq<BalanceEntry>, e: BalanceEntry, b: Seq<char>)
    requires
        b != e.address@,
    ensures
        spec_balance_of(s.push(e), b) == spec_balance_of(s, b),
    decreases s.len(),
{
    let t = s.push(e);
    if s.len() == 0 {
        assert(t[0] == e);
        assert(t.skip(1) =~= Seq::<BalanceEntry>::empty());
        assert(spec_balance_of(t.skip(1), b) == 0);
        assert(spec_balance_of(t, b) == 0);
    } else {
        assert(t[0] == s[0]);
        lemma_balance_of_push_other(s.skip(1), e, b);
        assert(t.skip(1) =~= s.skip(1).push(e));
        assert(spec_balance_of(t.skip(1), b) == spec_balance_of(s.skip(1), b));
    }
}

/// The balance of `addr`, zero if it has no entry.
pub fn balance_of(balances: &Vec<BalanceEntry>, addr: &String) -> (r: u128)
    ensures
        r == spec_balance_of(balances@, addr@),
{
    let mut i: usize = 0;
    while i < balances.len()
        invariant
            i <= balances@.len(),
            forall|j: int| 0 <= j < i ==> balances@[j].address@ != addr@,
        decreases balances@.len() - i,
    {
        if balances[i].address == *addr {
            proof {
                lemma_balance_of_at(balances@, addr@, i as int);
            }
            return balances[i].amount;
        }
        i = i + 1;
    }
    proof {
        lemma_balance_of_absent(balances@, addr@);
    }
    0
}

/// Credits `amount` to `addr`, creating the entry if it is missing.
pub fn add_to_balance(balances: &mut Vec<BalanceEntry>, addr: &String, amount: u128)
    requires
        spec_balance_of(old(balances)@, addr@) + amount <= u128::MAX,
    ensures
        spec_balance_of(final(balances)@, addr@) == spec_balance_of(old(balances)@, addr@)
            + amount,
        forall|b: Seq<char>|
            b != addr@ ==> spec_balance_of(final(balances)@, b) == spec_balance_of(
                old(balances)@,
                b,
            ),
        sum_balances(final(balances)@) == sum_balances(old(balances)@) + amount,
{
    let ghost s0 = balances@;
    let mut i: usize = 0;
    while i < balances.len()
        invariant
            old(balances)@ == s0,
            balances@ == s0,
            i <= s0.len(),
            forall|j: int| 0 <= j < i ==> s0[j].address@ != addr@,
            spec_balance_of(s0, addr@) + amount <= u128::MAX,
        decreases s0.len() - i,
    {
        if balances[i].address == *addr {
            proof {
                lemma_balance_of_at(s0, addr@, i as int);
            }
            let new_amount = balances[i].amount + amount;
            balances[i].amount = new_amount;
            proof {
                let e = balances@[i as int];
                assert(balances@ =~= s0.update(i as int, e));
                assert(e.address@ == addr@);
                assert(e.amount == spec_balance_of(s0, addr@) + amount);
                lemma_sum_update(s0, i as int, e);
                assert(forall|j: int| 0 <= j < i ==> balances@[j] == s0[j]);
                lemma_balance_of_at(balances@, addr@, i as int);
                assert(spec_balance_of(balances@, addr@) == spec_balance_of(s0, addr@) + amount);
                assert forall|b: Seq<char>| b != addr@ implies spec_balance_of(balances@, b)
                    == spec_balance_of(s0, b) by {
                    lemma_balance_of_update_other(s0, i as int, e, b);
                }
            }
            return ;
        }
        i = i + 1;
    }
    proof {
        lemma_balance_of_absent(s0, addr@);
    }
    balances.push(BalanceEntry { address: addr.clone(), amount });
    proof {
        let e = balances@[s0.len() as int];
        assert(balances@ =~= s0.push(e));
        lemma_sum_push(s0, e);
        lemma_balance_of_at(balances@, addr@, s0.len() as int);
        assert forall|b: Seq<char>| b != addr@ implies spec_balance_of(balances@, b)
            == spec_balance_of(s0, b) by {
            lemma_balance_of_push_other(s0, e, b);
        }
    }
}

/// Debits `amount` from `addr`; an insufficient balance is an overflow
/// error and leaves the ledger unchanged.
pub fn sub_from_balance(balances: &mut Vec<BalanceEntry>, addr: &String, amount: u128) -> (r:
    Result<(), ContractError>)
    ensures
        r is Ok <==> amount <= spec_balance_of(old(balances)@, addr@),
        r is Ok ==> {
            &&& spec_balance_of(final(balances)@, addr@) == spec_balance_of(
                old(balances)@,
                addr@,
            ) - amount
            &&& forall|b: Seq<char>|
                b != addr@ ==> spec_balance_of(final(balances)@, b) == spec_balance_of(
                    old(balances)@,
                    b,
                )
            &&& sum_balances(final(balances)@) == sum_balances(old(balances)@) - amount
        },
        r is Err ==> *final(balances) == *old(balances) && r == Err::<(), ContractError>(
            ContractError::Overflow {  },
        ),
{
    let ghost s0 = balances@;
    let mut i: usize = 0;
    while i < balances.len()
        invariant
            old(balances)@ == s0,
            *balances == *old(balances),
            i <= s0.len(),
            forall|j: int| 0 <= j < i ==> s0[j].address@ != addr@,
        decreases s0.len() - i,
    {
        if balances[i].address == *addr {
            proof {
                lemma_balance_of_at(s0, addr@, i as int);
            }
            if amount > balances[i].amount {
                return Err(ContractError::Overflow {});
            }
            let new_amount = balances[i].amount - amount;
            balances[i].amount = new_amount;
            proof {
                let e = balances@[i as int];
                assert(balances@ =~= s0.update(i as int, e));
                lemma_sum_update(s0, i as int, e);
                lemma_balance_of_at(balances@, addr@, i as int);
                assert forall|b: Seq<char>| b != addr@ implies spec_balance_of(balances@, b)
                    == spec_balance_of(s0, b) by {
                    lemma_balance_of_update_other(s0, i as int, e, b);
                }
            }
            return Ok(());
        }
        i = i + 1;
    }
    proof {
        lemma_balance_of_absent(s0, addr@);
    }
    if amount == 0 {
        Ok(())
    } else {
        Err(ContractError::Overflow {})
    }
}

} // verus!
