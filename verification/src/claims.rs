//! The claims queue: pending redemptions created by unbonding, each with a
//! maturity point, released later against available liquidity.
//!
//! Records are kept in creation order.  A release scans a caller's matured
//! claims in that order and pays each one in full whenever it still fits
//! under the liquidity cap; claims that do not fit stay queued.  The queue
//! invariant — the pending amounts sum to the `claims` counter of the curve
//! state — is stated over [`sum_claims`].

use vstd::prelude::*;

use crate::types::BlockInfo;
use crate::types::Expiration;

verus! {

/// One pending redemption, as reported to queries.
#[derive(Debug, Clone, Copy, PartialEq, Eq, Structural)]
pub struct Claim {
    pub amount: u128,
    pub release_at: Expiration,
}

/// One pending redemption as stored: the claim and its owner.
#[derive(Debug)]
pub struct ClaimRecord {
    pub address: String,
    pub amount: u128,
    pub release_at: Expiration,
}

/// The sum of all pending claim amounts, over all accounts.
pub open spec fn sum_claims(s: Seq<ClaimRecord>) -> nat
    decreases s.len(),
{
    if s.len() == 0 {
        0nat
    } else {
        (s[0].amount + sum_claims(s.skip(1))) as nat
    }
}

pub proof fn lemma_sum_claims_push(s: Seq<ClaimRecord>, e: ClaimRecord)
    ensures
        sum_claims(s.push(e)) == sum_claims(s) + e.amount,
    decreases s.len(),
{
    let t = s.push(e);
    if s.len() == 0 {
        assert(t[0] == e);
        assert(t.skip(1) =~= Seq::<ClaimRecord>::empty());
        assert(sum_claims(t.skip(1)) == 0);
        assert(sum_claims(s) == 0);
        assert(sum_claims(t) == e.amount);
    } else {
        assert(t[0] == s[0]);
        lemma_sum_claims_push(s.skip(1), e);
        assert(t.skip(1) =~= s.skip(1).push(e));
    }
}

/// The claims of one account, in queue order.
pub open spec fn spec_claims_of(s: Seq<ClaimRecord>, addr: Seq<char>) -> Seq<Claim>
    decreases s.len(),
{
    if s.len() == 0 {
        Seq::<Claim>::empty()
    } else if s[0].address@ == addr {
        seq![Claim { amount: s[0].amount, release_at: s[0].release_at }] + spec_claims_of(
            s.skip(1),
            addr,
        )
    } else {
        spec_claims_of(s.skip(1), addr)
    }
}

/// The greedy release walk: scans the queue in order and takes each claim
/// of `addr` that has matured and still fits under the cap together with
/// what was taken before it.  Returns the records kept and the total taken.
pub open spec fn spec_release(
    s: Seq<ClaimRecord>,
    addr: Seq<char>,
    block: BlockInfo,
    cap: nat,
    sent: nat,
) -> (Seq<ClaimRecord>, nat)
    decreases s.len(),
{
    if s.len() == 0 {
        (Seq::<ClaimRecord>::empty(), sent)
    } else {
        let head = s[0];
        if head.address@ == addr && head.release_at.spec_is_expired(block) && sent + head.amount
            <= cap {
            spec_release(s.skip(1), addr, block, cap, (sent + head.amount) as nat)
        } else {
            let rest = spec_release(s.skip(1), addr, block, cap, sent);
            (seq![head] + rest.0, rest.1)
        }
    }
}

/// The release walk conserves value: what is kept plus what is taken
/// equals what was queued, and the total taken stays under the cap.
pub proof fn lemma_release_sum(
    s: Seq<ClaimRecord>,
    addr: Seq<char>,
    block: BlockInfo,
    cap: nat,
    sent: nat,
)
    requires
        sent <= cap,
    ensures
        ({
            let (kept, taken) = spec_release(s, addr, block, cap, sent);
            &&& sum_claims(kept) + taken == sum_claims(s) + sent
            &&& sent <= taken <= cap
        }),
    decreases s.len(),
{
    if s.len() > 0 {
        let head = s[0];
        if head.address@ == addr && head.release_at.spec_is_expired(block) && sent + head.amount
            <= cap {
            lemma_release_sum(s.skip(1), addr, block, cap, (sent + head.amount) as nat);
        } else {
            lemma_release_sum(s.skip(1), addr, block, cap, sent);
            let rest = spec_release(s.skip(1), addr, block, cap, sent);
            let kept = seq![head] + rest.0;
            assert(kept[0] == head);
            assert(kept.skip(1) =~= rest.0);
            assert(sum_claims(kept) == head.amount + sum_claims(rest.0));
        }
    }
}

/// A claim that has not matured is never released: when none of the
/// caller's claims has matured, the walk takes nothing and keeps the queue
/// exactly as it is.
pub proof fn lemma_release_immature(
    s: Seq<ClaimRecord>,
    addr: Seq<char>,
    block: BlockInfo,
    cap: nat,
    sent: nat,
)
    requires
        forall|i: int|
            0 <= i < s.len() && s[i].address@ == addr ==> !(#[trigger] s[i]).release_at.spec_is_expired(
                block,
            ),
    ensures
        spec_release(s, addr, block, cap, sent).0 == s,
        spec_release(s, addr, block, cap, sent).1 == sent,
    decreases s.len(),
{
    if s.len() > 0 {
        let head = s[0];
        assert(forall|i: int|
            0 <= i < s.len() - 1 && s.skip(1)[i].address@ == addr ==> !(#[trigger] s.skip(
                1,
            )[i]).release_at.spec_is_expired(block)) by {
            assert(forall|i: int| 0 <= i < s.len() - 1 ==> s.skip(1)[i] == s[i + 1]);
        }
        lemma_release_immature(s.skip(1), addr, block, cap, sent);
        let rest = spec_release(s.skip(1), addr, block, cap, sent);
        let kept = seq![head] + rest.0;
        assert(kept =~= s);
    }
}

/// A release for one account never touches another account's claims.
pub proof fn lemma_release_other_accounts(
    s: Seq<ClaimRecord>,
    addr: Seq<char>,
    block: BlockInfo,
    cap: nat,
    sent: nat,
    b: Seq<char>,
)
    requires
        b != addr,
    ensures
        spec_claims_of(spec_release(s, addr, block, cap, sent).0, b) == spec_claims_of(s, b),
    decreases s.len(),
{
    if s.len() > 0 {
        let head = s[0];
        if head.address@ == addr && head.release_at.spec_is_expired(block) && sent + head.amount
            <= cap {
            lemma_release_other_accounts(s.skip(1), addr, block, cap, (sent + head.amount) as nat,
                b);
        } else {
            lemma_release_other_accounts(s.skip(1), addr, block, cap, sent, b);
            let rest = spec_release(s.skip(1), addr, block, cap, sent);
            let kept = seq![head] + rest.0;
            assert(kept[0] == head);
            assert(kept.skip(1) =~= rest.0);
            if head.address@ == b {
                assert(spec_claims_of(kept, b) == seq![
                    Claim { amount: head.amount, release_at: head.release_at }] + spec_claims_of(
                    rest.0,
                    b,
                ));
                assert(spec_claims_of(s, b) == seq![
                    Claim { amount: head.amount, release_at: head.release_at }] + spec_claims_of(
                    s.skip(1),
                    b,
                ));
            }
        }
    }
}

/// Appends a new claim for `addr`.
pub fn create_claim(
    records: &mut Vec<ClaimRecord>,
    addr: &String,
    amount: u128,
    release_at: Expiration,
)
    ensures
        final(records)@ == old(records)@.push(
            ClaimRecord { address: *addr, amount, release_at },
        ),
        sum_claims(final(records)@) == sum_claims(old(records)@) + amount,
{
    records.push(ClaimRecord { address: addr.clone(), amount, release_at });
    proof {
        lemma_sum_claims_push(old(records)@, final(records)@[old(records)@.len() as int]);
    }
}

/// Releases the caller's matured claims, paying each in full while the
/// running total fits under `cap`; returns the queue that remains and the
/// total released.
pub fn claim_tokens(records: &Vec<ClaimRecord>, addr: &String, block: &BlockInfo, cap: u128) -> (r:
    (Vec<ClaimRecord>, u128))
    ensures
        r.0@ == spec_release(records@, addr@, *block, cap as nat, 0).0,
        r.1 == spec_release(records@, addr@, *block, cap as nat, 0).1,
        r.1 <= cap,
{
    let ghost s0 = records@;
    let mut kept: Vec<ClaimRecord> = Vec::new();
    let mut sent: u128 = 0;
    let mut i: usize = 0;
    proof {
        assert(s0.skip(0) =~= s0);
        assert(kept@ + spec_release(s0, addr@, *block, cap as nat, 0).0 =~= spec_release(
            s0,
            addr@,
            *block,
            cap as nat,
            0,
        ).0);
    }
    while i < records.len()
        invariant
            records@ == s0,
            i <= s0.len(),
            sent <= cap,
            spec_release(s0, addr@, *block, cap as nat, 0).0 =~= kept@ + spec_release(
                s0.skip(i as int),
                addr@,
                *block,
                cap as nat,
                sent as nat,
            ).0,
            spec_release(s0, addr@, *block, cap as nat, 0).1 == spec_release(
                s0.skip(i as int),
                addr@,
                *block,
                cap as nat,
                sent as nat,
            ).1,
        decreases s0.len() - i,
    {
        let ghost pre = s0.skip(i as int);
        proof {
            assert(pre[0] == s0[i as int]);
            assert(pre.skip(1) =~= s0.skip(i as int + 1));
        }
        let matured = records[i].release_at.is_expired(block);
        let mut taken = false;
        if records[i].address == *addr && matured {
            match sent.checked_add(records[i].amount) {
                Some(t) => {
                    if t <= cap {
                        sent = t;
                        taken = true;
                    }
                },
                None => {
                },
            }
        }
        if !taken {
            let ghost kept0 = kept@;
            kept.push(
                ClaimRecord {
                    address: records[i].address.clone(),
                    amount: records[i].amount,
                    release_at: records[i].release_at,
                },
            );
            proof {
                assert(kept@[kept0.len() as int] == s0[i as int]);
                assert(kept@ =~= kept0.push(s0[i as int]));
                let rest = spec_release(s0.skip(i as int + 1), addr@, *block, cap as nat,
                    sent as nat);
                assert(spec_release(pre, addr@, *block, cap as nat, sent as nat).0 =~= seq![
                    s0[i as int]] + rest.0);
                assert(kept0 + (seq![s0[i as int]] + rest.0) =~= kept@ + rest.0);
            }
        }
        i = i + 1;
    }
    proof {
        assert(s0.skip(s0.len() as int) =~= Seq::<ClaimRecord>::empty());
        assert(kept@ + Seq::<ClaimRecord>::empty() =~= kept@);
    }
    (kept, sent)
}

/// The pending claims of one account, in queue order.
pub fn query_claims(records: &Vec<ClaimRecord>, addr: &String) -> (r: Vec<Claim>)
    ensures
        r@ == spec_claims_of(records@, addr@),
{
    let ghost s0 = records@;
    let mut out: Vec<Claim> = Vec::new();
    let mut i: usize = 0;
    proof {
        assert(s0.skip(0) =~= s0);
        assert(out@ + spec_claims_of(s0, addr@) =~= spec_claims_of(s0, addr@));
    }
    while i < records.len()
        invariant
            records@ == s0,
            i <= s0.len(),
            spec_claims_of(s0, addr@) =~= out@ + spec_claims_of(s0.skip(i as int), addr@),
        decreases s0.len() - i,
    {
        let ghost pre = s0.skip(i as int);
        proof {
            assert(pre[0] == s0[i as int]);
            assert(pre.skip(1) =~= s0.skip(i as int + 1));
        }
        if records[i].address == *addr {
            let ghost out0 = out@;
            out.push(Claim { amount: records[i].amount, release_at: records[i].release_at });
            proof {
                let c = Claim { amount: s0[i as int].amount, release_at: s0[i as int].release_at };
                assert(out@ =~= out0.push(c));
                assert(out0 + (seq![c] + spec_claims_of(s0.skip(i as int + 1), addr@)) =~= out@
                    + spec_claims_of(s0.skip(i as int + 1), addr@));
            }
        }
        i = i + 1;
    }
    proof {
        assert(s0.skip(s0.len() as int) =~= Seq::<ClaimRecord>::empty());
        assert(out@ + spec_claims_of(Seq::<ClaimRecord>::empty(), addr@) =~= out@);
    }
    out
}

} // verus!
