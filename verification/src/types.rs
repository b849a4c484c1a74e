//! Plain values exchanged with the host: coins, the invocation context,
//! durations and expirations of the logical clock, and the result of an
//! operation — a list of external effects plus auditable attributes.

use vstd::prelude::*;

use crate::error::ContractError;
use crate::error::PaymentError;

verus! {

/// An amount of one native token denomination.
#[derive(Debug)]
pub struct Coin {
    pub denom: String,
    pub amount: u128,
}

/// The logical clock supplied by the invocation context.
#[derive(Debug, Clone, Copy, PartialEq, Eq, Structural)]
pub struct BlockInfo {
    pub height: u64,
    /// Nanoseconds since the epoch.
    pub time: u64,
}

/// The contract's own identity and the current block.
#[derive(Debug)]
pub struct Env {
    pub contract_address: String,
    pub block: BlockInfo,
}

/// Who invoked the operation and what funds the call carries.
#[derive(Debug)]
pub struct MessageInfo {
    pub sender: String,
    pub funds: Vec<Coin>,
}

/// A span of the logical clock, in blocks or in seconds.
#[derive(Debug, Clone, Copy, PartialEq, Eq, Structural)]
pub enum Duration {
    Height(u64),
    /// Seconds.
    Time(u64),
}

/// A point of the logical clock at which something matures.
#[derive(Debug, Clone, Copy, PartialEq, Eq, Structural)]
pub enum Expiration {
    AtHeight(u64),
    /// Nanoseconds since the epoch.
    AtTime(u64),
}

pub const NANOS_PER_SECOND: u64 = 1_000_000_000;

impl Duration {
    /// The point after this duration has passed, from the given block.
    pub open spec fn spec_after(self, block: BlockInfo) -> Expiration {
        match self {
            Duration::Height(h) => Expiration::AtHeight((block.height + h) as u64),
            Duration::Time(t) => Expiration::AtTime(
                (block.time + t * NANOS_PER_SECOND) as u64,
            ),
        }
    }

    /// Whether computing [`Duration::spec_after`] stays within 64 bits.
    pub open spec fn after_fits(self, block: BlockInfo) -> bool {
        match self {
            Duration::Height(h) => block.height + h <= u64::MAX,
            Duration::Time(t) => t * NANOS_PER_SECOND <= u64::MAX && block.time + t
                * NANOS_PER_SECOND <= u64::MAX,
        }
    }

    pub fn after(&self, block: &BlockInfo) -> (r: Result<Expiration, ContractError>)
        ensures
            r matches Ok(e) ==> e == self.spec_after(*block),
            r is Ok <==> self.after_fits(*block),
            r is Err ==> (r matches Err(e) && e == (ContractError::Overflow {  })),
    {
        match self {
            Duration::Height(h) => match block.height.checked_add(*h) {
                Some(v) => Ok(Expiration::AtHeight(v)),
                None => Err(ContractError::Overflow {}),
            },
            Duration::Time(t) => match t.checked_mul(NANOS_PER_SECOND) {
                Some(n) => match block.time.checked_add(n) {
                    Some(v) => Ok(Expiration::AtTime(v)),
                    None => Err(ContractError::Overflow {}),
                },
                None => Err(ContractError::Overflow {}),
            },
        }
    }
}

impl Expiration {
    /// Whether the point has been reached at the given block.
    pub open spec fn spec_is_expired(self, block: BlockInfo) -> bool {
        match self {
            Expiration::AtHeight(h) => block.height >= h,
            Expiration::AtTime(t) => block.time >= t,
        }
    }

    pub fn is_expired(&self, block: &BlockInfo) -> (r: bool)
        ensures
            r == self.spec_is_expired(*block),
    {
        match self {
            Expiration::AtHeight(h) => block.height >= *h,
            Expiration::AtTime(t) => block.time >= *t,
        }
    }
}

/// An external effect the host carries out after the operation succeeds.
#[derive(Debug)]
pub enum Effect {
    /// Transfer native tokens to an account.
    Send { to_address: String, amount: Coin },
    /// Delegate native tokens to a validator.
    Delegate { validator: String, amount: Coin },
    /// Undelegate native tokens from a validator.
    Undelegate { validator: String, amount: Coin },
    /// Withdraw the rewards accumulated at a validator.
    WithdrawReward { validator: String },
    /// Invoke the contract's own bond-all-tokens entry point.
    InvokeBondAllTokens { contract_addr: String },
}

/// The value of an auditable attribute: free text or a token amount.
#[derive(Debug)]
pub enum AttrValue {
    Text(String),
    Amount(u128),
}

/// One auditable key-value record emitted by an operation.
#[derive(Debug)]
pub struct Attribute {
    pub key: String,
    pub value: AttrValue,
}

/// What the external stake oracle reports for one invocation: the
/// contract's current delegations and its liquid balance of the bond
/// denomination.
#[derive(Debug)]
pub struct StakeOracle {
    pub delegations: Vec<Coin>,
    pub bond_balance: u128,
}

/// What a successful operation hands back to the host.
#[derive(Debug)]
pub struct Response {
    /// External effects, in the order the host must execute them.
    pub messages: Vec<Effect>,
    /// Auditable attributes of the operation.
    pub attributes: Vec<Attribute>,
}

impl Response {
    pub fn new() -> (r: Response)
        ensures
            r.messages@ =~= Seq::<Effect>::empty(),
            r.attributes@ =~= Seq::<Attribute>::empty(),
    {
        Response { messages: Vec::new(), attributes: Vec::new() }
    }
}

/// The attribute carries the given key and text.
pub open spec fn attr_text(a: Attribute, key: Seq<char>, value: Seq<char>) -> bool {
    &&& a.key@ == key
    &&& a.value matches AttrValue::Text(t) && t@ == value
}

/// The attribute carries the given key and amount.
pub open spec fn attr_amount(a: Attribute, key: Seq<char>, value: u128) -> bool {
    &&& a.key@ == key
    &&& a.value matches AttrValue::Amount(v) && v == value
}

/// The coin carries the given denomination and amount.
pub open spec fn coin_is(c: Coin, denom: Seq<char>, amount: u128) -> bool {
    &&& c.denom@ == denom
    &&& c.amount == amount
}

/// What the payment checks of an operation conclude from the attached
/// funds: exactly one coin of a positive amount must be attached.
pub open spec fn spec_one_coin(funds: Seq<Coin>) -> Result<Coin, PaymentError> {
    if funds.len() == 0 {
        Err(PaymentError::NoFunds)
    } else if funds.len() == 1 {
        if funds[0].amount == 0 {
            Err(PaymentError::NoFunds)
        } else {
            Ok(funds[0])
        }
    } else {
        Err(PaymentError::MultipleDenoms)
    }
}

/// The amount paid in the required denomination, or why the payment is
/// rejected.  The error for a wrong denomination carries `denom` itself.
pub open spec fn spec_must_pay(funds: Seq<Coin>, denom: String) -> Result<u128, PaymentError> {
    match spec_one_coin(funds) {
        Err(e) => Err(e),
        Ok(c) => if c.denom@ == denom@ {
            Ok(c.amount)
        } else {
            Err(PaymentError::MissingDenom(denom))
        },
    }
}

/// Requires exactly one positive coin of denomination `denom` among the
/// attached funds and returns its amount.
pub fn must_pay(info: &MessageInfo, denom: &String) -> (r: Result<u128, PaymentError>)
    ensures
        r == spec_must_pay(info.funds@, *denom),
{
    if info.funds.len() == 0 {
        Err(PaymentError::NoFunds)
    } else if info.funds.len() == 1 {
        let amount = info.funds[0].amount;
        if amount == 0 {
            Err(PaymentError::NoFunds)
        } else if info.funds[0].denom == *denom {
            Ok(amount)
        } else {
            Err(PaymentError::MissingDenom(denom.clone()))
        }
    } else {
        Err(PaymentError::MultipleDenoms)
    }
}

/// Rejects any attached funds.
pub fn nonpayable(info: &MessageInfo) -> (r: Result<(), PaymentError>)
    ensures
        r is Ok <==> info.funds@.len() == 0,
        r is Err ==> r == Err::<(), PaymentError>(PaymentError::NonPayable),
{
    if info.funds.len() == 0 {
        Ok(())
    } else {
        Err(PaymentError::NonPayable)
    }
}

} // verus!
