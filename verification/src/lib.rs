//! A bonding-curve token economy with a liquid-staking derivative.
//!
//! Users pay a reserve asset to mint supply tokens along a deterministic
//! price curve, burn supply tokens to redeem reserve, or bond a stakeable
//! asset to receive derivative tokens whose value floats with accrued
//! rewards.  Every operation is an atomic transition of an explicit
//! [`state::ContractState`]: it either updates the state and returns the
//! external effects the host must carry out, or returns an error and
//! leaves the state exactly as it was.

pub mod arith;
pub mod bonding;
pub mod claims;
pub mod contract;
pub mod curve;
pub mod error;
pub mod ledger;
pub mod msg;
pub mod query;
pub mod staking;
pub mod state;
pub mod types;
