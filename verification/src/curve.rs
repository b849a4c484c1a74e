//! The curve engine: deterministic maps between the reserve paid in and the
//! supply issued, plus the marginal (spot) price.
//!
//! All quantities are fixed-point integers.  A parameter pair
//! `(x, scale)` denotes the rational `x / 10^scale`; supply and reserve
//! amounts carry the number of decimal places recorded in [`DecimalPlaces`].
//! Every division truncates, so the engine never values outstanding supply
//! above the reserve actually collected.  Prices are reported with 18
//! decimal places ([`PRICE_ONE`] is a price of one reserve unit per supply
//! unit, both in whole tokens).

use vstd::prelude::*;

use crate::arith::cbrt_floor;
use crate::arith::icbrt;
use crate::arith::isqrt;
use crate::arith::lemma_pow10_38;
use crate::arith::lemma_pow10_mono;
use crate::arith::lemma_pow10_pos;
use crate::arith::pow10;
use crate::arith::pow10_u128;
use crate::arith::sqrt_floor;
use crate::error::ContractError;

verus! {

/// Prices carry 18 decimal places; this is a price of exactly one.
pub const PRICE_ONE: u128 = 1_000_000_000_000_000_000;

/// How many decimal places the supply and the reserve token carry.
#[derive(Debug, Clone, Copy, PartialEq, Eq, Structural)]
pub struct DecimalPlaces {
    /// Decimal places of the supply token.
    pub supply: u32,
    /// Decimal places of the reserve token.
    pub reserve: u32,
}

impl DecimalPlaces {
    pub fn new(supply: u8, reserve: u8) -> (r: Self)
        ensures
            r.supply == supply as u32,
            r.reserve == reserve as u32,
    {
        DecimalPlaces { supply: supply as u32, reserve: reserve as u32 }
    }
}

/// The closed set of curve shapes, each with its parameters.
#[derive(Debug, Clone, Copy, PartialEq, Eq, Structural)]
pub enum CurveType {
    /// Fixed price: `value / 10^scale` reserve per supply token.
    Constant { value: u128, scale: u32 },
    /// Price grows linearly with supply, slope `slope / 10^scale`.
    Linear { slope: u128, scale: u32 },
    /// Price grows with the square root of supply, slope `slope / 10^scale`.
    SquareRoot { slope: u128, scale: u32 },
}

impl CurveType {
    /// A usable configuration: a non-zero slope or value, and decimal
    /// scalings small enough that the fixed powers of ten fit in 128 bits.
    pub open spec fn wf(self, dec: DecimalPlaces) -> bool {
        match self {
            CurveType::Constant { value, scale } => {
                &&& value >= 1
                &&& scale + dec.supply <= 38
                &&& dec.reserve <= 38
            },
            CurveType::Linear { slope, scale } => {
                &&& slope >= 1
                &&& scale + 2 * dec.supply <= 38
                &&& dec.reserve <= 38
            },
            CurveType::SquareRoot { slope, scale } => {
                &&& slope >= 1
                &&& 2 * scale + 3 * dec.supply <= 37
                &&& 2 * dec.reserve <= 38
            },
        }
    }

    /// Executable form of [`CurveType::wf`].
    pub fn check_wf(&self, dec: &DecimalPlaces) -> (r: bool)
        ensures
            r == self.wf(*dec),
    {
        match self {
            CurveType::Constant { value, scale } => *value >= 1 && *scale <= 38
                && dec.supply <= 38 && *scale + dec.supply <= 38 && dec.reserve <= 38,
            CurveType::Linear { slope, scale } => *slope >= 1 && *scale <= 38 && dec.supply
                <= 19 && *scale + 2 * dec.supply <= 38 && dec.reserve <= 38,
            CurveType::SquareRoot { slope, scale } => *slope >= 1 && *scale <= 18 && dec.supply
                <= 12 && 2 * *scale + 3 * dec.supply <= 37 && dec.reserve <= 19,
        }
    }
}

/// The supply issued when `reserve` has been collected.
pub open spec fn spec_supply_for(curve: CurveType, dec: DecimalPlaces, reserve: nat) -> nat {
    match curve {
        CurveType::Constant { value, scale } => (((reserve * pow10(
            (scale + dec.supply) as nat,
        )) as int) / ((value * pow10(dec.reserve as nat)) as int)) as nat,
        CurveType::Linear { slope, scale } => sqrt_floor(
            (((2 * reserve * pow10((scale + 2 * dec.supply) as nat)) as int) / ((slope * pow10(
                dec.reserve as nat,
            )) as int)) as nat,
        ),
        CurveType::SquareRoot { slope, scale } => cbrt_floor(
            (((9 * (reserve * reserve) * pow10((2 * scale + 3 * dec.supply) as nat)) as int) / ((4
                * (slope * slope) * pow10((2 * dec.reserve) as nat)) as int)) as nat,
        ),
    }
}

/// The reserve backing an issued `supply`.
pub open spec fn spec_reserve_for(curve: CurveType, dec: DecimalPlaces, supply: nat) -> nat {
    match curve {
        CurveType::Constant { value, scale } => (((supply * value * pow10(
            dec.reserve as nat,
        )) as int) / (pow10((scale + dec.supply) as nat) as int)) as nat,
        CurveType::Linear { slope, scale } => (((supply * supply * slope * pow10(
            dec.reserve as nat,
        )) as int) / ((2 * pow10((scale + 2 * dec.supply) as nat)) as int)) as nat,
        CurveType::SquareRoot { slope, scale } => sqrt_floor(
            (((supply * supply * supply * 4 * (slope * slope) * pow10(
                (2 * dec.reserve) as nat,
            )) as int) / ((9 * pow10((2 * scale + 3 * dec.supply) as nat)) as int)) as nat,
        ),
    }
}

/// The marginal price at `supply`, with 18 decimal places.
pub open spec fn spec_spot_price(curve: CurveType, dec: DecimalPlaces, supply: nat) -> nat {
    match curve {
        CurveType::Constant { value, scale } => (((value * pow10(18)) as int) / (pow10(
            scale as nat,
        ) as int)) as nat,
        CurveType::Linear { slope, scale } => (((slope * supply * pow10(18)) as int) / (pow10(
            (scale + dec.supply) as nat,
        ) as int)) as nat,
        CurveType::SquareRoot { slope, scale } => (((slope * sqrt_floor(
            (((supply * pow10(36)) as int) / (pow10(dec.supply as nat) as int)) as nat,
        )) as int) / (pow10(scale as nat) as int)) as nat,
    }
}

/// Whether the intermediate products of [`supply_for`] fit in 128 bits.
pub open spec fn supply_for_fits(curve: CurveType, dec: DecimalPlaces, reserve: nat) -> bool {
    match curve {
        CurveType::Constant { value, scale } => {
            &&& reserve * pow10((scale + dec.supply) as nat) <= u128::MAX
            &&& value * pow10(dec.reserve as nat) <= u128::MAX
        },
        CurveType::Linear { slope, scale } => {
            &&& 2 * reserve * pow10((scale + 2 * dec.supply) as nat) <= u128::MAX
            &&& slope * pow10(dec.reserve as nat) <= u128::MAX
        },
        CurveType::SquareRoot { slope, scale } => {
            &&& 9 * (reserve * reserve) * pow10((2 * scale + 3 * dec.supply) as nat) <= u128::MAX
            &&& 4 * (slope * slope) * pow10((2 * dec.reserve) as nat) <= u128::MAX
        },
    }
}

/// Whether the intermediate products of [`reserve_for`] fit in 128 bits.
pub open spec fn reserve_for_fits(curve: CurveType, dec: DecimalPlaces, supply: nat) -> bool {
    match curve {
        CurveType::Constant { value, scale } => supply * value * pow10(dec.reserve as nat)
            <= u128::MAX,
        CurveType::Linear { slope, scale } => supply * supply * slope * pow10(dec.reserve as nat)
            <= u128::MAX,
        CurveType::SquareRoot { slope, scale } => supply * supply * supply * 4 * (slope * slope)
            * pow10((2 * dec.reserve) as nat) <= u128::MAX,
    }
}

/// Whether the intermediate products of [`spot_price`] fit in 128 bits.
pub open spec fn spot_price_fits(curve: CurveType, dec: DecimalPlaces, supply: nat) -> bool {
    match curve {
        CurveType::Constant { value, scale } => value * pow10(18) <= u128::MAX,
        CurveType::Linear { slope, scale } => slope * supply * pow10(18) <= u128::MAX,
        CurveType::SquareRoot { slope, scale } => {
            &&& supply * pow10(36) <= u128::MAX
            &&& slope * sqrt_floor((supply * pow10(36)) / pow10(dec.supply as nat)) <= u128::MAX
        },
    }
}

proof fn lemma_mul_le(a: nat, b: nat)
    by (nonlinear_arith)
    requires
        b >= 1,
    ensures
        a <= a * b,
{
}

/// Multiplies two 128-bit integers, or reports the overflow as an error.
fn mul_or_overflow(a: u128, b: u128) -> (r: Result<u128, ContractError>)
    ensures
        r matches Ok(v) ==> v == a * b,
        r is Ok <==> a * b <= u128::MAX,
        r is Err ==> (r matches Err(e) && e == (ContractError::Overflow {  })),
{
    match a.checked_mul(b) {
        Some(v) => Ok(v),
        None => Err(ContractError::Overflow {}),
    }
}

/// The supply issued once `reserve` has been collected: the curve function
/// applied to the whole reserve, truncating.  Fails only when an
/// intermediate 128-bit product overflows.
pub fn supply_for(curve: &CurveType, dec: &DecimalPlaces, reserve: u128) -> (r: Result<
    u128,
    ContractError,
>)
    requires
        curve.wf(*dec),
    ensures
        r matches Ok(v) ==> v == spec_supply_for(*curve, *dec, reserve as nat),
        r is Ok <==> supply_for_fits(*curve, *dec, reserve as nat),
        r is Err ==> (r matches Err(e) && e == (ContractError::Overflow {  })),
{
    match curve {
        CurveType::Constant { value, scale } => {
            let num = match mul_or_overflow(reserve, pow10_u128(*scale + dec.supply)) {
                Ok(v) => v,
                Err(e) => {
                    return Err(e);
                },
            };
            let den = match mul_or_overflow(*value, pow10_u128(dec.reserve)) {
                Ok(v) => v,
                Err(e) => {
                    return Err(e);
                },
            };
            proof {
                lemma_pow10_pos(dec.reserve as nat);
                assert(den >= 1) by (nonlinear_arith)
                    requires
                        den == (*value) * pow10(dec.reserve as nat),
                        *value >= 1,
                        pow10(dec.reserve as nat) >= 1,
                ;
            }
            Ok(num / den)
        },
        CurveType::Linear { slope, scale } => {
            let k = pow10_u128(*scale + 2 * dec.supply);
            let t = match mul_or_overflow(2, reserve) {
                Ok(v) => v,
                Err(e) => {
                    proof {
                        lemma_pow10_pos((*scale + 2 * dec.supply) as nat);
                        lemma_mul_le((2 * reserve) as nat, pow10((*scale + 2 * dec.supply) as nat));
                    }
                    return Err(e);
                },
            };
            let num = match mul_or_overflow(t, k) {
                Ok(v) => v,
                Err(e) => {
                    return Err(e);
                },
            };
            let den = match mul_or_overflow(*slope, pow10_u128(dec.reserve)) {
                Ok(v) => v,
                Err(e) => {
                    return Err(e);
                },
            };
            proof {
                lemma_pow10_pos(dec.reserve as nat);
                assert(den >= 1) by (nonlinear_arith)
                    requires
                        den == (*slope) * pow10(dec.reserve as nat),
                        *slope >= 1,
                        pow10(dec.reserve as nat) >= 1,
                ;
            }
            Ok(isqrt(num / den))
        },
        CurveType::SquareRoot { slope, scale } => {
            let a = pow10_u128(2 * *scale + 3 * dec.supply);
            let b = pow10_u128(2 * dec.reserve);
            let rr = match mul_or_overflow(reserve, reserve) {
                Ok(v) => v,
                Err(e) => {
                    proof {
                        lemma_pow10_pos((2 * *scale + 3 * dec.supply) as nat);
                        lemma_sqrt_num_prefix(reserve as nat, pow10((2 * *scale + 3
                            * dec.supply) as nat));
                    }
                    return Err(e);
                },
            };
            let num9 = match mul_or_overflow(9, rr) {
                Ok(v) => v,
                Err(e) => {
                    proof {
                        lemma_pow10_pos((2 * *scale + 3 * dec.supply) as nat);
                        lemma_mul_le((9 * (reserve as nat * reserve as nat)) as nat, pow10(
                            (2 * *scale + 3 * dec.supply) as nat));
                    }
                    return Err(e);
                },
            };
            let num = match mul_or_overflow(num9, a) {
                Ok(v) => v,
                Err(e) => {
                    return Err(e);
                },
            };
            let ss = match mul_or_overflow(*slope, *slope) {
                Ok(v) => v,
                Err(e) => {
                    proof {
                        lemma_pow10_pos((2 * dec.reserve) as nat);
                        lemma_den_prefix(*slope as nat, pow10((2 * dec.reserve) as nat));
                    }
                    return Err(e);
                },
            };
            let den4 = match mul_or_overflow(4, ss) {
                Ok(v) => v,
                Err(e) => {
                    proof {
                        lemma_pow10_pos((2 * dec.reserve) as nat);
                        lemma_mul_le((4 * (*slope as nat * *slope as nat)) as nat, pow10(
                            (2 * dec.reserve) as nat));
                    }
                    return Err(e);
                },
            };
            let den = match mul_or_overflow(den4, b) {
                Ok(v) => v,
                Err(e) => {
                    return Err(e);
                },
            };
            proof {
                lemma_pow10_pos((2 * dec.reserve) as nat);
                assert(den >= 1) by (nonlinear_arith)
                    requires
                        den == 4 * ((*slope) as nat * (*slope) as nat) * pow10(
                            (2 * dec.reserve) as nat,
                        ),
                        *slope >= 1,
                        pow10((2 * dec.reserve) as nat) >= 1,
                ;
            }
            Ok(icbrt(num / den))
        },
    }
}

/// The reserve backing an issued `supply`: the inverse of [`supply_for`],
/// truncating.  Fails only when an intermediate 128-bit product overflows.
pub fn reserve_for(curve: &CurveType, dec: &DecimalPlaces, supply: u128) -> (r: Result<
    u128,
    ContractError,
>)
    requires
        curve.wf(*dec),
    ensures
        r matches Ok(v) ==> v == spec_reserve_for(*curve, *dec, supply as nat),
        r is Ok <==> reserve_for_fits(*curve, *dec, supply as nat),
        r is Err ==> (r matches Err(e) && e == (ContractError::Overflow {  })),
{
    match curve {
        CurveType::Constant { value, scale } => {
            let sv = match mul_or_overflow(supply, *value) {
                Ok(v) => v,
                Err(e) => {
                    proof {
                        lemma_pow10_pos(dec.reserve as nat);
                        lemma_mul_le((supply as nat * *value as nat) as nat, pow10(
                            dec.reserve as nat));
                    }
                    return Err(e);
                },
            };
            let num = match mul_or_overflow(sv, pow10_u128(dec.reserve)) {
                Ok(v) => v,
                Err(e) => {
                    return Err(e);
                },
            };
            let den = pow10_u128(*scale + dec.supply);
            proof {
                lemma_pow10_pos((*scale + dec.supply) as nat);
            }
            Ok(num / den)
        },
        CurveType::Linear { slope, scale } => {
            let s2 = match mul_or_overflow(supply, supply) {
                Ok(v) => v,
                Err(e) => {
                    proof {
                        lemma_pow10_pos(dec.reserve as nat);
                        lemma_mul_le((supply as nat * supply as nat) as nat, *slope as nat);
                        lemma_mul_le((supply as nat * supply as nat * *slope as nat) as nat, pow10(
                            dec.reserve as nat));
                    }
                    return Err(e);
                },
            };
            let s2s = match mul_or_overflow(s2, *slope) {
                Ok(v) => v,
                Err(e) => {
                    proof {
                        lemma_pow10_pos(dec.reserve as nat);
                        lemma_mul_le((supply as nat * supply as nat * *slope as nat) as nat, pow10(
                            dec.reserve as nat));
                    }
                    return Err(e);
                },
            };
            let num = match mul_or_overflow(s2s, pow10_u128(dec.reserve)) {
                Ok(v) => v,
                Err(e) => {
                    return Err(e);
                },
            };
            proof {
                lemma_pow10_38();
                lemma_pow10_mono((*scale + 2 * dec.supply) as nat, 38);
                lemma_pow10_pos((*scale + 2 * dec.supply) as nat);
            }
            let den = 2 * pow10_u128(*scale + 2 * dec.supply);
            Ok(num / den)
        },
        CurveType::SquareRoot { slope, scale } => {
            let s2 = match mul_or_overflow(supply, supply) {
                Ok(v) => v,
                Err(e) => {
                    proof {
                        lemma_pow10_pos((2 * dec.reserve) as nat);
                        lemma_sqrt_reserve_prefix_1(supply as nat, *slope as nat, pow10(
                            (2 * dec.reserve) as nat));
                    }
                    return Err(e);
                },
            };
            let s3 = match mul_or_overflow(s2, supply) {
                Ok(v) => v,
                Err(e) => {
                    proof {
                        lemma_pow10_pos((2 * dec.reserve) as nat);
                        lemma_sqrt_reserve_prefix_2(supply as nat, *slope as nat, pow10(
                            (2 * dec.reserve) as nat));
                    }
                    return Err(e);
                },
            };
            let s34 = match mul_or_overflow(s3, 4) {
                Ok(v) => v,
                Err(e) => {
                    proof {
                        lemma_pow10_pos((2 * dec.reserve) as nat);
                        lemma_sqrt_reserve_prefix_3(supply as nat, *slope as nat, pow10(
                            (2 * dec.reserve) as nat));
                    }
                    return Err(e);
                },
            };
            let s34a = match mul_or_overflow(s34, *slope) {
                Ok(v) => v,
                Err(e) => {
                    proof {
                        lemma_pow10_pos((2 * dec.reserve) as nat);
                        lemma_sqrt_reserve_prefix_4(supply as nat, *slope as nat, pow10(
                            (2 * dec.reserve) as nat));
                    }
                    return Err(e);
                },
            };
            let num0 = match mul_or_overflow(s34a, *slope) {
                Ok(v) => v,
                Err(e) => {
                    proof {
                        lemma_pow10_pos((2 * dec.reserve) as nat);
                        lemma_sqrt_reserve_prefix_5(supply as nat, *slope as nat, pow10(
                            (2 * dec.reserve) as nat));
                    }
                    return Err(e);
                },
            };
            let num = match mul_or_overflow(num0, pow10_u128(2 * dec.reserve)) {
                Ok(v) => v,
                Err(e) => {
                    proof {
                        lemma_sqrt_reserve_assoc(supply as nat, *slope as nat, pow10(
                            (2 * dec.reserve) as nat));
                    }
                    return Err(e);
                },
            };
            proof {
                lemma_sqrt_reserve_assoc(supply as nat, *slope as nat, pow10(
                    (2 * dec.reserve) as nat));
                lemma_pow10_38();
                lemma_pow10_mono((2 * *scale + 3 * dec.supply) as nat, 37);
                lemma_pow10_mono(37, 38);
                lemma_pow10_pos((2 * *scale + 3 * dec.supply) as nat);
            }
            let den = 9 * pow10_u128(2 * *scale + 3 * dec.supply);
            Ok(isqrt(num / den))
        },
    }
}

/// The marginal price at `supply`, with 18 decimal places.  Used only for
/// informational queries, never for trade settlement.  Fails only when an
/// intermediate 128-bit product overflows.
pub fn spot_price(curve: &CurveType, dec: &DecimalPlaces, supply: u128) -> (r: Result<
    u128,
    ContractError,
>)
    requires
        curve.wf(*dec),
    ensures
        r matches Ok(v) ==> v == spec_spot_price(*curve, *dec, supply as nat),
        r is Ok <==> spot_price_fits(*curve, *dec, supply as nat),
        r is Err ==> (r matches Err(e) && e == (ContractError::Overflow {  })),
{
    match curve {
        CurveType::Constant { value, scale } => {
            let num = match mul_or_overflow(*value, pow10_u128(18)) {
                Ok(v) => v,
                Err(e) => {
                    return Err(e);
                },
            };
            proof {
                lemma_pow10_pos(*scale as nat);
            }
            Ok(num / pow10_u128(*scale))
        },
        CurveType::Linear { slope, scale } => {
            let a = match mul_or_overflow(*slope, supply) {
                Ok(v) => v,
                Err(e) => {
                    proof {
                        lemma_pow10_pos(18);
                        lemma_mul_le((*slope as nat * supply as nat) as nat, pow10(18));
                    }
                    return Err(e);
                },
            };
            let num = match mul_or_overflow(a, pow10_u128(18)) {
                Ok(v) => v,
                Err(e) => {
                    return Err(e);
                },
            };
            proof {
                lemma_pow10_pos((*scale + dec.supply) as nat);
            }
            Ok(num / pow10_u128(*scale + dec.supply))
        },
        CurveType::SquareRoot { slope, scale } => {
            let a = match mul_or_overflow(supply, pow10_u128(36)) {
                Ok(v) => v,
                Err(e) => {
                    return Err(e);
                },
            };
            proof {
                lemma_pow10_pos(dec.supply as nat);
            }
            let root = isqrt(a / pow10_u128(dec.supply));
            let num = match mul_or_overflow(*slope, root) {
                Ok(v) => v,
                Err(e) => {
                    return Err(e);
                },
            };
            proof {
                lemma_pow10_pos(*scale as nat);
            }
            Ok(num / pow10_u128(*scale))
        },
    }
}

/// Prefix bounds for the square-root curve's reserve numerator
/// `s * s * s * 4 * (sl * sl) * p`: every prefix product is at most the
/// full product, since the remaining factors are at least one (or an
/// earlier factor is zero).
proof fn lemma_sqrt_reserve_prefix_1(s: nat, sl: nat, p: nat)
    by (nonlinear_arith)
    requires
        sl >= 1,
        p >= 1,
    ensures
        s * s <= s * s * s * 4 * (sl * sl) * p || s == 0,
{
}

proof fn lemma_sqrt_reserve_prefix_2(s: nat, sl: nat, p: nat)
    by (nonlinear_arith)
    requires
        sl >= 1,
        p >= 1,
    ensures
        s * s * s <= s * s * s * 4 * (sl * sl) * p,
{
}

proof fn lemma_sqrt_reserve_prefix_3(s: nat, sl: nat, p: nat)
    by (nonlinear_arith)
    requires
        sl >= 1,
        p >= 1,
    ensures
        s * s * s * 4 <= s * s * s * 4 * (sl * sl) * p,
{
}

proof fn lemma_sqrt_reserve_prefix_4(s: nat, sl: nat, p: nat)
    by (nonlinear_arith)
    requires
        sl >= 1,
        p >= 1,
    ensures
        (s * s * s * 4) * sl <= s * s * s * 4 * (sl * sl) * p,
{
}

proof fn lemma_sqrt_reserve_prefix_5(s: nat, sl: nat, p: nat)
    by (nonlinear_arith)
    requires
        sl >= 1,
        p >= 1,
    ensures
        ((s * s * s * 4) * sl) * sl <= s * s * s * 4 * (sl * sl) * p,
{
}

proof fn lemma_sqrt_reserve_assoc(s: nat, sl: nat, p: nat)
    by (nonlinear_arith)
    ensures
        (((s * s * s * 4) * sl) * sl) * p == s * s * s * 4 * (sl * sl) * p,
{
}

pub proof fn lemma_cbrt_mono(a: nat, b: nat)
    requires
        a <= b,
    ensures
        cbrt_floor(a) <= cbrt_floor(b),
{
    crate::arith::lemma_cbrt_floor(a);
    crate::arith::lemma_cbrt_floor(b);
    let sa = cbrt_floor(a);
    let sb = cbrt_floor(b);
    assert(sa <= sb) by (nonlinear_arith)
        requires
            sa * sa * sa <= a,
            a <= b,
            b < (sb + 1) * (sb + 1) * (sb + 1),
            sa >= 0,
            sb >= 0,
    ;
}

/// The curve map from reserve to supply never decreases: paying more never
/// yields fewer supply tokens.
pub proof fn lemma_supply_for_monotone(curve: CurveType, dec: DecimalPlaces, r1: nat, r2: nat)
    requires
        curve.wf(dec),
        r1 <= r2,
    ensures
        spec_supply_for(curve, dec, r1) <= spec_supply_for(curve, dec, r2),
{
    match curve {
        CurveType::Constant { value, scale } => {
            lemma_pow10_pos(dec.reserve as nat);
            lemma_pow10_pos((scale + dec.supply) as nat);
            let p = pow10((scale + dec.supply) as nat) as int;
            let den = (value * pow10(dec.reserve as nat)) as int;
            assert(den >= 1) by (nonlinear_arith)
                requires
                    den == value * pow10(dec.reserve as nat),
                    value >= 1,
                    pow10(dec.reserve as nat) >= 1,
            ;
            assert(r1 * p <= r2 * p) by (nonlinear_arith)
                requires
                    r1 <= r2,
                    p >= 1,
            ;
            vstd::arithmetic::div_mod::lemma_div_is_ordered((r1 * p) as int, (r2 * p) as int, den);
        },
        CurveType::Linear { slope, scale } => {
            lemma_pow10_pos(dec.reserve as nat);
            lemma_pow10_pos((scale + 2 * dec.supply) as nat);
            let p = pow10((scale + 2 * dec.supply) as nat) as int;
            let den = (slope * pow10(dec.reserve as nat)) as int;
            assert(den >= 1) by (nonlinear_arith)
                requires
                    den == slope * pow10(dec.reserve as nat),
                    slope >= 1,
                    pow10(dec.reserve as nat) >= 1,
            ;
            assert(2 * r1 * p <= 2 * r2 * p) by (nonlinear_arith)
                requires
                    r1 <= r2,
                    p >= 1,
            ;
            vstd::arithmetic::div_mod::lemma_div_is_ordered(
                (2 * r1 * p) as int,
                (2 * r2 * p) as int,
                den,
            );
            lemma_sqrt_mono(
                (((2 * r1 * p) as int) / den) as nat,
                (((2 * r2 * p) as int) / den) as nat,
            );
        },
        CurveType::SquareRoot { slope, scale } => {
            lemma_pow10_pos((2 * dec.reserve) as nat);
            lemma_pow10_pos((2 * scale + 3 * dec.supply) as nat);
            let p = pow10((2 * scale + 3 * dec.supply) as nat) as int;
            let den = (4 * (slope * slope) * pow10((2 * dec.reserve) as nat)) as int;
            assert(den >= 1) by (nonlinear_arith)
                requires
                    den == 4 * (slope * slope) * pow10((2 * dec.reserve) as nat),
                    slope >= 1,
                    pow10((2 * dec.reserve) as nat) >= 1,
            ;
            assert(9 * (r1 * r1) * p <= 9 * (r2 * r2) * p) by (nonlinear_arith)
                requires
                    r1 <= r2,
                    p >= 1,
            ;
            vstd::arithmetic::div_mod::lemma_div_is_ordered(
                (9 * (r1 * r1) * p) as int,
                (9 * (r2 * r2) * p) as int,
                den,
            );
            lemma_cbrt_mono(
                (((9 * (r1 * r1) * p) as int) / den) as nat,
                (((9 * (r2 * r2) * p) as int) / den) as nat,
            );
        },
    }
}

pub proof fn lemma_sqrt_mono(a: nat, b: nat)
    requires
        a <= b,
    ensures
        sqrt_floor(a) <= sqrt_floor(b),
{
    crate::arith::lemma_sqrt_floor(a);
    crate::arith::lemma_sqrt_floor(b);
    let sa = sqrt_floor(a);
    let sb = sqrt_floor(b);
    assert(sa <= sb) by (nonlinear_arith)
        requires
            sa * sa <= a,
            a <= b,
            b < (sb + 1) * (sb + 1),
            sa >= 0,
            sb >= 0,
    ;
}

pub proof fn lemma_sqrt_square(r: nat)
    ensures
        sqrt_floor(r * r) == r,
{
    assert(r * r < (r + 1) * (r + 1)) by (nonlinear_arith);
    crate::arith::lemma_sqrt_unique(r * r, r);
}

/// Round trip of the curve maps, the conservative-rounding law: the reserve
/// redeemable for the supply issued against a collected reserve `r` never
/// exceeds `r`, and the shortfall is below the cost of one more supply
/// unit — a supply one unit higher is already worth at least `r`.
pub proof fn lemma_round_trip(curve: CurveType, dec: DecimalPlaces, r: nat)
    requires
        curve.wf(dec),
    ensures
        spec_reserve_for(curve, dec, spec_supply_for(curve, dec, r)) <= r,
        spec_reserve_for(curve, dec, spec_supply_for(curve, dec, r) + 1) >= r,
{
    match curve {
        CurveType::Constant { value, scale } => {
            lemma_pow10_pos(dec.reserve as nat);
            lemma_pow10_pos((scale + dec.supply) as nat);
            let nn = (value * pow10(dec.reserve as nat)) as int;
            let dd = pow10((scale + dec.supply) as nat) as int;
            let x = (r * pow10((scale + dec.supply) as nat)) as int;
            assert(nn >= 1) by (nonlinear_arith)
                requires
                    nn == value * pow10(dec.reserve as nat),
                    value >= 1,
                    pow10(dec.reserve as nat) >= 1,
            ;
            let s = x / nn;
            assert(s >= 0) by {
                vstd::arithmetic::div_mod::lemma_div_pos_is_pos(x, nn);
            }
            assert(spec_supply_for(curve, dec, r) == s as nat);
            assert(x == r * dd);
            vstd::arithmetic::div_mod::lemma_div_by_multiple(r as int, dd);
            assert((r * dd) / dd == r);
            // the reserve numerators at s and s + 1
            assert((s as nat) * value * pow10(dec.reserve as nat) == s * nn) by (nonlinear_arith)
                requires
                    nn == value * pow10(dec.reserve as nat),
                    s >= 0,
            ;
            assert(((s + 1) as nat) * value * pow10(dec.reserve as nat) == (s + 1) * nn)
                by (nonlinear_arith)
                requires
                    nn == value * pow10(dec.reserve as nat),
                    s >= 0,
            ;
            vstd::arithmetic::div_mod::lemma_remainder_lower(x, nn);
            assert(x / nn * nn == s * nn);
            assert(s * nn <= x);
            vstd::arithmetic::div_mod::lemma_div_is_ordered(s * nn, x, dd);
            assert(spec_reserve_for(curve, dec, spec_supply_for(curve, dec, r)) == (s * nn) / dd);
            vstd::arithmetic::div_mod::lemma_remainder_upper(x, nn);
            assert(x - nn < s * nn);
            assert(x <= (s + 1) * nn) by (nonlinear_arith)
                requires
                    x - nn < s * nn,
            ;
            vstd::arithmetic::div_mod::lemma_div_is_ordered(x, (s + 1) * nn, dd);
            assert(spec_reserve_for(curve, dec, spec_supply_for(curve, dec, r) + 1) == ((s + 1)
                * nn) / dd);
        },
        CurveType::Linear { slope, scale } => {
            lemma_pow10_pos(dec.reserve as nat);
            lemma_pow10_pos((scale + 2 * dec.supply) as nat);
            let nn = (slope * pow10(dec.reserve as nat)) as int;
            let kk = pow10((scale + 2 * dec.supply) as nat) as int;
            let dd = 2 * kk;
            let x = (2 * r * pow10((scale + 2 * dec.supply) as nat)) as int;
            assert(nn >= 1) by (nonlinear_arith)
                requires
                    nn == slope * pow10(dec.reserve as nat),
                    slope >= 1,
                    pow10(dec.reserve as nat) >= 1,
            ;
            let q = x / nn;
            assert(q >= 0) by {
                vstd::arithmetic::div_mod::lemma_div_pos_is_pos(x, nn);
            }
            let s = sqrt_floor(q as nat);
            assert(spec_supply_for(curve, dec, r) == s);
            crate::arith::lemma_sqrt_floor(q as nat);
            assert(x == r * dd) by (nonlinear_arith)
                requires
                    x == 2 * r * kk,
                    dd == 2 * kk,
            ;
            vstd::arithmetic::div_mod::lemma_div_by_multiple(r as int, dd);
            assert((r * dd) / dd == r);
            // the reserve numerators at s and s + 1
            assert(s * s * slope * pow10(dec.reserve as nat) == (s * s) * nn) by (nonlinear_arith)
                requires
                    nn == slope * pow10(dec.reserve as nat),
            ;
            assert((s + 1) * (s + 1) * slope * pow10(dec.reserve as nat) == ((s + 1) * (s + 1))
                * nn) by (nonlinear_arith)
                requires
                    nn == slope * pow10(dec.reserve as nat),
            ;
            vstd::arithmetic::div_mod::lemma_remainder_lower(x, nn);
            assert(q * nn <= x);
            assert((s * s) * nn <= q * nn) by (nonlinear_arith)
                requires
                    s * s <= q,
                    nn >= 1,
            ;
            vstd::arithmetic::div_mod::lemma_div_is_ordered((s * s) * nn, x, dd);
            assert(spec_reserve_for(curve, dec, spec_supply_for(curve, dec, r)) == ((s * s) * nn)
                / dd);
            vstd::arithmetic::div_mod::lemma_remainder_upper(x, nn);
            assert(x <= (q + 1) * nn) by (nonlinear_arith)
                requires
                    x - nn < q * nn,
            ;
            assert((q + 1) * nn <= ((s + 1) * (s + 1)) * nn) by (nonlinear_arith)
                requires
                    q < (s + 1) * (s + 1),
                    nn >= 1,
            ;
            vstd::arithmetic::div_mod::lemma_div_is_ordered(x, ((s + 1) * (s + 1)) * nn, dd);
            assert(spec_reserve_for(curve, dec, spec_supply_for(curve, dec, r) + 1) == (((s + 1) * (
            s + 1)) * nn) / dd);
        },
        CurveType::SquareRoot { slope, scale } => {
            lemma_pow10_pos((2 * dec.reserve) as nat);
            lemma_pow10_pos((2 * scale + 3 * dec.supply) as nat);
            let qq = pow10((2 * dec.reserve) as nat) as int;
            let pp = pow10((2 * scale + 3 * dec.supply) as nat) as int;
            let nn = (4 * (slope * slope) * qq) as int;
            let dd = 9 * pp;
            let x = (9 * (r * r) * pp) as int;
            assert(nn >= 1) by (nonlinear_arith)
                requires
                    nn == 4 * (slope * slope) * qq,
                    slope >= 1,
                    qq >= 1,
            ;
            let q = x / nn;
            assert(q >= 0) by {
                vstd::arithmetic::div_mod::lemma_div_pos_is_pos(x, nn);
            }
            let s = cbrt_floor(q as nat);
            assert(spec_supply_for(curve, dec, r) == s);
            crate::arith::lemma_cbrt_floor(q as nat);
            assert(x == (r * r) * dd) by (nonlinear_arith)
                requires
                    x == 9 * (r * r) * pp,
                    dd == 9 * pp,
            ;
            vstd::arithmetic::div_mod::lemma_div_by_multiple((r * r) as int, dd);
            assert(((r * r) * dd) / dd == r * r);
            // the reserve numerators at s and s + 1
            assert(s * s * s * 4 * (slope * slope) * qq == (s * s * s) * nn) by (nonlinear_arith)
                requires
                    nn == 4 * (slope * slope) * qq,
            ;
            assert((s + 1) * (s + 1) * (s + 1) * 4 * (slope * slope) * qq == ((s + 1) * (s + 1) * (
            s + 1)) * nn) by (nonlinear_arith)
                requires
                    nn == 4 * (slope * slope) * qq,
            ;
            vstd::arithmetic::div_mod::lemma_remainder_lower(x, nn);
            assert(q * nn <= x);
            assert((s * s * s) * nn <= q * nn) by (nonlinear_arith)
                requires
                    s * s * s <= q,
                    nn >= 1,
            ;
            vstd::arithmetic::div_mod::lemma_div_is_ordered((s * s * s) * nn, x, dd);
            assert(((s * s * s) * nn) / dd <= (r * r) as int);
            lemma_sqrt_mono((((s * s * s) * nn) / dd) as nat, (r * r) as nat);
            lemma_sqrt_square(r);
            assert(spec_reserve_for(curve, dec, spec_supply_for(curve, dec, r)) == sqrt_floor(
                (((s * s * s) * nn) / dd) as nat,
            ));
            vstd::arithmetic::div_mod::lemma_remainder_upper(x, nn);
            assert(x <= (q + 1) * nn) by (nonlinear_arith)
                requires
                    x - nn < q * nn,
            ;
            assert((q + 1) * nn <= ((s + 1) * (s + 1) * (s + 1)) * nn) by (nonlinear_arith)
                requires
                    q < (s + 1) * (s + 1) * (s + 1),
                    nn >= 1,
            ;
            vstd::arithmetic::div_mod::lemma_div_is_ordered(x, ((s + 1) * (s + 1) * (s + 1)) * nn,
                dd);
            assert((r * r) as int <= (((s + 1) * (s + 1) * (s + 1)) * nn) / dd);
            lemma_sqrt_mono((r * r) as nat, ((((s + 1) * (s + 1) * (s + 1)) * nn) / dd) as nat);
            assert(spec_reserve_for(curve, dec, spec_supply_for(curve, dec, r) + 1) == sqrt_floor(
                ((((s + 1) * (s + 1) * (s + 1)) * nn) / dd) as nat,
            ));
        },
    }
}

/// `r * r <= 9 * (r * r) * p` when `p >= 1`: an overflowing first product
/// means the full numerator overflows too.
proof fn lemma_sqrt_num_prefix(r: nat, p: nat)
    by (nonlinear_arith)
    requires
        p >= 1,
    ensures
        r * r <= 9 * (r * r) * p,
{
}

/// `s * s <= 4 * (s * s) * p` when `p >= 1`.
proof fn lemma_den_prefix(s: nat, p: nat)
    by (nonlinear_arith)
    requires
        p >= 1,
    ensures
        s * s <= 4 * (s * s) * p,
{
}

} // verus!
