use cw20_bondcamp::curve::{
    reserve_for, spot_price, supply_for, CurveType, DecimalPlaces, PRICE_ONE,
};

fn dec(supply: u8, reserve: u8) -> DecimalPlaces {
    DecimalPlaces { supply: supply as u32, reserve: reserve as u32 }
}

/// The conservative-rounding round trip: the redemption value of the
/// supply issued against a collected reserve never exceeds that reserve,
/// and one more supply unit would already be worth at least that reserve.
fn assert_round_trip(curve: &CurveType, places: &DecimalPlaces, r: u128) {
    let s = supply_for(curve, places, r).unwrap();
    let back = reserve_for(curve, places, s).unwrap();
    assert!(back <= r, "over-returned: {} -> {} -> {}", r, s, back);
    let next = reserve_for(curve, places, s + 1).unwrap();
    assert!(next >= r, "gap above one unit: {} -> {} -> next {}", r, s, next);
}

#[test]
fn linear_curve_matches_the_reference_points() {
    let curve = CurveType::Linear { slope: 1, scale: 1 };
    let places = dec(2, 8);
    // 5 whole reserve tokens buy 10.00 supply tokens
    assert_eq!(supply_for(&curve, &places, 500_000_000).unwrap(), 1000);
    assert_eq!(reserve_for(&curve, &places, 1000).unwrap(), 500_000_000);
    // 20 whole reserve tokens buy 20.00 supply tokens
    assert_eq!(supply_for(&curve, &places, 2_000_000_000).unwrap(), 2000);
    assert_eq!(reserve_for(&curve, &places, 2000).unwrap(), 2_000_000_000);
    // the marginal price grows linearly with supply
    assert_eq!(spot_price(&curve, &places, 0).unwrap(), 0);
    assert_eq!(spot_price(&curve, &places, 1000).unwrap(), PRICE_ONE);
    assert_eq!(spot_price(&curve, &places, 2000).unwrap(), 2 * PRICE_ONE);
}

#[test]
fn constant_curve_matches_the_reference_points() {
    let curve = CurveType::Constant { value: 15, scale: 1 };
    let places = dec(9, 6);
    assert_eq!(supply_for(&curve, &places, 45_000).unwrap(), 30_000_000);
    assert_eq!(reserve_for(&curve, &places, 1_000_000).unwrap(), 1_500);
    assert_eq!(spot_price(&curve, &places, 0).unwrap(), 15 * PRICE_ONE / 10);
}

#[test]
fn square_root_curve_matches_the_reference_points() {
    // whole units, slope one: reserve(s) = floor(sqrt(4 s^3 / 9))
    let curve = CurveType::SquareRoot { slope: 1, scale: 0 };
    let places = dec(0, 0);
    assert_eq!(reserve_for(&curve, &places, 9).unwrap(), 18);
    assert_eq!(supply_for(&curve, &places, 18).unwrap(), 9);
    // the marginal price at supply 9 is sqrt(9) = 3
    assert_eq!(spot_price(&curve, &places, 9).unwrap(), 3 * PRICE_ONE);
}

#[test]
fn round_trip_never_over_returns() {
    let linear = CurveType::Linear { slope: 1, scale: 1 };
    let lp = dec(2, 8);
    for r in [0u128, 1, 499, 500, 123_456_789, 500_000_000, 700_000_000, 2_000_000_000] {
        assert_round_trip(&linear, &lp, r);
    }
    let constant = CurveType::Constant { value: 15, scale: 1 };
    let cp = dec(9, 6);
    for r in [0u128, 1, 7, 45_000, 999_999_999] {
        assert_round_trip(&constant, &cp, r);
    }
    let root = CurveType::SquareRoot { slope: 1, scale: 1 };
    let rp = dec(2, 8);
    for r in [0u128, 1, 1_000, 500_000_000, 2_000_000_000] {
        assert_round_trip(&root, &rp, r);
    }
}

#[test]
fn truncation_is_visible_between_grid_points() {
    let curve = CurveType::Linear { slope: 1, scale: 1 };
    let places = dec(2, 8);
    // 7 whole reserve tokens fall between the costs of 11.83 and 11.84
    // supply tokens, so the buyer gets 11.83 and the difference stays in
    // the reserve
    let s = supply_for(&curve, &places, 700_000_000).unwrap();
    assert_eq!(s, 1183);
    assert_eq!(reserve_for(&curve, &places, 1183).unwrap(), 699_744_500);
    assert_eq!(reserve_for(&curve, &places, 1184).unwrap(), 700_928_000);
}
