use drip::decimal::Decimal;
use drip::money::{Money, Percent, Price, Shares};

fn dec(s: &str) -> Decimal {
    Decimal::parse(s).unwrap()
}

#[test]
fn split_divides_seed_into_tranches() {
    assert_eq!(Money::new(dec("32000")).split(40), Money::new(dec("800")));
}

#[test]
fn split_guards_against_zero() {
    assert_eq!(Money::new(dec("100")).split(0), Money::new(dec("100")));
}

#[test]
fn shares_affordable_floors_to_whole_shares() {
    // 800 / 105 = 7.61... -> 7 whole shares
    let budget = Money::new(dec("800"));
    let price = Price::new(dec("105")).unwrap();
    assert_eq!(budget.shares_affordable(price), Shares::new(7));
}

#[test]
fn zero_budget_affords_no_shares() {
    let price = Price::new(dec("105")).unwrap();
    assert_eq!(Money::zero().shares_affordable(price), Shares::zero());
}

#[test]
fn fraction_floor_takes_a_quarter() {
    assert_eq!(Shares::new(15).fraction_floor(dec("0.25")), Shares::new(3));
}

#[test]
fn adjusted_price_is_take_profit_target() {
    let avg = Price::new(dec("100")).unwrap();
    assert_eq!(
        avg.adjusted(Percent::from_percent(dec("15"))),
        Price::new(dec("115")).unwrap()
    );
}

#[test]
fn price_total_is_cost_of_shares() {
    assert_eq!(
        Price::new(dec("100")).unwrap().total(Shares::new(10)),
        Money::new(dec("1000"))
    );
}

#[test]
fn percent_ratio_and_percent_agree() {
    assert_eq!(Percent::from_percent(dec("15")).ratio(), dec("0.15"));
    assert_eq!(Percent::from_ratio(dec("0.15")).ratio(), dec("0.15"));
}

#[test]
fn price_rejects_non_positive() {
    assert!(Price::new(dec("0")).is_none());
    assert!(Price::new(dec("-1")).is_none());
}

#[test]
fn money_adds_and_subtracts_by_value() {
    let sum = Money::new(dec("1.50")) + Money::new(dec("2.25"));
    assert_eq!(sum, Money::new(dec("3.75")));
    assert_eq!(sum - Money::new(dec("4")), Money::new(dec("-0.25")));
    assert!(!Money::new(dec("-0.25")).is_positive());
    assert!(Money::new(dec("0.00")).is_zero());
}

#[test]
fn money_rounds_half_cents_to_even() {
    assert_eq!(Money::new(dec("1.005")).round_cents(), Money::new(dec("1.00")));
    assert_eq!(Money::new(dec("1.015")).round_cents(), Money::new(dec("1.02")));
    assert_eq!(Money::new(dec("1.019")).round_cents(), Money::new(dec("1.02")));
}

#[test]
fn money_scales_by_a_factor() {
    assert_eq!(Money::new(dec("800")).scaled(dec("0.5")), Money::new(dec("400")));
    assert!(Money::new(dec("79228162514264337593543950335"))
        .try_scaled(dec("2"))
        .is_none());
}

#[test]
fn money_prints_rounded_to_cents() {
    assert_eq!(Money::new(dec("1234.567")).to_text(), "1234.57");
    assert_eq!(Money::new(dec("-3")).to_text(), "-3");
}

#[test]
fn an_adjustment_of_minus_everything_leaves_nothing() {
    let avg = Price::new(dec("100")).unwrap();
    assert_eq!(avg.adjusted(Percent::from_percent(dec("-100"))).value(), dec("0"));
    assert_eq!(avg.adjusted(Percent::from_percent(dec("-22.5"))).value(), dec("77.5"));
}

#[test]
fn shares_subtract_down_to_zero() {
    assert_eq!(Shares::new(3) - Shares::new(7), Shares::zero());
    assert_eq!(Shares::new(7) - Shares::new(3), Shares::new(4));
    assert_eq!(Shares::new(u32::MAX).checked_add(Shares::new(1)), None);
    assert!(Shares::zero().is_zero());
    assert_eq!(Shares::new(12).to_text(), "12");
}

#[test]
fn a_fraction_never_exceeds_the_shares_and_drops_negatives() {
    assert_eq!(Shares::new(3).fraction_floor(dec("0.25")), Shares::zero());
    assert_eq!(Shares::new(9).fraction_floor(dec("-0.5")), Shares::zero());
}

#[test]
fn out_of_range_totals_are_refused() {
    let huge = Price::new(dec("79228162514264337593543950335")).unwrap();
    assert!(huge.try_total(Shares::new(2)).is_none());
    assert!(huge.try_adjusted(Percent::from_percent(dec("100"))).is_none());
    assert!(Money::new(huge.value()).checked_add(Money::new(huge.value())).is_none());
}

#[test]
fn a_rounded_quotient_floors_as_the_exact_one() {
    let shares = |amount: &str, price: &str| {
        Money::new(dec(amount)).shares_affordable(Price::new(dec(price)).unwrap())
    };
    assert_eq!(shares("400", "110.5"), Shares::new(3));
    assert_eq!(shares("500", "115"), Shares::new(4));
    // Rounding reaches a whole number of shares that the amount does not quite pay for.
    assert_eq!(shares("2.9999999999999999999999999999", "3"), Shares::new(1));
}
