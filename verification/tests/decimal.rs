use drip::decimal::Decimal;

fn dec(s: &str) -> Decimal {
    Decimal::parse(s).unwrap()
}

#[test]
fn arithmetic_is_exact_where_it_fits() {
    assert_eq!(dec("1.1").checked_add(dec("2.25")), Some(dec("3.35")));
    assert_eq!(dec("1.1").checked_sub(dec("2.25")), Some(dec("-1.15")));
    assert_eq!(dec("1.5").checked_mul(dec("-4")), Some(dec("-6")));
    assert_eq!(dec("1").checked_div(dec("8")), Some(dec("0.125")));
}

#[test]
fn division_by_zero_and_overflow_are_refused() {
    assert_eq!(dec("1").checked_div(dec("0")), None);
    let max = dec("79228162514264337593543950335");
    assert_eq!(max.checked_add(dec("1")), None);
    assert_eq!(max.checked_mul(dec("2")), None);
    assert_eq!(dec("-79228162514264337593543950335").checked_sub(dec("1")), None);
}

#[test]
fn operators_agree_with_the_checked_forms() {
    assert_eq!(dec("7") + dec("3"), dec("10"));
    assert_eq!(dec("7") - dec("3"), dec("4"));
    assert_eq!(dec("7") * dec("3"), dec("21"));
    assert_eq!(dec("7") / dec("2"), dec("3.5"));
}

#[test]
fn comparison_is_by_value_not_by_scale() {
    assert_eq!(dec("1.50"), dec("1.5"));
    assert!(dec("1.49") < dec("1.5"));
    assert!(dec("-2") < dec("-1.99"));
    assert!(dec("3") >= dec("3.0"));
}

#[test]
fn rounding_up_down_and_to_even() {
    assert_eq!(dec("-1.5").floor(), dec("-2"));
    assert_eq!(dec("-1.5").ceil(), dec("-1"));
    assert_eq!(dec("1.2").floor(), dec("1"));
    assert_eq!(dec("1.2").ceil(), dec("2"));
    assert_eq!(dec("2.5").round_dp(0), dec("2"));
    assert_eq!(dec("3.5").round_dp(0), dec("4"));
    assert_eq!(dec("2.345").round_dp(2), dec("2.34"));
}

#[test]
fn normalizing_strips_trailing_zeros() {
    assert_eq!(dec("188475.00").normalize().to_text(), "188475");
    assert_eq!(dec("100").normalize().to_text(), "100");
    assert_eq!(dec("0.00").normalize().to_text(), "0");
}

#[test]
fn text_keeps_the_scale() {
    assert_eq!(dec("1.50").to_text(), "1.50");
    assert_eq!(dec("-0.05").to_text(), "-0.05");
    assert_eq!(Decimal::new(12345, 2).to_text(), "123.45");
    assert_eq!(Decimal::from_u32(40).to_text(), "40");
}

#[test]
fn counts_are_whole_and_in_range() {
    assert_eq!(dec("7.9").to_u32(), Some(7));
    assert_eq!(dec("-1").to_u32(), None);
    assert_eq!(dec("4294967295").to_u32(), Some(u32::MAX));
    assert_eq!(dec("4294967296").to_u32(), None);
}

#[test]
fn parsing_rejects_what_is_no_number() {
    assert!(Decimal::parse("").is_err());
    assert!(Decimal::parse("abc").is_err());
    assert!(Decimal::parse("1.2.3").is_err());
    assert_eq!(dec("12.30").mantissa(), 1230);
    assert_eq!(dec("12.30").scale(), 2);
}

#[test]
fn parts_out_of_range_are_refused() {
    assert!(Decimal::from_parts(1, 29).is_none());
    assert!(Decimal::from_parts(79_228_162_514_264_337_593_543_950_336, 0).is_none());
    assert_eq!(Decimal::from_parts(5, 1), Some(dec("0.5")));
}

const TOP: i128 = 79_228_162_514_264_337_593_543_950_335;

fn next_random(state: &mut u64) -> u64 {
    *state = state
        .wrapping_mul(6_364_136_223_846_793_005)
        .wrapping_add(1_442_695_040_888_963_407);
    *state >> 11
}

// A product is one of the two decimals next to the exact one: less than one unit of its last
// digit away, and no digit more would fit.
#[test]
fn products_are_rounded_to_a_neighbour() {
    let mut state = 7u64;
    for _ in 0..20_000 {
        let m = (next_random(&mut state) >> (next_random(&mut state) % 50)) as i128;
        let n = (next_random(&mut state) >> (next_random(&mut state) % 50)) as i128;
        let s = (next_random(&mut state) % 29) as u32;
        let t = (next_random(&mut state) % 29) as u32;
        let a = Decimal::from_parts(m, s).unwrap();
        let b = Decimal::from_parts(-n, t).unwrap();
        let Some(r) = a.checked_mul(b) else { continue };
        let exact = m * n;
        if exact == 0 {
            assert_eq!(r.mantissa(), 0);
            continue;
        }
        let cut = s + t - r.scale();
        let Some(unit) = 10i128.checked_pow(cut) else {
            // The product is far below the smallest decimal.
            assert_eq!(r.mantissa(), 0);
            continue;
        };
        assert!((-r.mantissa() * unit - exact).abs() < unit);
        if cut > 0 && r.scale() < 28 {
            assert!(exact / (unit / 10) > TOP);
        }
    }
}

#[test]
fn quotients_are_rounded_to_a_neighbour() {
    let mut state = 11u64;
    for _ in 0..20_000 {
        let m = (next_random(&mut state) >> (next_random(&mut state) % 50)) as i128;
        let n = (next_random(&mut state) % 1_000_000_000 + 1) as i128;
        let a = Decimal::from_parts(m, 0).unwrap();
        let b = Decimal::from_parts(n, 0).unwrap();
        let r = a.checked_div(b).unwrap();
        // The same number with as many digits as fit.
        let (mut mantissa, mut scale) = (r.mantissa(), r.scale());
        while scale < 28 && mantissa != 0 && mantissa <= TOP / 10 {
            mantissa *= 10;
            scale += 1;
        }
        let exact = m.checked_mul(10i128.pow(scale)).unwrap();
        assert!((mantissa * n - exact).abs() < n);
    }
}

// Next to the largest mantissa the last digit is given up, and the result is still next to the
// exact one.
#[test]
fn sums_are_rounded_to_a_neighbour() {
    let top = Decimal::from_parts(TOP, 28).unwrap();
    let unit = Decimal::from_parts(1, 28).unwrap();
    let r = top.checked_add(unit).unwrap();
    assert_eq!((r.mantissa(), r.scale()), (7_922_816_251_426_433_759_354_395_034, 27));
    let r = top.checked_add(top).unwrap();
    assert_eq!((r.mantissa(), r.scale()), (15_845_632_502_852_867_518_708_790_067, 27));
    // A small number next to a large one is absorbed.
    let large = Decimal::from_parts(TOP, 0).unwrap();
    assert_eq!(large.checked_add(unit), Some(large));
    assert_eq!(large.checked_sub(unit), Some(large));
    assert_eq!(large.checked_add(Decimal::one()), None);
}

#[test]
fn quotients_within_the_range_are_returned() {
    let top = Decimal::from_parts(TOP, 0).unwrap();
    let small = Decimal::from_parts(TOP, 28).unwrap();
    let unit = Decimal::from_parts(1, 28).unwrap();
    assert_eq!(small.checked_div(unit), Some(top));
    assert_eq!(top.checked_div(unit), None);
    assert_eq!(top.checked_div(dec("0.9999999999999999999999999999")), None);
    assert!(top.checked_div(dec("1.0000000000000000000000000001")).is_some());
    assert!(dec("7922816251426433759354395033.5").checked_div(dec("0.1")).is_some());
    // Divisors of more than 32 and of more than 64 bits.
    assert!(top.checked_div(dec("12345678901.5")).is_some());
    assert!(top.checked_div(dec("1.2345678901234567890123456789")).is_some());
    assert!(dec("400").checked_div(dec("110.5")).is_some());
}
