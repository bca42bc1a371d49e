//! The numeral parser and the unit-scaling rules on concrete values.

use pool_stats::num::{
    dec_to_u64, parse_dec, recip_to_hundredths, scale_to_hundredths, Dec,
};

fn parse(text: &str) -> Option<Dec> {
    parse_dec(&text.as_bytes().to_vec())
}

#[test]
fn parses_plain_integers() {
    assert_eq!(
        parse("9876543210000"),
        Some(Dec { mantissa: 9_876_543_210_000, exponent: 0 })
    );
    assert_eq!(parse("0"), Some(Dec { mantissa: 0, exponent: 0 }));
    assert_eq!(parse("42"), Some(Dec { mantissa: 42, exponent: 0 }));
}

#[test]
fn parses_fractions() {
    assert_eq!(parse("0.0123"), Some(Dec { mantissa: 123, exponent: -4 }));
    assert_eq!(parse("0.5"), Some(Dec { mantissa: 5, exponent: -1 }));
    assert_eq!(parse("120.0"), Some(Dec { mantissa: 1200, exponent: -1 }));
    assert_eq!(
        parse("2500000000000000.0"),
        Some(Dec { mantissa: 25_000_000_000_000_000, exponent: -1 })
    );
}

#[test]
fn parses_exponents() {
    assert_eq!(parse("1.23e5"), Some(Dec { mantissa: 123, exponent: 3 }));
    assert_eq!(parse("2e-3"), Some(Dec { mantissa: 2, exponent: -3 }));
    assert_eq!(parse("7E+2"), Some(Dec { mantissa: 7, exponent: 2 }));
    assert_eq!(parse("1e30"), Some(Dec { mantissa: 1, exponent: 30 }));
}

#[test]
fn rejects_malformed_numerals() {
    assert_eq!(parse(""), None);
    assert_eq!(parse("-1"), None);
    assert_eq!(parse("1."), None);
    assert_eq!(parse(".5"), None);
    assert_eq!(parse("1e"), None);
    assert_eq!(parse("1e+"), None);
    assert_eq!(parse("abc"), None);
    assert_eq!(parse("1x"), None);
    assert_eq!(parse("12.3.4"), None);
    assert_eq!(parse("1 "), None);
}

#[test]
fn rejects_out_of_range_numerals() {
    // One digit beyond u64::MAX.
    assert_eq!(parse("99999999999999999999"), None);
    // Exponent magnitude beyond the accepted cap.
    assert_eq!(parse("1e1000000000"), None);
    assert_eq!(parse("1e-1000000000"), None);
}

#[test]
fn integer_extraction_mirrors_plain_integers_only() {
    assert_eq!(dec_to_u64(parse("123").unwrap()), Some(123));
    assert_eq!(dec_to_u64(parse("123.0").unwrap()), None);
    assert_eq!(dec_to_u64(parse("1e3").unwrap()), None);
}

#[test]
fn network_hashrate_scaling_round_trip() {
    // Raw 9_876_543_210_000 H/s is 9.88 Th/s at two decimals.
    let d = parse("9876543210000").unwrap();
    assert_eq!(scale_to_hundredths(d, 12), Some(988));
}

#[test]
fn difficulty_scaling() {
    // Raw 2.5e15 is 2.50 PH at two decimals.
    let d = parse("2500000000000000.0").unwrap();
    assert_eq!(scale_to_hundredths(d, 15), Some(250));
}

#[test]
fn pool_hashrate_scaling_rounds_to_nearest() {
    // Raw 123_456_789_000 H/s is 123.46 Gh/s at two decimals.
    let d = parse("123456789000.0").unwrap();
    assert_eq!(scale_to_hundredths(d, 9), Some(12346));
}

#[test]
fn effort_scaling_follows_documented_formula() {
    // Raw fraction 0.0123: round(0.0123 * 10000) / 100 = 1.23, stored as
    // 123 hundredths of a percent.
    let d = parse("0.0123").unwrap();
    assert_eq!(scale_to_hundredths(d, -2), Some(123));
}

#[test]
fn scaling_saturates_to_absent() {
    // A value whose scaled form exceeds u64::MAX is treated as absent.
    let d = parse("1e30").unwrap();
    assert_eq!(scale_to_hundredths(d, 9), None);
    // A value far below the unit rounds to zero.
    let tiny = parse("1e-30").unwrap();
    assert_eq!(scale_to_hundredths(tiny, 9), Some(0));
}

#[test]
fn price_reciprocal() {
    // last_price 0.5: price = 1/0.5 = 2.00.
    assert_eq!(recip_to_hundredths(parse("0.5").unwrap()), Some(200));
    // last_price 2: price = 0.50.
    assert_eq!(recip_to_hundredths(parse("2").unwrap()), Some(50));
    // last_price 3: 1/3 rounds to 0.33.
    assert_eq!(recip_to_hundredths(parse("3").unwrap()), Some(33));
    // A zero traded price has no reciprocal.
    assert_eq!(recip_to_hundredths(parse("0").unwrap()), None);
    // A huge traded price rounds to a zero reciprocal.
    assert_eq!(recip_to_hundredths(parse("1e9").unwrap()), Some(0));
    // A tiny traded price overflows the stored unit: absent.
    assert_eq!(recip_to_hundredths(parse("1e-30").unwrap()), None);
}
