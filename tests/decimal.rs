use kraken_ltp::decimal::{amount_of, amount_of_parsed, DecimalParts};

#[test]
fn two_digit_amount_is_unchanged() {
    assert_eq!(amount_of("59042.10"), "59042.10");
    assert_eq!(amount_of(&amount_of("59042.10")), "59042.10");
}

#[test]
fn short_fraction_is_padded() {
    assert_eq!(amount_of("59042.1"), "59042.10");
    assert_eq!(amount_of("7"), "7.00");
}

#[test]
fn midpoint_rounds_away_from_zero() {
    assert_eq!(amount_of("1.005"), "1.01");
    assert_eq!(amount_of("2.125"), "2.13");
    assert_eq!(amount_of("-1.005"), "-1.01");
}

#[test]
fn below_midpoint_rounds_down() {
    assert_eq!(amount_of("1.004999"), "1.00");
    assert_eq!(amount_of("0.0049"), "0.00");
}

#[test]
fn negative_amount_keeps_sign() {
    assert_eq!(amount_of("-1.234"), "-1.23");
}

#[test]
fn text_that_is_no_number_is_zero() {
    assert_eq!(amount_of("not-a-number"), "0.00");
    assert_eq!(amount_of(""), "0.00");
}

#[test]
fn small_fraction_gets_leading_zero() {
    assert_eq!(amount_of("0.5"), "0.50");
    assert_eq!(amount_of("0.07"), "0.07");
}

#[test]
fn parsed_parts_are_rounded_and_written() {
    let d = DecimalParts { negative: false, mantissa: 5904210000, scale: 5 };
    assert_eq!(amount_of_parsed(Some(d)), "59042.10");
    let d = DecimalParts { negative: true, mantissa: 1005, scale: 3 };
    assert_eq!(amount_of_parsed(Some(d)), "-1.01");
    let d = DecimalParts { negative: false, mantissa: 7, scale: 0 };
    assert_eq!(amount_of_parsed(Some(d)), "7.00");
    assert_eq!(amount_of_parsed(None), "0.00");
}

#[test]
fn huge_integer_keeps_what_fits() {
    // 2^96 - 1 cannot take a fractional digit.
    let d = DecimalParts { negative: false, mantissa: 79228162514264337593543950335, scale: 0 };
    assert_eq!(amount_of_parsed(Some(d)), "79228162514264337593543950335");
}
