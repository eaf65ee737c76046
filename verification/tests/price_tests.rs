use alx::parse_price;

const SENTINEL: u64 = 999_999_900;

#[test]
fn plain_decimal_with_currency_and_thousands_space() {
    assert_eq!(parse_price("1 234,50 zł"), Some(123_450));
}

#[test]
fn comma_reads_as_decimal_point() {
    assert_eq!(parse_price("450,00"), Some(45_000));
}

#[test]
fn dot_decimal() {
    assert_eq!(parse_price("12.34"), Some(1_234));
}

#[test]
fn bare_integer() {
    assert_eq!(parse_price("600"), Some(60_000));
}

#[test]
fn empty_string_is_sentinel() {
    assert_eq!(parse_price(""), Some(SENTINEL));
}

#[test]
fn word_is_sentinel() {
    assert_eq!(parse_price("ask"), Some(SENTINEL));
}

#[test]
fn ask_for_price_phrase_is_sentinel() {
    assert_eq!(parse_price("Zapytaj o cenę"), Some(SENTINEL));
}

#[test]
fn missing_price_placeholder_equals_sentinel() {
    assert_eq!(parse_price("9999999"), Some(SENTINEL));
}

#[test]
fn one_fraction_digit_scales_to_cents() {
    assert_eq!(parse_price("7,5"), Some(750));
}

#[test]
fn trailing_separator_means_whole_units() {
    assert_eq!(parse_price("5."), Some(500));
}

#[test]
fn leading_separator_means_fraction_only() {
    assert_eq!(parse_price(".5"), Some(50));
}

#[test]
fn two_separators_are_sentinel() {
    assert_eq!(parse_price("12,34,56"), Some(SENTINEL));
}

#[test]
fn three_fraction_digits_are_sentinel() {
    assert_eq!(parse_price("1,234"), Some(SENTINEL));
}

#[test]
fn stray_symbol_is_sentinel() {
    assert_eq!(parse_price("$12"), Some(SENTINEL));
}

#[test]
fn surrounding_whitespace_is_stripped() {
    assert_eq!(parse_price("  42  "), Some(4_200));
}

#[test]
fn interior_thousands_spaces_are_stripped() {
    assert_eq!(parse_price("1 000 000"), Some(100_000_000));
}

#[test]
fn value_too_large_for_cents_is_sentinel() {
    assert_eq!(parse_price("99999999999999999999"), Some(SENTINEL));
}

#[test]
fn units_fit_exactly_in_cents() {
    assert_eq!(parse_price("184467440737095516,15"), Some(u64::MAX));
}
