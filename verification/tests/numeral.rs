use escudo::numeral::{decimal_text, signed_decimal_text};

#[test]
fn decimals() {
    for n in [0u128, 1, 9, 10, 99, 100, 12_345, u64::MAX as u128, u128::MAX] {
        assert_eq!(decimal_text(n), n.to_string());
        assert_eq!(decimal_text(n).parse::<u128>(), Ok(n));
    }
}

#[test]
fn signed_decimals() {
    for n in [0i64, 1, -1, 42, -42, i64::MAX, i64::MIN] {
        assert_eq!(signed_decimal_text(n), n.to_string());
    }
}
