//! The balance formatter and the decimal-string round trip.

use tipping::format::{claim_reference_log_message, formatted_balance, tip_log_message};
use tipping::strings::{amount_to_string, parse_u128, str_eq};

#[test]
fn formatted_balance_places_the_point() {
    assert_eq!(formatted_balance("100000000000000000000000", 24), "0.1");
    assert_eq!(formatted_balance("0", 24), "0");
    assert_eq!(formatted_balance("0", 0), "0");
    assert_eq!(formatted_balance("1500", 2), "15");
    assert_eq!(formatted_balance("1234", 2), "12.34");
    assert_eq!(formatted_balance("100", 0), "100");
    assert_eq!(formatted_balance("5", 3), "0.005");
    assert_eq!(formatted_balance("1500000000000000000", 18), "1.5");
    assert_eq!(formatted_balance("1000000000000000000", 18), "1");
    assert_eq!(formatted_balance("10203", 4), "1.0203");
    assert_eq!(formatted_balance("10230", 4), "1.023");
}

#[test]
fn amount_to_string_renders_decimal() {
    assert_eq!(amount_to_string(0), "0");
    assert_eq!(amount_to_string(7), "7");
    assert_eq!(amount_to_string(105), "105");
    assert_eq!(amount_to_string(100000000000000000000000), "100000000000000000000000");
    assert_eq!(
        amount_to_string(u128::MAX),
        "340282366920938463463374607431768211455"
    );
}

#[test]
fn parse_u128_accepts_exactly_decimal_strings() {
    assert_eq!(parse_u128("0"), Some(0));
    assert_eq!(parse_u128("30"), Some(30));
    assert_eq!(parse_u128("000042"), Some(42));
    assert_eq!(
        parse_u128("340282366920938463463374607431768211455"),
        Some(u128::MAX)
    );
    assert_eq!(parse_u128("340282366920938463463374607431768211456"), None);
    assert_eq!(parse_u128(""), None);
    assert_eq!(parse_u128("12a"), None);
    assert_eq!(parse_u128("-3"), None);
    assert_eq!(parse_u128("1.5"), None);
}

#[test]
fn parse_inverts_rendering() {
    for n in [0u128, 1, 9, 10, 12345678901234567890, u128::MAX] {
        assert_eq!(parse_u128(amount_to_string(n).as_str()), Some(n));
    }
}

#[test]
fn str_eq_compares_by_characters() {
    assert!(str_eq("native", "native"));
    assert!(!str_eq("native", "nativ"));
    assert!(!str_eq("native", "nativE"));
    assert!(str_eq("", ""));
}

#[test]
fn log_lines_carry_the_formatted_amount() {
    assert_eq!(
        tip_log_message("alice", 100000000000000000000000, "NEAR", 24, Some("user/u1")),
        "alice tipped 0.1 NEAR to user/u1"
    );
    assert_eq!(
        tip_log_message("danny", 1500, "USD", 2, None),
        "danny received 15 USD"
    );
    assert_eq!(
        claim_reference_log_message("user", "u1"),
        "user/u1 has been claimed"
    );
}
