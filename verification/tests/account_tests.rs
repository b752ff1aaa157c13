//! The account-identifier validity check, held against the host SDK's
//! documented rules.

use tipping::account::is_valid_account_id;

#[test]
fn accepts_well_formed_account_ids() {
    for ok in [
        "ok",
        "alice.near",
        "bob",
        "b-o_w_e-n",
        "a-b_c.d1",
        "1234567890",
        "dai.token",
    ] {
        assert!(is_valid_account_id(ok), "{} should be valid", ok);
    }
}

#[test]
fn rejects_malformed_account_ids() {
    let too_long = "a".repeat(65);
    for bad in [
        "",
        "a",
        "A-capital",
        "white space",
        "native!",
        ".starts-with-separator",
        "ends-with-separator.",
        "double..separator",
        "mixed_-separators",
        too_long.as_str(),
    ] {
        assert!(!is_valid_account_id(bad), "{} should be invalid", bad);
    }
}
