use btc_utils::{apply_fee, parse_satoshis, Outpoint, TestWallet, Wallet};

#[test]
fn parses_plain_decimal() {
    assert_eq!(parse_satoshis("100"), Ok(100));
    assert_eq!(parse_satoshis("0"), Ok(0));
    assert_eq!(parse_satoshis("007"), Ok(7));
    assert_eq!(parse_satoshis("18446744073709551615"), Ok(u64::MAX));
}

#[test]
fn rejects_non_canonical_amounts() {
    for bad in ["-1", "+1", "abc", "", " 1", "1 ", "1.5", "12a"] {
        assert_eq!(parse_satoshis(bad), Err("Invalid satoshi amount".to_string()));
    }
}

#[test]
fn rejects_overflow() {
    assert!(parse_satoshis("18446744073709551616").is_err());
    assert!(parse_satoshis("99999999999999999999999").is_err());
}

#[test]
fn fee_is_subtracted() {
    let mut balance: u64 = 100;
    apply_fee(&mut balance, 30);
    assert_eq!(balance, 70);
}

#[test]
fn fee_saturates_at_zero() {
    let mut balance: u64 = 10;
    apply_fee(&mut balance, 50);
    assert_eq!(balance, 0);
    let mut exact: u64 = 50;
    apply_fee(&mut exact, 50);
    assert_eq!(exact, 0);
}

#[test]
fn wallet_balance_is_confirmed_amount() {
    let w = TestWallet { confirmed: 1234 };
    assert_eq!(w.balance(), 1234);
    let o = Outpoint("ab".to_string(), 1);
    assert_eq!(o.1, 1);
    assert_eq!(o.0, "ab");
}
