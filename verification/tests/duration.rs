use zabbix::trans;

#[test]
fn proxy_test_trans() {
    assert_eq!(trans("15"), 15);
    assert_eq!(trans("15s"), 15);
    assert_eq!(trans("15S"), 15);
    assert_eq!(trans("5m"), 300);
    assert_eq!(trans("2h"), 7200);
    assert_eq!(trans("1d"), 86400);
}

#[test]
fn lib_test_trans() {
    assert_eq!(trans("15"), 15);
    assert_eq!(trans("15s"), 15);
    assert_eq!(trans("15S"), 15);
    assert_eq!(trans("5m"), 300);
    assert_eq!(trans("2h"), 7200);
    assert_eq!(trans("1d"), 86400);
}

#[test]
fn test_trans_degrades_to_zero() {
    assert_eq!(trans("garbage"), 0);
    assert_eq!(trans(""), 0);
    assert_eq!(trans("0"), 0);
    assert_eq!(trans("0s"), 0);
    assert_eq!(trans("-5"), 0);
    assert_eq!(trans("15x"), 0);
}

#[test]
fn test_trans_plain_integer_forms() {
    assert_eq!(trans("+15"), 15);
    assert_eq!(trans("4294967295"), u32::MAX);
    // too large for u32 and no unit, so both parses fail
    assert_eq!(trans("4294967296"), 0);
    assert_eq!(trans("007"), 7);
}

#[test]
fn test_trans_mixed_units() {
    assert_eq!(trans("1m 30s"), 90);
    assert_eq!(trans("2H"), 7200);
    assert_eq!(trans("500ms"), 0);
}

#[test]
fn test_trans_digit_guard() {
    // eleven digit characters still go through the human-readable parse
    // (12345678901 seconds, truncated to 32 bits)
    assert_eq!(trans("12345678901s"), 3755744309);
    // more than eleven digit characters degrade to 0 outright
    assert_eq!(trans("123456789012s"), 0);
    // a span at the seconds counter's maximum plus exactly one carried
    // second of fractions stays a plain 0, not an abort
    assert_eq!(trans("18446744073709551615s 0.9s 0.1s"), 0);
}
