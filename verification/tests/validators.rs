use port_finance_staking::validators::{is_i64, is_u64};

#[test]
fn is_u64_accepts_what_the_standard_parser_accepts() {
    let cases = [
        "0", "1", "+1", "0000", "18446744073709551615", "18446744073709551616",
        "+18446744073709551615", "-1", "-0", "", "+", "-", "12a", " 1", "1 ", "1.0", "１２",
        "++1", "999999999999999999999999999999", "00000000000000000000000000001",
    ];
    for s in cases.iter() {
        assert_eq!(is_u64(s).is_ok(), s.parse::<u64>().is_ok(), "{}", s);
    }
}

#[test]
fn is_i64_accepts_what_the_standard_parser_accepts() {
    let cases = [
        "0", "1", "+1", "-1", "-0", "9223372036854775807", "9223372036854775808",
        "-9223372036854775808", "-9223372036854775809", "+9223372036854775807", "", "+", "-",
        "--1", "+-1", "12a", " 1", "1 ", "1.5", "-0000000000000000000000009",
        "99999999999999999999999",
    ];
    for s in cases.iter() {
        assert_eq!(is_i64(s).is_ok(), s.parse::<i64>().is_ok(), "{}", s);
    }
}

#[test]
fn validators_say_what_was_given() {
    assert_eq!(
        is_i64("abc"),
        Err("Unable to parse input amount as integer or float, provided: abc".to_string())
    );
    assert_eq!(
        is_u64("-5"),
        Err("Unable to parse input amount as u64 integer, provided: -5".to_string())
    );
    assert_eq!(is_u64("5"), Ok(()));
    assert_eq!(is_i64("-5"), Ok(()));
}
