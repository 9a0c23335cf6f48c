use rust_url_shortener::dec::{i64_to_chars, parse_i64_chars, u64_to_chars};
use rust_url_shortener::outside::RedisStore;

fn s(v: Vec<char>) -> String {
    v.into_iter().collect()
}

#[test]
fn test_decimal_printing() {
    assert_eq!(s(u64_to_chars(0)), "0");
    assert_eq!(s(u64_to_chars(42)), "42");
    assert_eq!(s(u64_to_chars(18446744073709551615)), "18446744073709551615");
    assert_eq!(s(i64_to_chars(-1)), "-1");
    assert_eq!(s(i64_to_chars(-9223372036854775808)), "-9223372036854775808");
    assert_eq!(s(i64_to_chars(9223372036854775807)), "9223372036854775807");
}

fn parse(text: &str) -> Option<i64> {
    let chars: Vec<char> = text.chars().collect();
    parse_i64_chars(&chars)
}

#[test]
fn test_decimal_parsing() {
    assert_eq!(parse("0"), Some(0));
    assert_eq!(parse("007"), Some(7));
    assert_eq!(parse("+12"), Some(12));
    assert_eq!(parse("-12"), Some(-12));
    assert_eq!(parse("9223372036854775807"), Some(9223372036854775807));
    assert_eq!(parse("-9223372036854775808"), Some(-9223372036854775808));
    assert_eq!(parse("9223372036854775808"), None);
    assert_eq!(parse("-9223372036854775809"), None);
    assert_eq!(parse(""), None);
    assert_eq!(parse("-"), None);
    assert_eq!(parse("+"), None);
    assert_eq!(parse("1 2"), None);
    assert_eq!(parse("12a"), None);
    assert_eq!(parse("99999999999999999999999999"), None);
}

#[test]
fn test_decimal_round_trip() {
    for x in [0i64, 1, -1, 604800, -604800, i64::MAX, i64::MIN] {
        let printed = s(i64_to_chars(x));
        assert_eq!(parse(&printed), Some(x));
    }
}

#[test]
fn test_redis_store_unreachable() {
    // no server listens there: constructing the store reports the failure
    match RedisStore::new("redis://127.0.0.1:1/") {
        Ok(_) => panic!("expected a connection failure"),
        Err(e) => assert!(!e.msg.is_empty()),
    }
}
