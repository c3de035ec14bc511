use kv_node::command::Operation;
use kv_node::input::{parse_put_input, parse_u64};

#[test]
fn parse_u64_reads_decimal() {
    assert_eq!(parse_u64("0"), Some(0));
    assert_eq!(parse_u64("10"), Some(10));
    assert_eq!(parse_u64("+42"), Some(42));
    assert_eq!(parse_u64("007"), Some(7));
    assert_eq!(parse_u64("18446744073709551615"), Some(u64::MAX));
}

#[test]
fn parse_u64_rejects_what_is_not_a_u64() {
    assert_eq!(parse_u64(""), None);
    assert_eq!(parse_u64("+"), None);
    assert_eq!(parse_u64("-1"), None);
    assert_eq!(parse_u64("1a"), None);
    assert_eq!(parse_u64(" 1"), None);
    assert_eq!(parse_u64("18446744073709551616"), None);
    assert_eq!(parse_u64("99999999999999999999x"), None);
}

#[test]
fn put_input_gives_key_and_value() {
    let c = parse_put_input("A 10").unwrap();
    assert_eq!(c.operation, Operation::Put);
    assert_eq!(c.key, "A");
    assert_eq!(c.value, 10);
    let c = parse_put_input("key 3 extra words").unwrap();
    assert_eq!(c.key, "key");
    assert_eq!(c.value, 3);
}

#[test]
fn put_input_needs_a_number_after_a_space() {
    assert!(parse_put_input("A").is_none());
    assert!(parse_put_input("A x").is_none());
    assert!(parse_put_input("A  10").is_none());
    assert!(parse_put_input("").is_none());
}
