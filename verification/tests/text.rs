use yomiage_mon::event_handler::is_head_symbol;
use yomiage_mon::text::{i64_to_decimal, push_decimal, u64_to_decimal};

#[test]
fn head_symbols_are_detected() {
    for t in ["-help", "!play", "/skip", ";q", "%x", "-"] {
        assert!(is_head_symbol(t), "{}", t);
    }
}

#[test]
fn other_texts_are_not_head_symbols() {
    for t in ["", "hello", "?x", " -x", "ずんだ", "x-"] {
        assert!(!is_head_symbol(t), "{}", t);
    }
}

#[test]
fn unsigned_decimal() {
    assert_eq!(u64_to_decimal(0), "0");
    assert_eq!(u64_to_decimal(7), "7");
    assert_eq!(u64_to_decimal(42), "42");
    assert_eq!(u64_to_decimal(1000), "1000");
    assert_eq!(u64_to_decimal(u64::MAX), u64::MAX.to_string());
    assert_eq!(u64_to_decimal(123456789012345678), "123456789012345678");
}

#[test]
fn signed_decimal() {
    assert_eq!(i64_to_decimal(0), "0");
    assert_eq!(i64_to_decimal(1), "1");
    assert_eq!(i64_to_decimal(-5), "-5");
    assert_eq!(i64_to_decimal(i64::MIN), i64::MIN.to_string());
    assert_eq!(i64_to_decimal(i64::MAX), i64::MAX.to_string());
}

#[test]
fn push_decimal_appends() {
    let mut s = String::from("id=");
    push_decimal(&mut s, 305);
    assert_eq!(s, "id=305");
}
