use bookstore::decimal::u32_to_decimal;
use bookstore::math_utils::{factorial, is_even, is_odd};
use bookstore::string_utils::is_empty_string;

#[test]
fn test_is_empty_string_on_empty() {
    assert!(is_empty_string(""));
}

#[test]
fn test_is_empty_string_on_whitespace() {
    assert!(is_empty_string("   "));
    assert!(is_empty_string("\t\n \r"));
}

#[test]
fn test_is_empty_string_on_text() {
    assert!(!is_empty_string("a"));
    assert!(!is_empty_string("  a  "));
}

#[test]
fn test_is_even() {
    assert!(is_even(0));
    assert!(is_even(2));
    assert!(is_even(-2));
    assert!(is_even(i32::MIN));
    assert!(!is_even(3));
    assert!(!is_even(-3));
    assert!(!is_even(i32::MAX));
}

#[test]
fn test_is_odd() {
    assert!(is_odd(1));
    assert!(is_odd(-1));
    assert!(is_odd(i32::MAX));
    assert!(!is_odd(0));
    assert!(!is_odd(-4));
    assert!(!is_odd(i32::MIN));
}

#[test]
fn test_factorial_values() {
    assert_eq!(factorial(0), 1);
    assert_eq!(factorial(1), 1);
    assert_eq!(factorial(5), 120);
    assert_eq!(factorial(12), 479001600);
}

#[test]
fn test_u32_to_decimal() {
    assert_eq!(u32_to_decimal(0), "0");
    assert_eq!(u32_to_decimal(7), "7");
    assert_eq!(u32_to_decimal(10), "10");
    assert_eq!(u32_to_decimal(1954), "1954");
    assert_eq!(u32_to_decimal(4294967295), "4294967295");
}
