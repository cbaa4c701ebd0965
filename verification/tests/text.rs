use deep_forge::text::{decimal_string, push_decimal, push_hex, str_eq};

#[test]
fn decimals() {
    assert_eq!(decimal_string(0), "0");
    assert_eq!(decimal_string(9), "9");
    assert_eq!(decimal_string(10), "10");
    assert_eq!(decimal_string(1234), "1234");
    assert_eq!(decimal_string(u64::MAX), u64::MAX.to_string());
    let mut s = String::from("n=");
    push_decimal(&mut s, 42);
    assert_eq!(s, "n=42");
}

#[test]
fn hex() {
    let mut s = String::new();
    push_hex(&mut s, 0xbeef, 6);
    assert_eq!(s, "00beef");
    let mut s = String::new();
    push_hex(&mut s, 0xabcdef, 2);
    assert_eq!(s, "ef");
}

#[test]
fn string_equality() {
    assert!(str_eq("héllo", "héllo"));
    assert!(!str_eq("hello", "hell"));
    assert!(!str_eq("a", "b"));
    assert!(str_eq("", ""));
}
