use secret_token::codec::{bytes_to_u128, u128_to_bytes};
use secret_token::display::{can_display, to_display_token};
use secret_token::names::{is_valid_name, is_valid_symbol};
use secret_token::text::{shortfall_text, u128_to_string};
use secret_token::utils::{ConstLenStr, CONST_LEN};
use secret_token::viewing_key::{ViewingKey, API_KEY_LENGTH};

#[test]
fn names_are_counted_in_bytes() {
    assert!(!is_valid_name(""));
    assert!(!is_valid_name("ab"));
    assert!(is_valid_name("abc"));
    assert!(is_valid_name("\u{e9}a"));
    assert!(!is_valid_name("\u{e9}"));
    assert!(is_valid_name(&"x".repeat(30)));
    assert!(!is_valid_name(&"x".repeat(31)));
    assert!(!is_valid_name(&"\u{e9}".repeat(16)));
}

#[test]
fn symbols_are_three_to_six_capitals() {
    assert!(is_valid_symbol("ABC"));
    assert!(is_valid_symbol("AZAZAZ"));
    assert!(!is_valid_symbol("AB"));
    assert!(!is_valid_symbol("ABCDEFG"));
    assert!(!is_valid_symbol("ABc"));
    assert!(!is_valid_symbol("AB1"));
    assert!(!is_valid_symbol("AB@"));
    assert!(!is_valid_symbol("AB["));
    assert!(!is_valid_symbol("A\u{c4}B"));
}

#[test]
fn numerals() {
    assert_eq!(u128_to_string(0), "0");
    assert_eq!(u128_to_string(9), "9");
    assert_eq!(u128_to_string(10), "10");
    assert_eq!(u128_to_string(1234567890), "1234567890");
    assert_eq!(u128_to_string(u128::MAX), u128::MAX.to_string());
    assert_eq!(shortfall_text("x=", 3, 40), "x=3, required=40");
}

#[test]
fn amounts_are_shown_in_whole_tokens() {
    assert_eq!(to_display_token(1_000_000, "SCRT", 6), "1 SCRT");
    assert_eq!(to_display_token(1_500_000, "SCRT", 6), "1.5 SCRT");
    assert_eq!(to_display_token(1, "SCRT", 6), "0.000001 SCRT");
    assert_eq!(to_display_token(0, "SCRT", 6), "0 SCRT");
    assert_eq!(to_display_token(10, "SCRT", 0), "10 SCRT");
    assert_eq!(to_display_token(1_000_000_001, "ABC", 9), "1.000000001 ABC");
    assert_eq!(
        to_display_token(340_282_366_920_938_463_463, "ABC", 1),
        "34028236692093846346.3 ABC"
    );
}

#[test]
fn amounts_that_cannot_be_shown() {
    assert!(can_display(340_282_366_920_938_463_463, 9));
    assert!(!can_display(340_282_366_920_938_463_464, 9));
    assert!(!can_display(0, 10));
}

#[test]
fn amounts_as_bytes() {
    assert_eq!(u128_to_bytes(258), 258u128.to_be_bytes().to_vec());
    assert_eq!(u128_to_bytes(u128::MAX), vec![255u8; 16]);
    assert_eq!(bytes_to_u128(&u128_to_bytes(u128::MAX)), Some(u128::MAX));
    assert_eq!(bytes_to_u128(&u128_to_bytes(0)), Some(0));
    let some: u128 = 0x0102_0304_0506_0708_090a_0b0c_0d0e_0f10;
    assert_eq!(bytes_to_u128(&some.to_be_bytes().to_vec()), Some(some));
    assert_eq!(u128_to_bytes(some), some.to_be_bytes().to_vec());
    assert_eq!(bytes_to_u128(&vec![1, 2, 3]), None);
    assert_eq!(bytes_to_u128(&vec![0; 17]), None);
}

#[test]
fn constant_length() {
    assert_eq!(CONST_LEN, 64);
    let short = ConstLenStr("0".to_string()).render();
    assert_eq!(short.len(), 64);
    assert_eq!(short.trim_end(), "0");
    let amount = ConstLenStr(u128::MAX.to_string()).render();
    assert_eq!(amount.len(), 64);
    assert_eq!(amount.trim_end(), u128::MAX.to_string());
    let long = "y".repeat(70);
    assert_eq!(ConstLenStr(long.clone()).render(), long);
    let exact = "z".repeat(64);
    assert_eq!(ConstLenStr(exact.clone()).render(), exact);
}

#[test]
fn viewing_key_length() {
    assert!(ViewingKey("k".repeat(API_KEY_LENGTH)).is_valid());
    assert!(!ViewingKey("k".repeat(API_KEY_LENGTH - 1)).is_valid());
    assert!(!ViewingKey(String::new()).is_valid());
    assert!(ViewingKey("\u{e9}".repeat(API_KEY_LENGTH)).is_valid());
}
