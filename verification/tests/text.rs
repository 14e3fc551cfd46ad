use sculkr::text::{
    ends_with, i32_to_string, is_blank, pad_right, str_eq, str_lt, u128_to_string,
};

#[test]
fn decimal_rendering() {
    assert_eq!(u128_to_string(0), "0");
    assert_eq!(u128_to_string(7), "7");
    assert_eq!(u128_to_string(10), "10");
    assert_eq!(u128_to_string(4_294_967_295), "4294967295");
    assert_eq!(u128_to_string(u128::MAX), u128::MAX.to_string());
    assert_eq!(i32_to_string(238222), "238222");
    assert_eq!(i32_to_string(-5), "-5");
    assert_eq!(i32_to_string(i32::MIN), "-2147483648");
    assert_eq!(i32_to_string(0), "0");
}

#[test]
fn blank_strings() {
    assert!(is_blank(""));
    assert!(is_blank(" \t\r\n\u{3000}"));
    assert!(!is_blank(" a "));
}

#[test]
fn suffixes_and_padding() {
    assert!(ends_with("sodium.pw.toml", ".pw.toml"));
    assert!(!ends_with("sodium.toml", ".pw.toml"));
    assert!(!ends_with(".toml", ".pw.toml"));
    assert!(ends_with("x", ""));
    assert_eq!(pad_right("Mods:", 12), "Mods:       ");
    assert_eq!(pad_right("Description:", 12), "Description:");
    assert_eq!(pad_right("Longer than twelve", 12), "Longer than twelve");
}

#[test]
fn string_order_by_code_point() {
    assert!(str_lt("a", "b"));
    assert!(str_lt("ab", "abc"));
    assert!(!str_lt("abc", "ab"));
    assert!(!str_lt("a", "a"));
    assert!(str_lt("", "a"));
    assert!(str_lt("Z", "a"));
    assert!(str_eq("äb", "äb"));
    assert!(!str_eq("äb", "ab"));
}

#[test]
fn unicode_spaces_count_as_blank() {
    assert!(is_blank("\u{2003}\u{3000}\t\u{85}"));
    assert!(!is_blank("\u{200B}"));
}
