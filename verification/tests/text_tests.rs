use udp_balancer::text::{
    ascii_string, bytes_equal, decimal, replace_all, str_equal, trim, trim_char, utf8_string,
};

#[test]
fn decimal_renders_zero() {
    assert_eq!(decimal(0), "0");
}

#[test]
fn decimal_renders_several_digits() {
    assert_eq!(decimal(1234567), "1234567");
    assert_eq!(decimal(10), "10");
    assert_eq!(decimal(u64::MAX), "18446744073709551615");
}

#[test]
fn utf8_string_accepts_valid_text() {
    assert_eq!(utf8_string("héllo".as_bytes().to_vec()), Some(String::from("héllo")));
}

#[test]
fn utf8_string_rejects_invalid_bytes() {
    assert_eq!(utf8_string(vec![0x66, 0xff, 0x66]), None);
    assert_eq!(utf8_string(vec![0xc3]), None);
}

#[test]
fn ascii_string_keeps_bytes() {
    assert_eq!(ascii_string(vec![72, 105]), "Hi");
}

#[test]
fn trim_removes_unicode_whitespace() {
    assert_eq!(trim("\t  hello world \n\u{3000}"), "hello world");
    assert_eq!(trim("   "), "");
}

#[test]
fn trim_char_removes_only_nul_ends() {
    assert_eq!(trim_char("\0\0 ab\0c \0\0", '\0'), " ab\0c ");
    assert_eq!(trim_char("\0\0\0", '\0'), "");
}

#[test]
fn replace_all_replaces_every_match() {
    assert_eq!(replace_all("127.0.0.1:5656:x", ':', "-"), "127.0.0.1-5656-x");
    assert_eq!(replace_all("none", ':', "-"), "none");
}

#[test]
fn bytes_and_str_equality() {
    assert!(bytes_equal(&[1, 2, 3], &[1, 2, 3]));
    assert!(!bytes_equal(&[1, 2, 3], &[1, 2]));
    assert!(!bytes_equal(&[1, 2, 3], &[1, 2, 4]));
    assert!(str_equal("abc", "abc"));
    assert!(!str_equal("abc", "abd"));
}

#[test]
fn trim_char_with_other_character() {
    assert_eq!(trim_char("xxabxcx", 'x'), "abxc");
    assert_eq!(trim_char("ab", 'x'), "ab");
}
