use mole::text::{parse_hex_usize, parse_unsigned_of, push_decimal, text_is, text_starts_with, trim_white_space};

#[test]
fn trim_removes_unicode_white_space_at_both_ends() {
    assert_eq!(trim_white_space("  a b \t\r\n"), "a b");
    assert_eq!(trim_white_space("\u{a0}\u{3000}x\u{2028}"), "x");
    assert_eq!(trim_white_space(" \u{85} "), "");
    assert_eq!(trim_white_space("\u{200b}x"), "\u{200b}x");
}

#[test]
fn hex_parsing_follows_from_str_radix() {
    assert_eq!(parse_hex_usize("1a"), Some(26));
    assert_eq!(parse_hex_usize("+FF"), Some(255));
    assert_eq!(parse_hex_usize(""), None);
    assert_eq!(parse_hex_usize("+"), None);
    assert_eq!(parse_hex_usize("-1"), None);
    assert_eq!(parse_hex_usize("1g"), None);
    assert_eq!(parse_hex_usize("10000000000000000000000000"), None);
}

#[test]
fn unsigned_parsing_follows_str_parse() {
    assert_eq!(parse_unsigned_of("443", 0xFFFF), Some(443));
    assert_eq!(parse_unsigned_of("+007", 0xFFFF), Some(7));
    assert_eq!(parse_unsigned_of("65536", 0xFFFF), None);
    assert_eq!(parse_unsigned_of("", 0xFFFF), None);
    assert_eq!(parse_unsigned_of("1 ", 0xFFFF), None);
    assert_eq!(parse_unsigned_of("18446744073709551616", u64::MAX), None);
    assert_eq!(parse_unsigned_of("18446744073709551615", u64::MAX), Some(u64::MAX));
}

#[test]
fn decimals_and_prefixes() {
    let mut s = String::from("n=");
    push_decimal(&mut s, 0);
    push_decimal(&mut s, 1234567890);
    assert_eq!(s, "n=01234567890");
    assert!(text_is("abc", "abc"));
    assert!(!text_is("abc", "ab"));
    assert!(text_starts_with("--all", "--"));
    assert!(!text_starts_with("-", "--"));
}
