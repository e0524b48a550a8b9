use khost::text::{
    be_u64, clip_line, contains_str, has_match_at, join_with, pad_left, parse_u64, remove_all,
    repeat_str, split_char, split_whitespace, str_eq, trim_str, u16_to_dec, u64_to_dec,
    u64_to_hex16, u64_to_hex4, u64_to_hex_width,
};

#[test]
fn decimal_rendering() {
    assert_eq!(u64_to_dec(0), "0");
    assert_eq!(u64_to_dec(7), "7");
    assert_eq!(u64_to_dec(10), "10");
    assert_eq!(u64_to_dec(1234567890), "1234567890");
    assert_eq!(u64_to_dec(u64::MAX), "18446744073709551615");
    assert_eq!(u16_to_dec(8989), "8989");
}

#[test]
fn hexadecimal_rendering() {
    assert_eq!(u64_to_hex16(0), "0000000000000000");
    assert_eq!(u64_to_hex16(0xdeadbeef), "00000000deadbeef");
    assert_eq!(u64_to_hex16(u64::MAX), "ffffffffffffffff");
    assert_eq!(u64_to_hex4(0xe311), "e311");
    assert_eq!(u64_to_hex_width(0xabc, 3), "abc");
    assert_eq!(u64_to_hex_width(5, 0), "");
}

#[test]
fn decimal_parsing() {
    assert_eq!(parse_u64("0"), Some(0));
    assert_eq!(parse_u64("42"), Some(42));
    assert_eq!(parse_u64("007"), Some(7));
    assert_eq!(parse_u64("18446744073709551615"), Some(u64::MAX));
    assert_eq!(parse_u64("18446744073709551616"), None);
    assert_eq!(parse_u64(""), None);
    assert_eq!(parse_u64("12a"), None);
    assert_eq!(parse_u64("-3"), None);
}

#[test]
fn trimming() {
    assert_eq!(trim_str("  active\n"), "active");
    assert_eq!(trim_str("active"), "active");
    assert_eq!(trim_str(" \t\r\n "), "");
    assert_eq!(trim_str(""), "");
    assert_eq!(trim_str("a b"), "a b");
}

#[test]
fn splitting_and_joining() {
    let parts = split_char("a/b//c", '/');
    assert_eq!(parts, vec!["a", "b", "", "c"]);
    assert_eq!(split_char("", '/'), vec![""]);
    assert_eq!(split_char("abc", '/'), vec!["abc"]);
    let joined = join_with(&vec!["x".to_string(), "y".to_string(), "z".to_string()], ", ");
    assert_eq!(joined, "x, y, z");
    assert_eq!(join_with(&Vec::new(), ", "), "");
    assert_eq!(join_with(&vec!["solo".to_string()], ", "), "solo");
}

#[test]
fn whitespace_tokens() {
    assert_eq!(split_whitespace("  a  bb\tc \n"), vec!["a", "bb", "c"]);
    assert_eq!(split_whitespace(""), Vec::<String>::new());
    assert_eq!(split_whitespace("one"), vec!["one"]);
}

#[test]
fn searching() {
    assert!(contains_str("/home/user/.cargo/bin/khost", ".cargo"));
    assert!(!contains_str("/usr/local/bin/khost", ".cargo"));
    assert!(contains_str("abc", ""));
    assert!(str_eq("same", "same"));
    assert!(!str_eq("same", "sane"));
    assert!(has_match_at("abcdef", "cde", 2));
    assert!(!has_match_at("abcdef", "cde", 1));
}

#[test]
fn pattern_removal() {
    assert_eq!(remove_all("https://host/repo.git", ".git"), "https://host/repo");
    assert_eq!(remove_all("x.gity.git", ".git"), "xy");
    assert_eq!(remove_all("nothing here", ".git"), "nothing here");
    assert_eq!(remove_all("", ".git"), "");
}

#[test]
fn padding_and_repetition() {
    assert_eq!(pad_left("ab", 5), "   ab");
    assert_eq!(pad_left("abcdef", 3), "abcdef");
    assert_eq!(repeat_str("ab", 3), "ababab");
    assert_eq!(repeat_str("x", 0), "");
}

#[test]
fn line_clipping() {
    assert_eq!(clip_line("short", 10), "short");
    assert_eq!(clip_line("exactly10!", 10), "exactly10!");
    assert_eq!(clip_line("a very long line indeed", 10), "a very ...");
}

#[test]
fn big_endian_value() {
    assert_eq!(be_u64(&vec![0, 0, 0, 0, 0, 0, 0, 1]), Some(1));
    assert_eq!(be_u64(&vec![1, 0, 0, 0, 0, 0, 0, 0]), Some(1 << 56));
    assert_eq!(be_u64(&vec![0xff; 9]), Some(u64::MAX));
    assert_eq!(be_u64(&vec![1, 2, 3]), None);
}
