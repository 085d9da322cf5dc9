use load_balancer::text::{
    chars_of, decimal_text, find_from, parse_u32, split_at_each, starts_with, str_eq, str_le,
    trim_start,
};

#[test]
fn str_le_is_the_order_of_strings() {
    let words = ["", "a", "https://a/", "https://a", "https://b/", "b", "ab", "\u{e9}", "z", "A"];
    for x in words {
        for y in words {
            assert_eq!(str_le(x, y), x <= y, "{:?} {:?}", x, y);
        }
    }
}

#[test]
fn str_eq_is_equality() {
    assert!(str_eq("", ""));
    assert!(str_eq("GET", "GET"));
    assert!(!str_eq("GET", "get"));
    assert!(!str_eq("GET", "GETS"));
    assert!(!str_eq("e", "\u{e9}"));
}

#[test]
fn chars_of_lists_the_characters() {
    assert_eq!(chars_of(""), Vec::<char>::new());
    assert_eq!(chars_of("a\u{e9}$"), vec!['a', '\u{e9}', '$']);
}

#[test]
fn starts_with_looks_at_the_start() {
    assert!(starts_with("/status", "/status"));
    assert!(starts_with("/status/x?y", "/status"));
    assert!(starts_with("anything", ""));
    assert!(!starts_with("/stat", "/status"));
    assert!(!starts_with("x/status", "/status"));
}

#[test]
fn trim_start_strips_every_leading_slash() {
    assert_eq!(trim_start("/foo", '/'), "foo");
    assert_eq!(trim_start("///foo/bar", '/'), "foo/bar");
    assert_eq!(trim_start("foo/", '/'), "foo/");
    assert_eq!(trim_start("//", '/'), "");
    assert_eq!(trim_start("", '/'), "");
    assert_eq!(trim_start("/\u{e9}/", '/'), "\u{e9}/");
}

#[test]
fn find_from_finds_the_first_at_or_after() {
    let text = chars_of("a$b$c");
    assert_eq!(find_from(&text, 0, '$'), 1);
    assert_eq!(find_from(&text, 1, '$'), 1);
    assert_eq!(find_from(&text, 2, '$'), 3);
    assert_eq!(find_from(&text, 4, '$'), 5);
    assert_eq!(find_from(&text, 5, '$'), 5);
}

#[test]
fn split_cuts_at_every_separator() {
    assert_eq!(split_at_each("a,b,c", ','), vec!["a", "b", "c"]);
    assert_eq!(split_at_each("a", ','), vec!["a"]);
    assert_eq!(split_at_each("", ','), vec![""]);
    assert_eq!(split_at_each("a,", ','), vec!["a", ""]);
    assert_eq!(split_at_each(",a,,b", ','), vec!["", "a", "", "b"]);
    assert_eq!(split_at_each("\u{e9},\u{e8}", ','), vec!["\u{e9}", "\u{e8}"]);
}

#[test]
fn split_agrees_with_the_standard_split() {
    for text in ["", ",", ",,", "a,b", "https://a/$1,https://b/$1", "x,,y,"] {
        let expected: Vec<String> = text.split(',').map(String::from).collect();
        assert_eq!(split_at_each(text, ','), expected, "{:?}", text);
    }
}

#[test]
fn parse_u32_reads_decimal_numbers() {
    assert_eq!(parse_u32("0"), Some(0));
    assert_eq!(parse_u32("7"), Some(7));
    assert_eq!(parse_u32("+7"), Some(7));
    assert_eq!(parse_u32("0042"), Some(42));
    assert_eq!(parse_u32("4294967295"), Some(u32::MAX));
    assert_eq!(parse_u32("00004294967295"), Some(u32::MAX));
}

#[test]
fn parse_u32_refuses_what_is_no_number() {
    for text in ["", "+", "-", "-1", "++1", "1+", "1 ", " 1", "1_000", "0x10", "1.0", "\u{661}"] {
        assert_eq!(parse_u32(text), None, "{:?}", text);
    }
}

#[test]
fn parse_u32_refuses_what_does_not_fit() {
    assert_eq!(parse_u32("4294967296"), None);
    assert_eq!(parse_u32("99999999999999999999999999999999999999"), None);
    assert_eq!(parse_u32("18446744073709551616"), None);
}

#[test]
fn parse_u32_agrees_with_the_standard_parse() {
    for text in ["", "+", "0", "+0", "12", "4294967295", "4294967296", "a", "1a", "-0", "+-1"] {
        assert_eq!(parse_u32(text), text.parse::<u32>().ok(), "{:?}", text);
    }
}

#[test]
fn decimal_text_writes_decimal_numbers() {
    assert_eq!(decimal_text(0), "0");
    assert_eq!(decimal_text(9), "9");
    assert_eq!(decimal_text(10), "10");
    assert_eq!(decimal_text(1203), "1203");
    assert_eq!(decimal_text(u32::MAX), "4294967295");
}

#[test]
fn decimal_text_reads_back() {
    for n in [0u32, 1, 9, 10, 99, 100, 65535, 65536, u32::MAX - 1, u32::MAX] {
        assert_eq!(parse_u32(&decimal_text(n)), Some(n));
        assert_eq!(decimal_text(n), n.to_string());
    }
}
