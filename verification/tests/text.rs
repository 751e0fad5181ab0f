use bili2mp4::text::{
    chars_of, contains, ends_with, first_chars, is_whitespace, matches_at, parse_u64, push_chars,
    push_decimal, push_text, same_chars, same_text, starts_with, string_of, text_plus, trim,
};

fn chars(s: &str) -> Vec<char> {
    s.chars().collect()
}

fn decimal(n: u128) -> String {
    let mut out = Vec::new();
    push_decimal(&mut out, n);
    string_of(&out)
}

#[test]
fn characters_go_there_and_back() {
    assert_eq!(chars_of("a测😀"), vec!['a', '测', '😀']);
    assert_eq!(string_of(&vec!['a', '测', '😀']), "a测😀");
    assert_eq!(string_of(&Vec::new()), "");
    assert_eq!(chars_of(""), Vec::<char>::new());
}

#[test]
fn decimal_writes_numbers() {
    assert_eq!(decimal(0), "0");
    assert_eq!(decimal(7), "7");
    assert_eq!(decimal(10), "10");
    assert_eq!(decimal(1080), "1080");
    assert_eq!(decimal(u64::MAX as u128), "18446744073709551615");
    assert_eq!(decimal(u128::MAX), "340282366920938463463374607431768211455");
    let mut out = chars("n=");
    push_decimal(&mut out, 42);
    assert_eq!(string_of(&out), "n=42");
}

#[test]
fn parse_reads_unsigned_numbers() {
    assert_eq!(parse_u64(&chars("0")), Some(0));
    assert_eq!(parse_u64(&chars("007")), Some(7));
    assert_eq!(parse_u64(&chars("+15")), Some(15));
    assert_eq!(parse_u64(&chars("30280")), Some(30280));
    assert_eq!(parse_u64(&chars("18446744073709551615")), Some(u64::MAX));
    assert_eq!(parse_u64(&chars("18446744073709551616")), None);
    assert_eq!(parse_u64(&chars("99999999999999999999999999999999999999999999")), None);
    assert_eq!(parse_u64(&chars("")), None);
    assert_eq!(parse_u64(&chars("+")), None);
    assert_eq!(parse_u64(&chars("-1")), None);
    assert_eq!(parse_u64(&chars("++1")), None);
    assert_eq!(parse_u64(&chars("1+")), None);
    assert_eq!(parse_u64(&chars(" 1")), None);
    assert_eq!(parse_u64(&chars("1 ")), None);
    assert_eq!(parse_u64(&chars("12a")), None);
    assert_eq!(parse_u64(&chars("١٢")), None);
}

#[test]
fn parse_agrees_with_the_standard_library() {
    let samples = [
        "0", "1", "+1", "-1", "", "+", "00", "+00", "18446744073709551615",
        "18446744073709551616", "1_000", "0x10", "1e3", " 5", "５",
    ];
    for s in samples {
        assert_eq!(parse_u64(&chars(s)), s.parse::<u64>().ok(), "{:?}", s);
    }
}

#[test]
fn written_numbers_read_back() {
    for n in [0u64, 1, 9, 10, 99, 100, 12345, u32::MAX as u64, u64::MAX] {
        assert_eq!(parse_u64(&chars(&decimal(n as u128))), Some(n));
    }
}

#[test]
fn searching_finds_what_is_there() {
    let hay = chars("s_1080p_flv");
    assert!(contains(&hay, &chars("1080")));
    assert!(contains(&hay, &chars("s_")));
    assert!(contains(&hay, &chars("flv")));
    assert!(contains(&hay, &chars("")));
    assert!(!contains(&hay, &chars("720")));
    assert!(!contains(&hay, &chars("s_1080p_flv_")));
    assert!(contains(&chars(""), &chars("")));
    assert!(!contains(&chars(""), &chars("a")));
    assert!(contains(&chars("aab"), &chars("ab")));

    assert!(matches_at(&chars("10"), &hay, 2));
    assert!(!matches_at(&chars("10"), &hay, 3));
    assert!(!matches_at(&chars("flv"), &hay, 9));
    assert!(matches_at(&chars(""), &hay, 11));
    assert!(!matches_at(&chars(""), &hay, 12));
}

#[test]
fn beginnings_and_endings() {
    let name = chars("123-1-30280.m4s");
    assert!(starts_with(&name, &chars("123-1-")));
    assert!(!starts_with(&name, &chars("23-1-")));
    assert!(starts_with(&name, &chars("")));
    assert!(!starts_with(&chars("12"), &chars("123")));
    assert!(ends_with(&name, &chars(".m4s")));
    assert!(!ends_with(&name, &chars(".m4")));
    assert!(ends_with(&name, &chars("")));
    assert!(!ends_with(&chars("4s"), &chars(".m4s")));
}

#[test]
fn the_same_text_is_the_same() {
    assert!(same_text("skip", "skip"));
    assert!(!same_text("skip", "Skip"));
    assert!(!same_text("skip", "skip "));
    assert!(same_text("", ""));
    assert!(same_chars(&chars("测试"), &chars("测试")));
    assert!(!same_chars(&chars("测试"), &chars("测")));
}

#[test]
fn white_space_is_what_the_standard_library_says() {
    for code in 0u32..0x11_0000 {
        if let Some(c) = char::from_u32(code) {
            assert_eq!(is_whitespace(c), c.is_whitespace(), "U+{:04X}", code);
        }
    }
}

#[test]
fn trimming_drops_both_ends() {
    assert_eq!(trim(&chars("  a b  ")), chars("a b"));
    assert_eq!(trim(&chars("a")), chars("a"));
    assert_eq!(trim(&chars("   ")), chars(""));
    assert_eq!(trim(&chars("")), chars(""));
    assert_eq!(trim(&chars("\r\n/usr/bin/x\n")), chars("/usr/bin/x"));
    for s in ["  a b  ", "\u{3000}x\u{a0}", "x", "", " ", "\t\tx y\t"] {
        assert_eq!(string_of(&trim(&chars(s))), s.trim());
    }
}

#[test]
fn appending_and_cutting() {
    let mut v = chars("ab");
    push_chars(&mut v, &chars("cd"));
    push_text(&mut v, "ef");
    assert_eq!(string_of(&v), "abcdef");
    assert_eq!(text_plus("视频", "#video"), "视频#video");
    assert_eq!(first_chars(&chars("abcdef"), 3), chars("abc"));
    assert_eq!(first_chars(&chars("abc"), 3), chars("abc"));
    assert_eq!(first_chars(&chars("ab"), 3), chars("ab"));
    assert_eq!(first_chars(&chars("ab"), 0), chars(""));
}
