use volume_control_rs::text::{
    concatenate, ends_with, is_white_space_char, parse_i32, parse_u32, starts_with, string_eq, trim,
};

const SAMPLES: &[&str] = &[
    "", " ", "+", "-", "0", "42", "+42", "-42", "0042", "4a", " 42", "42 ", "4294967295",
    "4294967296", "99999999999999", "2147483647", "2147483648", "-2147483648", "-2147483649",
    "+2147483647", "--1", "+-1", "٣", "1_000", "\t7\n",
];

#[test]
fn parse_u32_matches_std() {
    for s in SAMPLES {
        assert_eq!(parse_u32(s), s.parse::<u32>().ok(), "input {:?}", s);
    }
}

#[test]
fn parse_i32_matches_std() {
    for s in SAMPLES {
        assert_eq!(parse_i32(s), s.parse::<i32>().ok(), "input {:?}", s);
    }
}

#[test]
fn parse_u32_edge_cases() {
    assert_eq!(parse_u32("+42"), Some(42));
    assert_eq!(parse_u32("0042"), Some(42));
    assert_eq!(parse_u32("4294967295"), Some(u32::MAX));
    assert_eq!(parse_u32("4294967296"), None);
    assert_eq!(parse_u32(""), None);
    assert_eq!(parse_u32("+"), None);
    assert_eq!(parse_u32("-1"), None);
    assert_eq!(parse_u32(" 1"), None);
}

#[test]
fn parse_i32_edge_cases() {
    assert_eq!(parse_i32("-2147483648"), Some(i32::MIN));
    assert_eq!(parse_i32("2147483647"), Some(i32::MAX));
    assert_eq!(parse_i32("2147483648"), None);
    assert_eq!(parse_i32("-8"), Some(-8));
    assert_eq!(parse_i32("8"), Some(8));
    assert_eq!(parse_i32("-"), None);
}

#[test]
fn trim_matches_std() {
    let samples = [
        "", "   ", "abc", "  abc  ", "\t\nabc\r\n", "\u{3000}x\u{A0}", "a b", "\u{200B}a",
        "\u{85}z\u{2029}", "pulseaudio\n", " \u{1680}\u{2000}\u{200A}q\u{202F}\u{205F}",
    ];
    for s in samples {
        assert_eq!(trim(s), s.trim(), "input {:?}", s);
    }
}

#[test]
fn trim_is_idempotent_on_examples() {
    for s in ["  firefox\n", "\t", "a  b  ", "x"] {
        let once = trim(s);
        assert_eq!(trim(&once), once);
    }
}

#[test]
fn whitespace_matches_std() {
    for u in 0u32..0x3100 {
        if let Some(c) = char::from_u32(u) {
            assert_eq!(is_white_space_char(c), c.is_whitespace(), "char {:#x}", u);
        }
    }
}

#[test]
fn prefix_suffix_and_equality() {
    assert!(starts_with("output: Speakers", "output: "));
    assert!(!starts_with("input: Mic", "output: "));
    assert!(starts_with("abc", ""));
    assert!(!starts_with("ab", "abc"));
    assert!(ends_with("alsa.monitor", ".monitor"));
    assert!(!ends_with("monitor", ".monitor"));
    assert!(ends_with("", ""));
    assert!(string_eq("master", "master"));
    assert!(!string_eq("master", "mastery"));
    assert!(!string_eq("mic", "mac"));
    assert_eq!(concatenate("output: ", "HDMI"), "output: HDMI");
}
