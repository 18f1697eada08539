use modsec_audit::text::{
    ends_with, is_blank, parse_u16, same_text, split_after, split_once, starts_with, trim,
    trim_end_matches, trim_start,
};

#[test]
fn blank_texts_hold_only_whitespace() {
    assert!(is_blank(""));
    assert!(is_blank(" \t\r\n"));
    assert!(is_blank("\u{a0}\u{2003}"));
    assert!(!is_blank("  x  "));
    assert!(!is_blank("--abc-A--\n"));
}

#[test]
fn whitespace_is_the_white_space_property() {
    let white = [
        '\u{9}', '\u{a}', '\u{b}', '\u{c}', '\u{d}', '\u{20}', '\u{85}', '\u{a0}', '\u{1680}',
        '\u{2000}', '\u{2001}', '\u{2002}', '\u{2003}', '\u{2004}', '\u{2005}', '\u{2006}',
        '\u{2007}', '\u{2008}', '\u{2009}', '\u{200a}', '\u{2028}', '\u{2029}', '\u{202f}',
        '\u{205f}', '\u{3000}',
    ];
    assert_eq!(white.len(), 25);
    for code in 0..=0x10ffffu32 {
        if let Some(c) = char::from_u32(code) {
            let text = c.to_string();
            assert_eq!(is_blank(&text), white.contains(&c), "on U+{:04X}", code);
        }
    }
    for c in ['\u{8}', '\u{e}', '\u{1f}', '\u{21}', '\u{84}', '\u{86}', '\u{180e}', '\u{200b}', '\u{feff}'] {
        let text = format!("{}x{}", c, c);
        assert_eq!(trim(&text), text);
    }
}

#[test]
fn trim_removes_whitespace_at_both_ends() {
    assert_eq!(trim("  example.com \r\n"), "example.com");
    assert_eq!(trim("\n Hello\tworld\t\n"), "Hello\tworld");
    assert_eq!(trim("x"), "x");
    assert_eq!(trim("   "), "");
    assert_eq!(trim(""), "");
    assert_eq!(trim("\u{a0}é \u{3000}"), "é");
}

#[test]
fn trim_start_keeps_the_end() {
    assert_eq!(trim_start("   \"key\": 1, "), "\"key\": 1, ");
    assert_eq!(trim_start("\t\t"), "");
    assert_eq!(trim_start("a b "), "a b ");
}

#[test]
fn trim_end_matches_removes_a_run() {
    assert_eq!(trim_end_matches("example.com\r\r", '\r'), "example.com");
    assert_eq!(trim_end_matches("a\rb", '\r'), "a\rb");
    assert_eq!(trim_end_matches("\r\r", '\r'), "");
    assert_eq!(trim_end_matches("true,", ','), "true");
    assert_eq!(trim_end_matches("", ','), "");
}

#[test]
fn split_once_cuts_at_the_first_delimiter() {
    assert_eq!(split_once("status:404", ':'), Some(("status", "404")));
    assert_eq!(split_once("ip:2001:db8::1", ':'), Some(("ip", "2001:db8::1")));
    assert_eq!(split_once(":x", ':'), Some(("", "x")));
    assert_eq!(split_once("x:", ':'), Some(("x", "")));
    assert_eq!(split_once("plain", ':'), None);
    assert_eq!(split_once("dé:f", ':'), Some(("dé", "f")));
}

#[test]
fn split_after_keeps_the_delimiter_with_the_head() {
    assert_eq!(split_after("Host: example.com", ':'), Some(("Host:", " example.com")));
    assert_eq!(split_after("a:b:c", ':'), Some(("a:", "b:c")));
    assert_eq!(split_after("none", ':'), None);
}

#[test]
fn prefixes_and_suffixes() {
    assert!(starts_with("GET / HTTP/1.1", "GET"));
    assert!(!starts_with("GE", "GET"));
    assert!(starts_with("anything", ""));
    assert!(!starts_with("get /", "GET"));
    assert!(ends_with("Accept:", ":"));
    assert!(!ends_with("Accept: x", ":"));
    assert!(ends_with("", ""));
    assert!(!ends_with("", ":"));
}

#[test]
fn same_text_compares_characters() {
    assert!(same_text("domain", "domain"));
    assert!(!same_text("domain", "Domain"));
    assert!(!same_text("domain", "domains"));
    assert!(same_text("", ""));
}

#[test]
fn parse_u16_reads_decimal_numbers() {
    assert_eq!(parse_u16("404"), Some(404));
    assert_eq!(parse_u16("007"), Some(7));
    assert_eq!(parse_u16("0"), Some(0));
    assert_eq!(parse_u16("+12"), Some(12));
    assert_eq!(parse_u16("65535"), Some(65535));
    assert_eq!(parse_u16("65536"), None);
    assert_eq!(parse_u16("99999999999999999999"), None);
    assert_eq!(parse_u16(""), None);
    assert_eq!(parse_u16("+"), None);
    assert_eq!(parse_u16("-1"), None);
    assert_eq!(parse_u16("12a"), None);
    assert_eq!(parse_u16(" 12"), None);
    assert_eq!(parse_u16("1+2"), None);
    assert_eq!(parse_u16("١٢٣"), None);
}

#[test]
fn parse_u16_agrees_with_the_standard_parser() {
    let samples = [
        "0", "1", "42", "200", "404", "0404", "65535", "65536", "70000", "+", "+0", "+65535",
        "++1", "-0", "", "abc", "12 ", "1_000", "٣",
    ];
    for s in samples {
        assert_eq!(parse_u16(s), s.parse::<u16>().ok(), "on {:?}", s);
    }
}
