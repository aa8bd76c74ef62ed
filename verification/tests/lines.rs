use cred::backend_engram::EngramBackend;
use cred::line::{
    format_line, is_cred_line, line_version, parse_line, split_untagged, tag, LineVersion,
};
use cred::text::{
    chars_of, concat3, decimal_text, join, not_after, split_once, starts_with, strip_prefix,
    text_eq, trim, unbroken,
};

#[test]
fn tags_of_the_versions() {
    assert_eq!(tag(LineVersion::V1), "[CRED] ");
    assert_eq!(tag(LineVersion::V2), "[CRED:v2] ");
    assert_eq!(tag(LineVersion::V3), "[CRED:v3] ");
}

#[test]
fn lines_are_written_in_the_current_version() {
    assert_eq!(format_line("github", "token", "00ff"), "[CRED:v3] github/token = 00ff");
    assert_eq!(format_line("", "", ""), "[CRED:v3] / = ");
}

#[test]
fn written_lines_are_read_back() {
    for (service, key, body) in [
        ("github", "token", "00ff"),
        ("a b", "c/d", "x = y"),
        ("", "", ""),
        ("naïve", "clé", "déjà"),
        ("s=1", "k=2", " = "),
    ] {
        let line = format_line(service, key, body);
        assert_eq!(parse_line(LineVersion::V3, &line), Some((service, key, body)));
        assert_eq!(EngramBackend::parse_v3_line(&line), Some((service, key, body)));
    }
}

#[test]
fn a_path_that_is_not_plain_is_read_otherwise() {
    let slash = format_line("a/b", "c", "00");
    assert_eq!(parse_line(LineVersion::V3, &slash), Some(("a", "b/c", "00")));
    let equals = format_line("a", "b = c", "00");
    assert_eq!(parse_line(LineVersion::V3, &equals), Some(("a", "b", "c = 00")));
    let lost = format_line("a = b", "c", "00");
    assert_eq!(parse_line(LineVersion::V3, &lost), None);
    let overlap = format_line("a", "b =", "00");
    assert_eq!(parse_line(LineVersion::V3, &overlap), Some(("a", "b", "= 00")));
}

#[test]
fn lines_without_their_marks_are_not_read() {
    assert_eq!(parse_line(LineVersion::V3, "[CRED:v3] noslash = 00"), None);
    assert_eq!(parse_line(LineVersion::V3, "[CRED:v3] a/b=00"), None);
    assert_eq!(parse_line(LineVersion::V3, "[CRED:v3]a/b = 00"), None);
    assert_eq!(parse_line(LineVersion::V3, " [CRED:v3] a/b = 00"), None);
    assert_eq!(parse_line(LineVersion::V3, "[CRED:v2] a/b = 00"), None);
    assert_eq!(parse_line(LineVersion::V3, ""), None);
    assert_eq!(EngramBackend::parse_v3_line("[CRED] a/b = 00"), None);
}

#[test]
fn what_was_read_writes_the_same_line() {
    let line = "[CRED:v3] svc/with/slash = 0a = 0b";
    let (service, key, body) = parse_line(LineVersion::V3, line).unwrap();
    assert_eq!((service, key, body), ("svc", "with/slash", "0a = 0b"));
    assert_eq!(format_line(service, key, body), line);
}

#[test]
fn older_lines_rewritten_read_the_same() {
    let old = "[CRED:v2] svc/key = abcd";
    let parts = parse_line(LineVersion::V2, old).unwrap();
    let new = format_line(parts.0, parts.1, parts.2);
    assert_eq!(new, "[CRED:v3] svc/key = abcd");
    assert_eq!(parse_line(LineVersion::V3, &new), Some(parts));
}

#[test]
fn versions_are_told_by_their_tags() {
    assert_eq!(line_version("[CRED] a/b = c"), Some(LineVersion::V1));
    assert_eq!(line_version("[CRED:v2] a/b = c"), Some(LineVersion::V2));
    assert_eq!(line_version("[CRED:v3] a/b = c"), Some(LineVersion::V3));
    assert_eq!(line_version("[CRED:v3] "), Some(LineVersion::V3));
    assert_eq!(line_version("[CRED:v4] a/b = c"), None);
    assert_eq!(line_version("[CRED]"), None);
    assert!(is_cred_line("[CRED:v4] a/b = c"));
    assert!(is_cred_line("[CREDIT"));
    assert!(!is_cred_line("[CRE"));
    assert!(!is_cred_line("x[CRED] "));
}

#[test]
fn any_line_says_whether_it_is_an_older_one() {
    let parts = |legacy: bool| {
        Some(("s".to_string(), "k".to_string(), "body".to_string(), legacy))
    };
    assert_eq!(EngramBackend::parse_any_cred_line("[CRED:v3] s/k = body"), parts(false));
    assert_eq!(EngramBackend::parse_any_cred_line("[CRED:v2] s/k = body"), parts(true));
    assert_eq!(EngramBackend::parse_any_cred_line("[CRED] s/k = body"), parts(true));
    assert_eq!(EngramBackend::parse_any_cred_line("[CRED:v3] sk = body"), None);
    assert_eq!(EngramBackend::parse_any_cred_line("s/k = body"), None);
}

#[test]
fn untagged_parts_end_at_the_first_marks() {
    assert_eq!(split_untagged("a/b = c"), Some(("a", "b", "c")));
    assert_eq!(split_untagged("a/b/c = d = e"), Some(("a", "b/c", "d = e")));
    assert_eq!(split_untagged("ab = c/d"), None);
    assert_eq!(split_untagged("/ = "), Some(("", "", "")));
}

#[test]
fn texts_are_split_and_stripped() {
    assert_eq!(split_once("a--b--c", "--"), Some(("a", "b--c")));
    assert_eq!(split_once("---", "--"), Some(("", "-")));
    assert_eq!(split_once("abc", "--"), None);
    assert_eq!(split_once("", "--"), None);
    assert_eq!(split_once("abc", ""), Some(("", "abc")));
    assert_eq!(strip_prefix("prefix rest", "prefix "), Some("rest"));
    assert_eq!(strip_prefix("pre", "prefix"), None);
    assert_eq!(strip_prefix("éa", "é"), Some("a"));
    assert!(starts_with("abc", ""));
    assert!(!starts_with("abc", "abd"));
}

#[test]
fn white_space_is_trimmed_at_both_ends() {
    assert_eq!(trim("  a b \n"), "a b");
    assert_eq!(trim("\t\r\n "), "");
    assert_eq!(trim(""), "");
    assert_eq!(trim("\u{a0}\u{2003}x\u{3000}"), "x");
    for c in 0..0x3100u32 {
        if let Some(c) = char::from_u32(c) {
            let s = format!("{}x{}", c, c);
            assert_eq!(trim(&s), s.trim());
        }
    }
}

#[test]
fn numbers_in_decimal() {
    assert_eq!(decimal_text(0), "0");
    assert_eq!(decimal_text(9), "9");
    assert_eq!(decimal_text(10), "10");
    assert_eq!(decimal_text(18446744073709551615), "18446744073709551615");
    for n in [1u64, 5, 99, 100, 101, 65535, 4294967296, 1234567890123456789] {
        assert_eq!(decimal_text(n), n.to_string());
    }
}

#[test]
fn lists_are_joined() {
    let list = |items: &[&str]| -> Vec<String> { items.iter().map(|s| s.to_string()).collect() };
    assert_eq!(join(&list(&[]), ", "), "");
    assert_eq!(join(&list(&["a"]), ", "), "a");
    assert_eq!(join(&list(&["a", "", "c"]), ", "), "a, , c");
    assert_eq!(concat3("a", "b", "c"), "abc");
}

#[test]
fn texts_are_ordered_by_code_point() {
    let words = ["", "A", "a", "aa", "ab", "b", "z", "é", "\u{ffff}", "\u{10000}"];
    for a in words {
        for b in words {
            assert_eq!(not_after(a, b), a <= b);
            assert_eq!(text_eq(a, b), a == b);
        }
        assert_eq!(chars_of(a), a.chars().collect::<Vec<char>>());
    }
}

#[test]
fn line_breaks_become_spaces() {
    for s in ["", "a", "\n", "a\nb", "\r\n", "é\nü\r", "a\u{2028}b\n\nc"] {
        assert_eq!(unbroken(s), s.replace(['\n', '\r'], " "));
    }
}
