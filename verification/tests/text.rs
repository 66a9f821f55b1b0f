use translator::text::{
    chars_of, joined, contains, decimal_text, is_whitespace, lines, matches_at, replace, same,
    starts_with, strip_prefix, trim, trim_trailing,
};

#[test]
fn whitespace_is_that_of_unicode() {
    for u in 0..=0x10ffffu32 {
        if let Some(c) = char::from_u32(u) {
            assert_eq!(is_whitespace(c), c.is_whitespace(), "U+{:04X}", u);
        }
    }
}

#[test]
fn trim_takes_whitespace_off_both_ends() {
    for s in ["", " ", "\u{3000}\u{3000}", " a b\t", "\r\nx", "y\u{a0}", "无空格", "\u{200b}z", "a"] {
        assert_eq!(trim(s), s.trim());
    }
    assert_eq!(trim("  a b \n"), "a b");
    assert_eq!(trim(&trim("\t x \t")), trim("\t x \t"));
}

#[test]
fn trailing_run_is_taken_off() {
    for s in ["", "/", "///", "http://x/v1", "http://x/v1///", "/a/"] {
        assert_eq!(trim_trailing(s, '/'), s.trim_end_matches('/'));
    }
}

#[test]
fn lines_end_in_line_feeds() {
    for s in [
        "", "\n", "a", "a\n", "a\r\n", "a\r", "a\n\nb", "\r\n\r\n", "a\rb\nc", "a\r\r\nb", "\n\r",
    ] {
        assert_eq!(lines(s), s.lines().collect::<Vec<&str>>(), "{:?}", s);
    }
    assert_eq!(lines("a\r\nb\nc"), ["a", "b", "c"]);
}

#[test]
fn lines_of_a_text_cut_after_a_line_feed() {
    let mut both = lines("a\r\nb\n");
    both.extend(lines("\nc"));
    assert_eq!(lines("a\r\nb\n\nc"), both);
}

#[test]
fn prefixes() {
    assert!(starts_with("data: x", "data: "));
    assert!(starts_with("x", ""));
    assert!(!starts_with("dat", "data"));
    assert!(!starts_with("", "d"));
    assert_eq!(strip_prefix("data: {}", "data: ").as_deref(), Some("{}"));
    assert_eq!(strip_prefix("data: ", "data: ").as_deref(), Some(""));
    assert_eq!(strip_prefix("data:{}", "data: "), None);
    assert_eq!(strip_prefix("错误: 一", "错误").as_deref(), Some(": 一"));
    let v = chars_of("abab");
    assert!(matches_at(&v, 2, &chars_of("ab")));
    assert!(!matches_at(&v, 3, &chars_of("ba")));
    assert!(matches_at(&v, 4, &chars_of("")));
}

#[test]
fn substrings() {
    assert!(contains("已复制到剪贴板", "复制"));
    assert!(!contains("复", "复制"));
    assert!(contains("", ""));
    assert!(contains("ab", "b"));
    assert!(!contains("ab", "ba"));
    assert!(same("翻译完成", "翻译完成"));
    assert!(!same("翻译完成", "翻译完成 "));
    assert_eq!(joined("a", "b"), "ab");
}

#[test]
fn every_occurrence_is_replaced() {
    for (s, p, t) in [
        ("{x}", "{x}", "y"),
        ("a{x}b{x}", "{x}", "长"),
        ("{x{x}}", "{x}", ""),
        ("aaa", "aa", "b"),
        ("none", "{x}", "y"),
        ("", "{x}", "y"),
        ("{x}{x}", "{x}", "{x}"),
    ] {
        assert_eq!(replace(s, p, t), s.replace(p, t));
    }
    assert_eq!(replace("翻译为{x}，好", "{x}", "英文"), "翻译为英文，好");
}

#[test]
fn decimal_notation() {
    for n in 0..=u16::MAX {
        assert_eq!(decimal_text(n), n.to_string());
    }
    assert_eq!(decimal_text(404), "404");
}
