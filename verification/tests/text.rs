use nomifun_crawl::text::{
    alphanumeric, decimal_text, prefix, to_lower, to_lower_text, trim, Margin,
};

#[test]
fn classes_agree_with_the_standard_library() {
    for ch in '\0'..=char::MAX {
        assert_eq!(Margin::WhiteSpace.is_margin(ch), ch.is_whitespace(), "{ch:?}");
        assert_eq!(Margin::Dashes.is_margin(ch), ch == '-', "{ch:?}");
        assert_eq!(alphanumeric(ch), ch.is_ascii_alphanumeric(), "{ch:?}");
        assert_eq!(to_lower(ch), ch.to_ascii_lowercase(), "{ch:?}");
    }
}

#[test]
fn trimming_agrees_with_the_standard_library() {
    for text in ["", " ", "\t\r\n", "a", " a b ", "\u{85}x\u{3000}", "-a-", "--"] {
        assert_eq!(trim(text, Margin::WhiteSpace), text.trim());
        assert_eq!(trim(text, Margin::Dashes), text.trim_matches('-'));
    }
}

#[test]
fn decimals_are_written_out() {
    for number in [0, 7, 10, 1_234_567_890, -1, -10, i64::MAX, i64::MIN, i64::MIN + 1] {
        assert_eq!(decimal_text(number), number.to_string());
    }
}

#[test]
fn prefixes_count_characters() {
    assert_eq!(prefix("\u{e9}t\u{e9}", 2), "\u{e9}t");
    assert_eq!(prefix("ab", 5), "ab");
    assert_eq!(prefix("ab", 0), "");
}

#[test]
fn lower_case_is_ascii_only() {
    assert_eq!(to_lower_text("EXAMPLE.Com\u{c9}"), "example.com\u{c9}");
}
