use codex_supervisor::text;

#[test]
fn clipping_marks_the_cut() {
    assert_eq!(text::clip("abc", 3), "abc");
    assert_eq!(text::clip("abcd", 3), "abc…");
    assert_eq!(text::clip("深bug", 1), "深…");
    assert_eq!(text::clip(&text::clip("abcdef", 3), 4), "abc…");
    assert_eq!(text::clip("", 0), "");
}

#[test]
fn trimming_agrees_with_the_standard_library() {
    for sample in [
        "",
        " ",
        " a b ",
        "\u{3000}x\u{a0}",
        "\t\r\n\u{b}\u{c}",
        "a\u{200b}",
        "\u{2028}y\u{85}",
    ] {
        assert_eq!(text::trim(sample), sample.trim());
        let words: Vec<&str> = sample.split_whitespace().collect();
        assert_eq!(text::split_words(sample), words);
    }
    assert_eq!(text::unquote("'\"a'b\"'"), "a'b");
    assert_eq!(text::unquote_start("\"a\""), "a\"");
}

#[test]
fn splitting_agrees_with_the_standard_library() {
    for sample in ["", "/", "a", "/a/b/", "a//b"] {
        let pieces: Vec<&str> = sample.split('/').collect();
        assert_eq!(text::split(sample, '/'), pieces);
    }
    for sample in ["", "\n", "a", "a\n", "a\r\nb", "a\r", "\r\n\r\n", "a\n\nb\r"] {
        let lines: Vec<&str> = sample.lines().collect();
        assert_eq!(text::split_lines(sample), lines, "{sample:?}");
    }
}

#[test]
fn searching_agrees_with_the_standard_library() {
    for hay in ["", "a", "abcabc", "修bug"] {
        for needle in ["", "a", "bc", "bug", "cab", "abcabcabc"] {
            assert_eq!(text::contains(hay, needle), hay.contains(needle));
            assert_eq!(text::starts_with(hay, needle), hay.starts_with(needle));
            assert_eq!(text::ends_with(hay, needle), hay.ends_with(needle));
            assert_eq!(
                text::strip_prefix_or_keep(hay, needle),
                hay.strip_prefix(needle).unwrap_or(hay)
            );
            assert_eq!(text::at_most(hay, needle), hay <= needle);
            assert_eq!(
                text::equal_ignoring_ascii_case(hay, needle),
                hay.eq_ignore_ascii_case(needle)
            );
        }
    }
    assert!(text::equal_ignoring_ascii_case("KeEp-[É]", "kEeP-[É]"));
    assert!(!text::equal_ignoring_ascii_case("É", "é"));
}

#[test]
fn numbers_are_written_in_decimal() {
    assert_eq!(text::decimal_text(0), "0");
    assert_eq!(text::decimal_text(u128::MAX), u128::MAX.to_string());
    assert_eq!(text::signed_decimal_text(i64::MIN), i64::MIN.to_string());
    assert_eq!(text::signed_decimal_text(-7), "-7");
}
