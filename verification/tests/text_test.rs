use laches::text::{
    chars_lt, chars_of, clone_strings, contains_str, is_blank, position_of, str_eq, trimmed,
};

#[test]
fn test_str_eq_agrees_with_std() {
    let samples = ["", "a", "ab", "ba", "é", "e\u{301}", "日本", "日本語", "A"];
    for a in samples {
        for b in samples {
            assert_eq!(str_eq(a, b), a == b, "{:?} against {:?}", a, b);
        }
    }
}

#[test]
fn test_chars_lt_agrees_with_std_order() {
    let samples = [
        "",
        "2024-01-05",
        "2024-01-07",
        "2024-01-10",
        "2023-12-31",
        "2024-01",
        "a",
        "B",
        "é",
        "z",
        "\u{7f}",
        "\u{80}",
        "\u{7ff}",
        "\u{800}",
        "\u{ffff}",
        "\u{10000}",
        "日本",
    ];
    for a in samples {
        for b in samples {
            assert_eq!(
                chars_lt(&chars_of(a), &chars_of(b)),
                a < b,
                "{:?} against {:?}",
                a,
                b
            );
        }
    }
}

#[test]
fn test_trimmed_agrees_with_std_trim() {
    let samples = [
        "",
        " ",
        "a",
        " a",
        "a ",
        "  a b  ",
        "\t\n\r a \u{b}\u{c}",
        "\u{85}\u{a0}\u{1680}x\u{2000}\u{200a}\u{2028}\u{2029}\u{202f}\u{205f}\u{3000}",
        "\u{200b}x\u{200b}",
        "\u{feff}x",
        "\u{1c}x\u{1f}",
    ];
    for s in samples {
        assert_eq!(trimmed(s), s.trim(), "{:?}", s);
        assert_eq!(is_blank(s), s.trim().is_empty(), "{:?}", s);
    }
}

#[test]
fn test_whitespace_agrees_with_std_on_the_basic_plane() {
    for code in (0..=0xffffu32).chain([0x10000, 0x1f600, 0xe0020, 0x10ffff]) {
        if let Some(c) = char::from_u32(code) {
            let alone = c.to_string();
            assert_eq!(is_blank(&alone), c.is_whitespace(), "U+{:04X}", code);
        }
    }
}

#[test]
fn test_position_of_finds_the_first() {
    let list = vec!["a".to_string(), "b".to_string(), "a".to_string()];
    assert_eq!(position_of(&list, "a"), Some(0));
    assert_eq!(position_of(&list, "b"), Some(1));
    assert_eq!(position_of(&list, "c"), None);
    assert!(contains_str(&list, "b"));
    assert!(!contains_str(&list, "B"));
    assert_eq!(clone_strings(&list), list);
}
