use plugin_statistics::text::{
    chars_of, decode_text, is_blank, is_identifier_char, is_text_before, is_white_space,
    legacy_source_name, limit_chars, normalize_identifier, push_decimal, push_signed, same_text,
    sanitize_event_id, string_of, trimmed_chars,
};

#[test]
fn white_space_is_what_std_trims() {
    for code in 0..=0x10ffff_u32 {
        if let Some(c) = char::from_u32(code) {
            assert_eq!(is_white_space(c), c.is_whitespace(), "{code:x}");
        }
    }
}

#[test]
fn identifier_characters_are_ascii_letters_digits_and_four_signs() {
    for code in 0..=0x3ff_u32 {
        if let Some(c) = char::from_u32(code) {
            let expected = c.is_ascii_alphanumeric() || matches!(c, '-' | '_' | ':' | '.');
            assert_eq!(is_identifier_char(c), expected, "{code:x}");
        }
    }
}

#[test]
fn trimming_agrees_with_std() {
    for text in ["", " ", "a", "\t a b \u{3000}", "\u{a0}x\u{2028}", "  \r\n"] {
        assert_eq!(string_of(&trimmed_chars(text)), text.trim());
        assert_eq!(is_blank(text), text.trim().is_empty());
    }
}

#[test]
fn strings_are_rebuilt_from_their_characters() {
    assert_eq!(string_of(&chars_of("añ\u{1f600}b")), "añ\u{1f600}b");
    assert_eq!(string_of(&Vec::new()), "");
}

#[test]
fn frames_decode_as_utf8_or_not_at_all() {
    assert_eq!(decode_text(b"abc"), Some("abc".to_string()));
    let text = "zażółć \u{1f600}";
    assert_eq!(decode_text(text.as_bytes()), Some(text.to_string()));
    assert_eq!(decode_text(b""), Some(String::new()));
    assert_eq!(decode_text(&[0xff]), None);
    assert_eq!(decode_text(&[0xc0, 0x80]), None);
    assert_eq!(decode_text(&[0xe2, 0x82]), None);
    assert_eq!(decode_text(&[0xed, 0xa0, 0x80]), None);
}

#[test]
fn event_ids_lose_foreign_characters_and_length() {
    assert_eq!(sanitize_event_id(Some("  a b/c  ")), Some("abc".to_string()));
    assert_eq!(sanitize_event_id(Some("")), None);
    assert_eq!(sanitize_event_id(Some(" \t")), None);
    assert_eq!(sanitize_event_id(Some("żó")), None);
    let long = "x".repeat(200);
    assert_eq!(sanitize_event_id(Some(&long)), Some("x".repeat(128)));
    let mixed = format!("{}{}", "!".repeat(300), "y".repeat(3));
    assert_eq!(sanitize_event_id(Some(&mixed)), Some("yyy".to_string()));
}

#[test]
fn sanitizing_twice_changes_nothing() {
    for text in ["a b", "x:1-2_3.4", "  ??a??  "] {
        let once = sanitize_event_id(Some(text));
        assert_eq!(sanitize_event_id(once.as_deref()), once);
    }
}

#[test]
fn identifiers_keep_their_length_up_to_the_limit() {
    assert_eq!(normalize_identifier(" my server ", 128, "unknown"), "my_server");
    assert_eq!(normalize_identifier("", 128, "unknown"), "unknown");
    assert_eq!(normalize_identifier("  ", 128, "unknown"), "unknown");
    assert_eq!(normalize_identifier("żółw", 128, "unknown"), "___w");
    assert_eq!(normalize_identifier("abcdef", 3, "unknown"), "abc");
    assert_eq!(normalize_identifier("abcdef", 0, "unknown"), "unknown");
    assert_eq!(normalize_identifier("a.b:c-d_e", 64, "unknown"), "a.b:c-d_e");
}

#[test]
fn normalizing_an_identifier_twice_changes_nothing() {
    for text in ["", " a b ", "żółw", "ok"] {
        let once = normalize_identifier(text, 5, "unk");
        assert_eq!(normalize_identifier(&once, 5, "unk"), once);
    }
}

#[test]
fn limits_count_characters() {
    assert_eq!(limit_chars("żółw", 3), "żół");
    assert_eq!(limit_chars("abc", 3), "abc");
    assert_eq!(limit_chars("abc", 0), "");
    assert_eq!(limit_chars(&limit_chars("abcdef", 4), 4), "abcd");
}

#[test]
fn legacy_tables_name_their_plugin() {
    assert_eq!(legacy_source_name("rounds_statistics_events"), "rounds");
    assert_eq!(legacy_source_name("_statistics_events"), "");
    assert_eq!(legacy_source_name("rounds"), "rounds");
    assert_eq!(legacy_source_name(""), "");
    assert_eq!(
        legacy_source_name("a_statistics_events_statistics_events"),
        "a_statistics_events"
    );
    assert_eq!(legacy_source_name("a_statistics_eventsx"), "a_statistics_eventsx");
}

#[test]
fn numerals_agree_with_std() {
    for n in [0, 1, 9, 10, 99, 100, 1786400000, u64::MAX] {
        let mut text = "n=".to_string();
        push_decimal(&mut text, n);
        assert_eq!(text, format!("n={n}"));
    }
    for n in [0, 7, -7, -10, 27015, i64::MAX, i64::MIN] {
        let mut text = String::new();
        push_signed(&mut text, n);
        assert_eq!(text, format!("{n}"));
    }
}

#[test]
fn text_order_agrees_with_std() {
    let texts = ["", "a", "ab", "b", "B", "é", "z", "\u{1f600}", "\u{ffff}"];
    for a in texts {
        for b in texts {
            assert_eq!(is_text_before(a, b), a < b, "{a} {b}");
            assert_eq!(same_text(a, b), a == b);
        }
    }
}
