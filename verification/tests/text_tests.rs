use lust_termina::text;

fn strings(v: &[&str]) -> Vec<String> {
    v.iter().map(|s| s.to_string()).collect()
}

#[test]
fn trims_exactly_the_white_space_of_unicode() {
    for v in 0..=0x10FFFFu32 {
        if let Some(c) = char::from_u32(v) {
            let s: String = c.to_string();
            assert_eq!(text::trim(&s).is_empty(), c.is_whitespace(), "U+{:04X}", v);
        }
    }
}

#[test]
fn trims_both_ends_only() {
    for s in ["", "   ", " a ", "a b", "\t\u{3000}x y\u{a0}\n", "x"] {
        assert_eq!(text::trim(s), s.trim());
    }
}

#[test]
fn splits_like_a_search_path() {
    for s in ["", ";", "a", "a;b", ";a;;b;"] {
        let expected: Vec<String> = s.split(';').map(String::from).collect();
        assert_eq!(text::split(s, ';'), expected);
    }
}

#[test]
fn lines_end_at_feeds_and_drop_one_return() {
    for s in ["", "\n", "a", "a\n", "a\nb", "a\r\nb\r\n", "a\r", "a\n\nb", "\r\n", "a\r\r\nb"] {
        let expected: Vec<String> = s.lines().map(String::from).collect();
        assert_eq!(text::lines(s), expected, "{:?}", s);
    }
}

#[test]
fn joins_with_a_separator() {
    assert_eq!(text::join(&strings(&[]), '\n'), "");
    assert_eq!(text::join(&strings(&["a"]), '\n'), "a");
    assert_eq!(text::join(&strings(&["a", "", "b"]), '\n'), "a\n\nb");
}

#[test]
fn replaces_every_occurrence() {
    assert_eq!(text::replace("a\nb\n\n", '\n', '\r'), "a\rb\r\r");
    assert_eq!(text::replace("", '\n', '\r'), "");
}

#[test]
fn searches_text() {
    assert!(text::contains("C:\\WindowsApps\\x", "Apps"));
    assert!(text::contains("abc", ""));
    assert!(text::contains("aab", "ab"));
    assert!(!text::contains("ab", "abc"));
    assert!(text::starts_with("Microsoft.PowerShell_7", "Microsoft.PowerShell_"));
    assert!(!text::starts_with("Micro", "Microsoft"));
    assert!(text::ends_with("a.png", ".png"));
    assert!(!text::ends_with("png", ".png"));
    assert!(text::same_text("日本", "日本"));
    assert!(!text::same_text("日本", "日"));
}

#[test]
fn lowers_ascii_letters_only() {
    assert_eq!(text::to_ascii_lower("AbZÄ[`{1"), "AbZÄ[`{1".to_ascii_lowercase());
}

#[test]
fn writes_numbers_in_decimal() {
    for n in [0u64, 7, 10, 99, 100, 1_000_000_007, u64::MAX] {
        assert_eq!(text::to_decimal(n), n.to_string());
    }
}

#[test]
fn wide_text_ends_in_zero() {
    for s in ["", "C:\\x", "日本", "\u{1F600}a"] {
        let expected: Vec<u16> = s.encode_utf16().chain(std::iter::once(0)).collect();
        assert_eq!(text::to_wide(s), expected);
    }
}

#[test]
fn copies_and_converts() {
    assert_eq!(text::chars_of("añ"), vec!['a', 'ñ']);
    assert_eq!(text::string_of(&vec!['a', 'b', 'c'], 1, 3), "bc");
    assert_eq!(text::copy_text(&Some("x".to_string())), Some("x".to_string()));
    assert_eq!(text::copy_text(&None), None);
    assert_eq!(text::copy_texts(&strings(&["a", "b"])), strings(&["a", "b"]));
}
