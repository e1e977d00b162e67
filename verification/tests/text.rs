use codexlaunch::text::{
    chars_of, eq_ignoring_ascii_case, find_from, has_prefix, is_white_space, join, lines_of,
    push_decimal, push_hexadecimal, push_repeated, string_of, trim, trim_start,
};

#[test]
fn white_space_is_that_of_unicode() {
    for code in 0..=0x10ffffu32 {
        if let Some(c) = char::from_u32(code) {
            assert_eq!(is_white_space(c), c.is_whitespace(), "U+{:04X}", code);
        }
    }
}

#[test]
fn trims_white_space_only() {
    for s in ["", " ", "\t\r\n", " a ", "a", "\u{3000}a b\u{2028}", "a\u{200b}", "\r\n x"] {
        assert_eq!(trim(s), s.trim());
        assert_eq!(trim_start(s), s.trim_start());
    }
}

#[test]
fn lines_end_at_line_feeds() {
    for s in [
        "", "\n", "a", "a\n", "a\r\n", "a\nb", "a\r\nb\r\n", "\r\n\r\n", "a\rb\n", "\n\na", "a\r\r\nb",
        "\u{e9}\n\u{1f600}\r\n",
    ] {
        let expected: Vec<String> = s.lines().map(|line| line.to_string()).collect();
        assert_eq!(lines_of(s), expected, "{:?}", s);
    }
    assert_eq!(lines_of("a\r"), vec!["a\r"]);
}

#[test]
fn prefixes_are_compared_whole() {
    assert!(has_prefix("\"Codex.exe\",\"1\"", "\"Codex.exe\""));
    assert!(!has_prefix("\"Codex.ex", "\"Codex.exe\""));
    assert!(!has_prefix("\"codex.exe\"", "\"Codex.exe\""));
    assert!(has_prefix("", ""));
}

#[test]
fn ascii_case_is_ignored_and_no_other() {
    let pairs = [
        ("Codex.EXE", "codex.exe"),
        ("\u{c9}", "\u{e9}"),
        ("a", "ab"),
        ("[", "{"),
        ("@", "`"),
        ("Z", "z"),
        ("", ""),
        ("\u{212a}", "k"),
    ];
    for (a, b) in pairs {
        assert_eq!(
            eq_ignoring_ascii_case(&chars_of(a), &chars_of(b)),
            a.eq_ignore_ascii_case(b),
            "{} {}",
            a,
            b
        );
    }
}

#[test]
fn parts_are_joined() {
    let parts: Vec<String> = ["a", "", "c"].iter().map(|s| s.to_string()).collect();
    assert_eq!(join(&parts, ", "), "a, , c");
    assert_eq!(join(&parts[..1], ", "), "a");
    assert_eq!(join(&[], ", "), "");
}

#[test]
fn numbers_are_written_in_digits() {
    for n in [0u64, 1, 9, 10, 99, 100, 9229, 65535, 4294967295, u64::MAX] {
        let mut decimal = "=".to_string();
        push_decimal(&mut decimal, n);
        assert_eq!(decimal, format!("={}", n));
        let mut hexadecimal = "0x".to_string();
        push_hexadecimal(&mut hexadecimal, n);
        assert_eq!(hexadecimal, format!("0x{:x}", n));
    }
}

#[test]
fn characters_are_found_and_cut_out() {
    let chars = chars_of("a=b=\u{e9}");
    assert_eq!(chars, vec!['a', '=', 'b', '=', '\u{e9}']);
    assert_eq!(find_from(&chars, 0, '='), 1);
    assert_eq!(find_from(&chars, 2, '='), 3);
    assert_eq!(find_from(&chars, 4, '='), 5);
    assert_eq!(string_of(&chars, 2, 5), "b=\u{e9}");
    let mut s = "x".to_string();
    push_repeated(&mut s, '\\', 3);
    assert_eq!(s, "x\\\\\\");
}
