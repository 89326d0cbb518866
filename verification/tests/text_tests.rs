use kosmokopy::text;

#[test]
fn white_space_is_that_of_unicode() {
    for n in 0..=0x10ffffu32 {
        if let Some(c) = char::from_u32(n) {
            assert_eq!(text::white(c), c.is_whitespace());
        }
    }
}

#[test]
fn lines_are_those_of_the_standard_library() {
    for s in ["", "a", "a\n", "a\nb", "a\r\nb\r", "\n", "\n\n", "a\r\r\n", "\r\n", "x\n\ny"] {
        let want: Vec<String> = s.lines().map(|l| l.to_string()).collect();
        assert_eq!(text::line_texts(s), want, "{:?}", s);
    }
}

#[test]
fn trimming_is_that_of_the_standard_library() {
    for s in ["", " ", " a b ", "\t\u{a0}x\u{3000}\n", "x"] {
        assert_eq!(text::trim_text(s), s.trim(), "{:?}", s);
    }
    assert_eq!(text::trim_end_slashes("/a//"), "/a");
    assert_eq!(text::trim_end_slashes("///"), "");
}

#[test]
fn numbers_are_written_in_decimal() {
    for n in [0usize, 7, 10, 99, 100, 4711, usize::MAX] {
        assert_eq!(text::decimal_text(n), format!("{}", n));
    }
    for n in [0i32, -1, 255, i32::MAX, i32::MIN] {
        assert_eq!(text::signed_decimal_text(n), format!("{}", n));
    }
}

#[test]
fn texts_are_split_and_joined() {
    let s: Vec<char> = "a,,b".chars().collect();
    let parts: Vec<String> =
        text::split_chars(&s, ',').into_iter().map(|p| p.into_iter().collect()).collect();
    assert_eq!(parts, vec!["a", "", "b"]);
    assert_eq!(text::join_strings(&parts, "--"), "a----b");
    assert_eq!(text::remove_spaces("a b  c"), "abc");
}
