use worktree_manager::text::{
    append_chars, chars_of, clone_strings, next_line, replace_range, starts_with,
    strip_range, text_of, CharClass,
};

/// The lines of `text`, read with `next_line` from the start to the end.
fn lines_of(text: &str) -> Vec<String> {
    let chars = chars_of(text);
    let mut lines = Vec::new();
    let mut pos = 0;
    while pos < chars.len() {
        let (end, next) = next_line(&chars, pos);
        lines.push(text_of(&chars, pos, end));
        pos = next;
    }
    lines
}

fn std_lines(text: &str) -> Vec<String> {
    text.lines().map(|l| l.to_string()).collect()
}

#[test]
fn chars_of_keeps_every_character() {
    assert_eq!(chars_of("a\u{e9}\u{4e16}z"), vec!['a', '\u{e9}', '\u{4e16}', 'z']);
    assert_eq!(chars_of(""), Vec::<char>::new());
}

#[test]
fn text_of_builds_the_range() {
    let chars = chars_of("worktree /repo");
    assert_eq!(text_of(&chars, 9, 14), "/repo");
    assert_eq!(text_of(&chars, 3, 3), "");
    assert_eq!(text_of(&chars, 0, chars.len()), "worktree /repo");
}

#[test]
fn append_chars_adds_at_the_end() {
    let chars = chars_of("abcdef");
    let mut out = String::from("x-");
    append_chars(&mut out, &chars, 2, 5);
    assert_eq!(out, "x-cde");
}

#[test]
fn lines_split_at_line_feeds() {
    assert_eq!(lines_of("a\nb\nc"), vec!["a", "b", "c"]);
    assert_eq!(lines_of("a\nb\n"), vec!["a", "b"]);
    assert_eq!(lines_of(""), Vec::<String>::new());
    assert_eq!(lines_of("\n"), vec![""]);
    assert_eq!(lines_of("a\n\nb"), vec!["a", "", "b"]);
}

#[test]
fn lines_drop_a_carriage_return_before_a_line_feed_only() {
    assert_eq!(lines_of("a\r\nb\r\n"), vec!["a", "b"]);
    assert_eq!(lines_of("a\r"), vec!["a\r"]);
    assert_eq!(lines_of("a\rb\n"), vec!["a\rb"]);
    assert_eq!(lines_of("a\r\r\n"), vec!["a\r"]);
    assert_eq!(lines_of("\r\n"), vec![""]);
}

#[test]
fn lines_agree_with_the_standard_library() {
    let samples = [
        "",
        "\n",
        "\r",
        "\r\n",
        "\n\n",
        "one",
        "one\n",
        "one\r\n",
        "one\ntwo",
        "one\r\ntwo\r\n",
        "one\n\rtwo",
        "one\r\r\ntwo\r",
        "\n\none\n\n\ntwo\n\n",
        "caf\u{e9}\n\u{4e16}\u{754c}\r\n",
        "worktree /a\nHEAD 1\nbranch refs/heads/x\n\nworktree /b\nHEAD 2\ndetached\n\n",
    ];
    for text in samples {
        assert_eq!(lines_of(text), std_lines(text), "text {:?}", text);
    }
}

#[test]
fn whitespace_class_is_the_unicode_property() {
    let class = CharClass::Whitespace;
    let mut code: u32 = 0;
    while code <= 0x10FFFF {
        if let Some(c) = char::from_u32(code) {
            assert_eq!(class.test(c), c.is_whitespace(), "U+{:04X}", code);
        }
        code += 1;
    }
}

#[test]
fn slash_class_holds_the_forward_slash_only() {
    let class = CharClass::Slash;
    assert!(class.test('/'));
    assert!(!class.test('\\'));
    assert!(!class.test(' '));
    assert!(!class.test('a'));
}

fn stripped(text: &str, class: CharClass) -> String {
    let chars = chars_of(text);
    let (a, b) = strip_range(&chars, 0, chars.len(), class);
    text_of(&chars, a, b)
}

#[test]
fn strip_range_trims_both_ends() {
    assert_eq!(stripped("  node_modules \t", CharClass::Whitespace), "node_modules");
    assert_eq!(stripped(" a b ", CharClass::Whitespace), "a b");
    assert_eq!(stripped("   ", CharClass::Whitespace), "");
    assert_eq!(stripped("", CharClass::Whitespace), "");
    assert_eq!(stripped("\u{a0}x\u{3000}", CharClass::Whitespace), "x");
    assert_eq!(stripped("//a/b//", CharClass::Slash), "a/b");
    assert_eq!(stripped("///", CharClass::Slash), "");
    assert_eq!(stripped(" /a/ ", CharClass::Slash), " /a/ ");
}

#[test]
fn strip_range_agrees_with_the_standard_library() {
    let samples = ["", " ", "x", " x", "x ", "\t x y \r\n", "\u{2003}pad\u{2003}", "\u{200b}zero\u{200b}"];
    for text in samples {
        assert_eq!(stripped(text, CharClass::Whitespace), text.trim(), "text {:?}", text);
        assert_eq!(stripped(text, CharClass::Slash), text.trim_matches('/'), "text {:?}", text);
    }
    for text in ["/", "/a", "a/", "//a//b//", "a"] {
        assert_eq!(stripped(text, CharClass::Slash), text.trim_matches('/'), "text {:?}", text);
    }
}

#[test]
fn strip_range_stays_within_the_given_range() {
    let chars = chars_of("  ab  cd  ");
    let (a, b) = strip_range(&chars, 4, 8, CharClass::Whitespace);
    assert_eq!((a, b), (6, 8));
    let (a, b) = strip_range(&chars, 4, 6, CharClass::Whitespace);
    assert_eq!(a, b);
}

#[test]
fn starts_with_compares_the_beginning() {
    let chars = chars_of("HEAD abc");
    let head = chars_of("HEAD ");
    assert!(starts_with(&chars, 0, chars.len(), &head));
    assert!(!starts_with(&chars, 1, chars.len(), &head));
    assert!(!starts_with(&chars, 0, 4, &head));
    assert!(starts_with(&chars, 0, 5, &head));
    assert!(starts_with(&chars, 3, 3, &chars_of("")));
    assert!(!starts_with(&chars, 0, chars.len(), &chars_of("HEAD_")));
}

#[test]
fn replace_range_turns_every_occurrence() {
    let chars = chars_of("a\\b\\c/d");
    assert_eq!(replace_range(&chars, 0, chars.len(), '\\', '/'), chars_of("a/b/c/d"));
    assert_eq!(replace_range(&chars, 1, 4, '\\', '/'), chars_of("/b/"));
    assert_eq!(replace_range(&chars, 2, 2, '\\', '/'), Vec::<char>::new());
}

#[test]
fn clone_strings_copies_the_list() {
    let names = vec!["a".to_string(), "".to_string(), "b c".to_string()];
    assert_eq!(clone_strings(&names), names);
    assert_eq!(clone_strings(&Vec::new()), Vec::<String>::new());
}
