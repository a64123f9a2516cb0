use cargo_merge_driver::text::{
    is_whitespace, line_end, push_range, range_starts_with, to_chars, trim_end,
};

#[test]
fn to_chars_gives_each_character() {
    assert_eq!(to_chars(""), Vec::<char>::new());
    assert_eq!(to_chars("a\n"), vec!['a', '\n']);
    assert_eq!(to_chars("é𝄞"), vec!['é', '𝄞']);
}

#[test]
fn push_range_appends_the_range() {
    let chars = to_chars("hello");
    let mut out = String::from("x");
    push_range(&mut out, &chars, 1, 4);
    assert_eq!(out, "xell");
    push_range(&mut out, &chars, 2, 2);
    assert_eq!(out, "xell");
    push_range(&mut out, &chars, 0, 5);
    assert_eq!(out, "xellhello");
}

#[test]
fn is_whitespace_agrees_with_std_on_every_character() {
    let mut count = 0;
    for n in 0..=0x10FFFFu32 {
        if let Some(c) = char::from_u32(n) {
            assert_eq!(is_whitespace(c), c.is_whitespace(), "U+{:04X}", n);
            if is_whitespace(c) {
                count += 1;
            }
        }
    }
    assert_eq!(count, 25);
}

#[test]
fn is_whitespace_on_chosen_characters() {
    for c in [' ', '\t', '\n', '\r', '\u{0B}', '\u{0C}', '\u{85}', '\u{A0}', '\u{3000}'] {
        assert!(is_whitespace(c), "{:?}", c);
    }
    for c in ['a', '0', '\0', '\u{08}', '\u{0E}', '\u{1F}', '\u{200B}', '\u{180E}', '\u{FEFF}'] {
        assert!(!is_whitespace(c), "{:?}", c);
    }
}

#[test]
fn trim_end_drops_trailing_whitespace_only() {
    assert_eq!(trim_end(""), "");
    assert_eq!(trim_end("\n"), "");
    assert_eq!(trim_end(" \t\r\n"), "");
    assert_eq!(trim_end(".git\n"), ".git");
    assert_eq!(trim_end("/home/u/.gitattributes\r\n"), "/home/u/.gitattributes");
    assert_eq!(trim_end("  a b  "), "  a b");
    assert_eq!(trim_end("a\nb\n\n"), "a\nb");
    assert_eq!(trim_end("no newline"), "no newline");
    assert_eq!(trim_end("é\u{3000}"), "é");
    assert_eq!(trim_end("a\u{200B}"), "a\u{200B}");
}

#[test]
fn trim_end_agrees_with_std() {
    let pieces = ["", "a", " ", "\n", "\r\n", "\t", "é", "\u{A0}", "\u{2003}", "x y", "\u{200B}"];
    for a in pieces {
        for b in pieces {
            for c in pieces {
                let s = format!("{}{}{}", a, b, c);
                assert_eq!(trim_end(&s), s.trim_end(), "{:?}", s);
            }
        }
    }
}

#[test]
fn line_end_finds_the_next_line_feed() {
    let chars = to_chars("ab\ncd\n\nef");
    assert_eq!(line_end(&chars, 0), 2);
    assert_eq!(line_end(&chars, 1), 2);
    assert_eq!(line_end(&chars, 2), 2);
    assert_eq!(line_end(&chars, 3), 5);
    assert_eq!(line_end(&chars, 6), 6);
    assert_eq!(line_end(&chars, 7), 9);
    assert_eq!(line_end(&chars, 9), 9);
    assert_eq!(line_end(&Vec::new(), 0), 0);
}

#[test]
fn range_starts_with_looks_only_inside_the_range() {
    let chars = to_chars("Cargo.lock merge=x");
    let prefix = to_chars("Cargo.lock");
    assert!(range_starts_with(&chars, 0, 18, &prefix));
    assert!(range_starts_with(&chars, 0, 10, &prefix));
    assert!(!range_starts_with(&chars, 0, 9, &prefix));
    assert!(!range_starts_with(&chars, 1, 18, &prefix));
    assert!(range_starts_with(&chars, 6, 18, &to_chars("lock")));
    assert!(range_starts_with(&chars, 3, 3, &Vec::new()));
    assert!(!range_starts_with(&chars, 3, 3, &to_chars("g")));
    assert!(!range_starts_with(&chars, 0, 18, &to_chars("Cargo.lock merge=y")));
}
