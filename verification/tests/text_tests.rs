use research_tracker::text::{
    chars_of, push_left_justified, push_right_justified, strip_suffix, trim, white_space,
};

#[test]
fn the_characters_of_a_text() {
    assert_eq!(chars_of("a\u{e9}\u{4e16}"), vec!['a', '\u{e9}', '\u{4e16}']);
    assert_eq!(chars_of(""), Vec::<char>::new());
    assert_eq!(chars_of("Caf\u{e9} \u{1f600}").len(), 6);
}

#[test]
fn white_space_is_what_the_standard_library_takes_for_it() {
    let mut code: u32 = 0;
    while code <= 0x10FFFF {
        if let Some(c) = char::from_u32(code) {
            assert_eq!(white_space(c), c.is_whitespace(), "U+{:04X}", code);
        }
        code += 1;
    }
}

#[test]
fn trimming_removes_white_space_at_both_ends() {
    assert_eq!(trim("  a b  "), "a b");
    assert_eq!(trim("a"), "a");
    assert_eq!(trim(""), "");
    assert_eq!(trim("   "), "");
    assert_eq!(trim("\t\n x\r\n"), "x");
    assert_eq!(trim("\u{a0}\u{3000}x y\u{2003}"), "x y");
    assert_eq!(trim(" https://example.org/a b "), "https://example.org/a b");
}

#[test]
fn trimming_agrees_with_the_standard_library() {
    for text in ["", " ", "a", " a", "a ", " a b ", "\u{85}a\u{1680}", "\u{200b}a\u{200b}", " \u{feff} "] {
        assert_eq!(trim(text), text.trim(), "{:?}", text);
    }
}

#[test]
fn justification_at_the_left() {
    let mut out = String::from("[");
    push_left_justified(&mut out, "ab", 5);
    out.push(']');
    assert_eq!(out, "[ab   ]");
    let mut wide = String::new();
    push_left_justified(&mut wide, "abcdef", 3);
    assert_eq!(wide, "abcdef");
    let mut exact = String::new();
    push_left_justified(&mut exact, "abc", 3);
    assert_eq!(exact, "abc");
    let mut accents = String::new();
    push_left_justified(&mut accents, "\u{e9}\u{e9}", 4);
    assert_eq!(accents, format!("{:4}", "\u{e9}\u{e9}"));
}

#[test]
fn justification_at_the_right() {
    let mut out = String::from("[");
    push_right_justified(&mut out, "7", 3);
    out.push(']');
    assert_eq!(out, "[  7]");
    let mut wide = String::new();
    push_right_justified(&mut wide, "1234", 3);
    assert_eq!(wide, "1234");
    let mut empty = String::new();
    push_right_justified(&mut empty, "", 3);
    assert_eq!(empty, "   ");
}

#[test]
fn endings_are_removed_as_often_as_they_stand() {
    assert_eq!(strip_suffix("Alice.plr", ".plr"), "Alice");
    assert_eq!(strip_suffix("Alice.plr.plr", ".plr"), "Alice");
    assert_eq!(strip_suffix("Alice", ".plr"), "Alice");
    assert_eq!(strip_suffix(".plr", ".plr"), "");
    assert_eq!(strip_suffix("plr", ".plr"), "plr");
    assert_eq!(strip_suffix("a.plr.txt", ".plr"), "a.plr.txt");
    assert_eq!(strip_suffix("abc", ""), "abc");
    for text in ["", "x.plr", "x.plr.plr.plr", ".plr.plrx", "x.PLR"] {
        assert_eq!(strip_suffix(text, ".plr"), text.trim_end_matches(".plr"));
    }
}
