use my_shell::text::{blank, chars_of, same_text, split_text, trim_text, words_of, Delimiter};

#[test]
fn the_six_blanks() {
    for c in [' ', '\t', '\n', '\u{0B}', '\u{0C}', '\r'] {
        assert!(blank(c));
        assert!(Delimiter::Blank.cuts_at(c));
        assert!(!Delimiter::Pipe.cuts_at(c));
    }
    for c in ['a', '|', '\u{00A0}', '\u{0085}', '\u{2003}', '\u{1F}', '\0', '<'] {
        assert!(!blank(c));
    }
    assert!(Delimiter::Pipe.cuts_at('|'));
    assert!(!Delimiter::Blank.cuts_at('|'));
}

#[test]
fn chars_of_keeps_every_character() {
    assert_eq!(chars_of("a|é 中"), vec!['a', '|', 'é', ' ', '中']);
    assert_eq!(chars_of(""), Vec::<char>::new());
}

#[test]
fn same_text_compares_characters() {
    assert!(same_text("", ""));
    assert!(same_text("exit", "exit"));
    assert!(!same_text("exit", "exit "));
    assert!(!same_text("exit", "exiT"));
    assert!(!same_text(">", ">>"));
    assert!(same_text("中文", "中文"));
}

#[test]
fn split_at_pipes() {
    assert_eq!(split_text("a|b", Delimiter::Pipe), vec!["a", "b"]);
    assert_eq!(split_text("a b", Delimiter::Pipe), vec!["a b"]);
    assert_eq!(split_text("", Delimiter::Pipe), vec![""]);
    assert_eq!(split_text("|", Delimiter::Pipe), vec!["", ""]);
    assert_eq!(split_text("a||b|", Delimiter::Pipe), vec!["a", "", "b", ""]);
    assert_eq!(split_text(" é | 中 ", Delimiter::Pipe), vec![" é ", " 中 "]);
}

#[test]
fn split_at_blanks() {
    assert_eq!(split_text("a  b\tc", Delimiter::Blank), vec!["a", "", "b", "c"]);
    assert_eq!(split_text(" ", Delimiter::Blank), vec!["", ""]);
}

#[test]
fn trim_removes_blanks_around() {
    assert_eq!(trim_text("  a b \t\n"), "a b");
    assert_eq!(trim_text("a"), "a");
    assert_eq!(trim_text(""), "");
    assert_eq!(trim_text(" \r\n\t"), "");
    assert_eq!(trim_text("\u{00A0}a\u{00A0}"), "\u{00A0}a\u{00A0}");
    assert_eq!(trim_text(" 中 文 "), "中 文");
}

#[test]
fn words_are_the_pieces_that_hold_something() {
    assert_eq!(words_of("  ls   -l\t/tmp "), vec!["ls", "-l", "/tmp"]);
    assert_eq!(words_of(""), Vec::<&str>::new());
    assert_eq!(words_of(" \t "), Vec::<&str>::new());
    assert_eq!(words_of("one"), vec!["one"]);
    assert_eq!(words_of("a|b c"), vec!["a|b", "c"]);
}

#[test]
fn trimming_keeps_the_words() {
    for text in ["  a b  ", "a", "", "   ", "\tx\ty\t"] {
        assert_eq!(words_of(trim_text(text)), words_of(text));
        assert_eq!(trim_text(text).is_empty(), words_of(text).is_empty());
    }
}
