use speedy::text::{
    char_is_space, chars_between, chars_of, find_in_chars, join_strings, lines_of_chars,
    same_text, split_chars, string_from, string_of, text_less, trim_chars,
};

fn chars(s: &str) -> Vec<char> {
    s.chars().collect()
}

fn strings(parts: &Vec<Vec<char>>) -> Vec<String> {
    parts.iter().map(|p| p.iter().collect::<String>()).collect()
}

#[test]
fn chars_of_reads_every_char() {
    assert_eq!(chars_of("héllo"), vec!['h', 'é', 'l', 'l', 'o']);
    assert_eq!(chars_of(""), Vec::<char>::new());
}

#[test]
fn string_of_takes_a_range() {
    let v = chars("hello world");
    assert_eq!(string_of(&v, 6, 11), "world");
    assert_eq!(string_of(&v, 3, 3), "");
    assert_eq!(string_from(&v), "hello world");
    assert_eq!(chars_between(&v, 0, 5), chars("hello"));
}

#[test]
fn same_text_compares_characters() {
    assert!(same_text("tags", "tags"));
    assert!(!same_text("tags", "Tags"));
    assert!(!same_text("tags", "tag"));
}

#[test]
fn white_space_is_that_of_unicode() {
    for c in [' ', '\t', '\n', '\r', '\u{0B}', '\u{0C}', '\u{85}', '\u{A0}', '\u{1680}', '\u{2000}',
        '\u{200A}', '\u{2028}', '\u{2029}', '\u{202F}', '\u{205F}', '\u{3000}']
    {
        assert!(char_is_space(c));
        assert!(c.is_whitespace());
    }
    for c in ['a', '0', '-', '\u{200B}', '\u{FEFF}', '\u{1F}'] {
        assert!(!char_is_space(c));
        assert!(!c.is_whitespace());
    }
}

#[test]
fn trim_drops_white_space_at_both_ends() {
    assert_eq!(trim_chars(&chars("  a b \t")), chars("a b"));
    assert_eq!(trim_chars(&chars("a")), chars("a"));
    assert_eq!(trim_chars(&chars(" \u{3000}\n")), chars(""));
    assert_eq!(trim_chars(&chars("")), chars(""));
    assert_eq!(trim_chars(&chars("\u{A0}x\u{2003}")), chars("x"));
}

#[test]
fn find_gives_the_first_occurrence() {
    assert_eq!(find_in_chars(&chars("a:b:c"), ':'), 1);
    assert_eq!(find_in_chars(&chars("abc"), ':'), 3);
    assert_eq!(find_in_chars(&chars(""), ':'), 0);
}

#[test]
fn split_keeps_empty_pieces() {
    assert_eq!(strings(&split_chars(&chars("a,b"), ',')), vec!["a", "b"]);
    assert_eq!(strings(&split_chars(&chars(""), ',')), vec![""]);
    assert_eq!(strings(&split_chars(&chars("a,"), ',')), vec!["a", ""]);
    assert_eq!(strings(&split_chars(&chars(",a,,b"), ',')), vec!["", "a", "", "b"]);
}

#[test]
fn lines_are_those_of_std() {
    for text in ["", "a", "a\n", "a\nb", "a\r\nb\r\n", "a\r", "a\n\n", "\n", "\r\n", "a\rb\nc",
        "one\ntwo\n\nfour"]
    {
        let expected: Vec<String> = text.lines().map(|l| l.to_string()).collect();
        assert_eq!(strings(&lines_of_chars(&chars(text))), expected);
    }
}

#[test]
fn lines_on_given_texts() {
    assert_eq!(strings(&lines_of_chars(&chars("a\r\nb\r"))), vec!["a", "b\r"]);
    assert_eq!(strings(&lines_of_chars(&chars("a\n\n"))), vec!["a", ""]);
    assert_eq!(strings(&lines_of_chars(&chars(""))), Vec::<String>::new());
}

#[test]
fn join_puts_the_separator_between() {
    let parts = vec!["a".to_string(), "b".to_string(), "c".to_string()];
    assert_eq!(join_strings(&parts, ", "), "a, b, c");
    assert_eq!(join_strings(&vec!["a".to_string()], ", "), "a");
    assert_eq!(join_strings(&Vec::new(), ", "), "");
    assert_eq!(join_strings(&vec!["".to_string(), "".to_string()], "\n"), "\n");
}

#[test]
fn text_less_is_the_order_of_str() {
    let words = ["", "a", "ab", "b", "B", "rust", "Rust", "é", "z", "日本", "a\u{10000}", "a\u{FFFF}"];
    for a in words {
        for b in words {
            assert_eq!(text_less(a, b), a < b);
        }
    }
}
