use chat_tui::text::{
    blank, chars_of, join_lines, trimmed_equals, white_space, wrap_to_width,
};

fn wrap(s: &str, w: usize) -> Vec<String> {
    wrap_to_width(s, w)
}

#[test]
fn ascii_wraps_every_width_columns() {
    assert_eq!(wrap("abcdef", 2), vec!["ab", "cd", "ef"]);
    assert_eq!(wrap("abcde", 2), vec!["ab", "cd", "e"]);
}

#[test]
fn fitting_text_stays_one_line() {
    assert_eq!(wrap("hello", 5), vec!["hello"]);
    assert_eq!(wrap("hello", 80), vec!["hello"]);
}

#[test]
fn empty_text_has_no_lines() {
    assert!(wrap("", 10).is_empty());
    assert!(wrap("", 0).is_empty());
}

#[test]
fn wide_characters_take_two_columns() {
    assert_eq!(wrap("你好世界", 4), vec!["你好", "世界"]);
    assert_eq!(wrap("你好世界", 3), vec!["你", "好", "世", "界"]);
    assert_eq!(wrap("a你b", 3), vec!["a你", "b"]);
}

#[test]
fn a_character_wider_than_the_line_stands_alone() {
    assert_eq!(wrap("你", 1), vec!["你"]);
    assert_eq!(wrap("ab", 0), vec!["a", "b"]);
}

#[test]
fn control_characters_take_no_column() {
    assert_eq!(wrap("a\tb", 1), vec!["a\t", "b"]);
    assert_eq!(wrap("a\nbc", 2), vec!["a\nb", "c"]);
}

#[test]
fn wrapped_lines_give_back_the_text() {
    let text = "The quick brown fox 跳过 the lazy dog. 🙂";
    for w in 0..12 {
        let pieces = wrap(text, w);
        assert_eq!(pieces.concat(), text);
        assert!(pieces.iter().all(|p| !p.is_empty()));
    }
}

#[test]
fn white_space_is_the_unicode_property() {
    for c in [' ', '\t', '\n', '\r', '\u{0b}', '\u{0c}', '\u{85}', '\u{a0}', '\u{2003}', '\u{3000}'] {
        assert!(white_space(c));
        assert!(c.is_whitespace());
    }
    for c in ['a', '0', '_', '\u{200b}', '你'] {
        assert!(!white_space(c));
        assert!(!c.is_whitespace());
    }
}

#[test]
fn blank_means_only_white_space() {
    assert!(blank(""));
    assert!(blank("  \n\t "));
    assert!(blank("\u{3000}"));
    assert!(!blank(" a "));
    assert!(!blank("x"));
}

#[test]
fn trimmed_equals_ignores_surrounding_space() {
    assert!(trimmed_equals("[DONE]", "[DONE]"));
    assert!(trimmed_equals("  [DONE]\n", "[DONE]"));
    assert!(!trimmed_equals("[DONE]x", "[DONE]"));
    assert!(!trimmed_equals("[DON E]", "[DONE]"));
    assert!(!trimmed_equals("", "[DONE]"));
    assert!(trimmed_equals("   ", ""));
}

#[test]
fn join_lines_puts_breaks_between() {
    assert_eq!(join_lines(&vec!["a".to_string(), "b".to_string(), "".to_string()]), "a\nb\n");
    assert_eq!(join_lines(&vec!["only".to_string()]), "only");
    assert_eq!(join_lines(&vec![]), "");
}

#[test]
fn chars_of_lists_characters() {
    assert_eq!(chars_of("a你"), vec!['a', '你']);
}
