use smartass::text::{is_white_char, split_pieces, text_file_lines, trimmed_piece};

fn strings(items: &[&str]) -> Vec<String> {
    items.iter().map(|s| s.to_string()).collect()
}

#[test]
fn pieces_between_newlines() {
    assert_eq!(split_pieces(""), strings(&[""]));
    assert_eq!(split_pieces("a\nb"), strings(&["a", "b"]));
    assert_eq!(split_pieces("a\n"), strings(&["a", ""]));
    assert_eq!(split_pieces("\n\n"), strings(&["", "", ""]));
}

#[test]
fn file_lines_drop_final_newline_and_cr() {
    assert!(text_file_lines("").is_empty());
    assert_eq!(text_file_lines("a\r\nb\n"), strings(&["a", "b"]));
    assert_eq!(text_file_lines("a\n\nb"), strings(&["a", "", "b"]));
    assert_eq!(text_file_lines("tail\r"), strings(&["tail\r"]));
}

#[test]
fn file_lines_drop_leading_byte_order_marks() {
    assert_eq!(text_file_lines("\u{feff}\u{feff}x\n\u{feff}y"), strings(&["x", "\u{feff}y"]));
}

#[test]
fn trimmed_piece_of_a_range() {
    assert_eq!(trimmed_piece("ab  cd  ef", 2, 8), "cd");
    assert_eq!(trimmed_piece("   ", 0, 3), "");
    assert_eq!(trimmed_piece("x", 0, 0), "");
}

#[test]
fn white_space_agrees_with_std() {
    for c in ['\t', '\n', '\u{b}', '\u{c}', '\r', ' ', '\u{85}', '\u{a0}', '\u{1680}', '\u{2000}', '\u{200a}', '\u{2028}', '\u{2029}', '\u{202f}', '\u{205f}', '\u{3000}', 'a', '\u{200b}', '\u{feff}', '_'] {
        assert_eq!(is_white_char(c), c.is_whitespace(), "{:?}", c);
    }
}
