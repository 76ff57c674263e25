use acpied::buffer::TextBuffer;
use acpied::text::{chars_to_string, str_to_chars};

fn buf(lines: &[&str]) -> TextBuffer {
    let mut v: Vec<Vec<char>> = Vec::new();
    for l in lines {
        v.push(str_to_chars(l));
    }
    TextBuffer::from_lines(v)
}

fn line_of(b: &TextBuffer, r: usize) -> String {
    chars_to_string(&b.lines[r])
}

#[test]
fn insert_characters_and_newline() {
    let mut b = TextBuffer::new();
    b.insert_char('h');
    b.insert_char('i');
    assert_eq!(line_of(&b, 0), "hi");
    assert_eq!((b.row, b.col), (0, 2));
    b.insert_newline();
    assert_eq!(b.lines.len(), 2);
    assert_eq!(line_of(&b, 0), "hi");
    assert_eq!(line_of(&b, 1), "");
    assert_eq!((b.row, b.col), (1, 0));
}

#[test]
fn newline_splits_line_at_cursor() {
    let mut b = buf(&["abcd"]);
    b.move_forward();
    b.move_forward();
    b.insert_newline();
    assert_eq!(line_of(&b, 0), "ab");
    assert_eq!(line_of(&b, 1), "cd");
}

#[test]
fn delete_char_under_cursor() {
    let mut b = buf(&["abc"]);
    b.move_forward();
    b.delete_char();
    assert_eq!(line_of(&b, 0), "ac");
    // At the line end deleting does nothing.
    b.move_end();
    b.delete_char();
    assert_eq!(line_of(&b, 0), "ac");
}

#[test]
fn backspace_removes_before_cursor() {
    let mut b = buf(&["abc"]);
    b.move_end();
    b.backspace();
    assert_eq!(line_of(&b, 0), "ab");
    b.move_head();
    b.backspace();
    assert_eq!(line_of(&b, 0), "ab");
}

#[test]
fn clear_line_keeps_the_line() {
    let mut b = buf(&["one", "two"]);
    b.move_down();
    b.clear_line();
    assert_eq!(b.lines.len(), 2);
    assert_eq!(line_of(&b, 0), "one");
    assert_eq!(line_of(&b, 1), "");
    assert_eq!(b.col, 0);
}

#[test]
fn delete_word_removes_to_boundary() {
    let mut b = buf(&["foo bar baz"]);
    b.delete_word();
    assert_eq!(line_of(&b, 0), "bar baz");
    assert_eq!(b.col, 0);
}

#[test]
fn delete_word_mid_line() {
    let mut b = buf(&["foo bar baz"]);
    for _ in 0..4 {
        b.move_forward();
    }
    b.delete_word();
    assert_eq!(line_of(&b, 0), "foo baz");
}

#[test]
fn word_motions() {
    let mut b = buf(&["foo bar"]);
    b.move_next_word();
    assert_eq!(b.col, 4);
    b.move_prev_word();
    assert_eq!(b.col, 0);
}

#[test]
fn cursor_moves_clamp_and_wrap() {
    let mut b = buf(&["ab", "c"]);
    b.move_end();
    assert_eq!(b.col, 2);
    b.move_forward();
    assert_eq!((b.row, b.col), (1, 0));
    b.move_back();
    assert_eq!((b.row, b.col), (0, 2));
    b.move_down();
    assert_eq!((b.row, b.col), (1, 1));
    b.move_up();
    assert_eq!((b.row, b.col), (0, 1));
    b.move_bottom_head();
    assert_eq!((b.row, b.col), (1, 0));
    b.move_top();
    assert_eq!((b.row, b.col), (0, 0));
}

#[test]
fn page_motions_clamp() {
    let mut b = buf(&["a", "b", "c", "d"]);
    b.page_down(10);
    assert_eq!(b.row, 3);
    b.page_up(2);
    assert_eq!(b.row, 1);
    b.page_up(10);
    assert_eq!(b.row, 0);
}

#[test]
fn search_forward_finds_and_wraps() {
    let mut b = buf(&["alpha", "beta", "alpine"]);
    let pat = str_to_chars("al");
    b.search_forward(&pat);
    assert_eq!((b.row, b.col), (2, 0));
    b.search_forward(&pat);
    assert_eq!((b.row, b.col), (0, 0));
}

#[test]
fn search_back_finds_and_wraps() {
    let mut b = buf(&["alpha", "beta", "alpine"]);
    let pat = str_to_chars("al");
    b.search_back(&pat);
    assert_eq!((b.row, b.col), (2, 0));
    b.search_back(&pat);
    assert_eq!((b.row, b.col), (0, 0));
}

#[test]
fn search_without_match_keeps_cursor() {
    let mut b = buf(&["alpha", "beta"]);
    b.move_down();
    let pat = str_to_chars("zzz");
    b.search_forward(&pat);
    assert_eq!((b.row, b.col), (1, 0));
    b.search_back(&pat);
    assert_eq!((b.row, b.col), (1, 0));
}

#[test]
fn search_within_line_after_cursor() {
    let mut b = buf(&["aXbXc"]);
    let pat = str_to_chars("X");
    b.search_forward(&pat);
    assert_eq!((b.row, b.col), (0, 1));
    b.search_forward(&pat);
    assert_eq!((b.row, b.col), (0, 3));
}
