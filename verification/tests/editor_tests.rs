use acpied::editor::{AcpiEditor, KeyCode, KeyInput, Mode, Outcome};
use acpied::stamp::Stamp;
use acpied::text::{chars_to_string, str_to_chars};

fn at() -> Stamp {
    Stamp { year: 2024, month: 3, day: 7, hour: 9, minute: 5, second: 30 }
}

fn doc_lines(lines: &[&str]) -> Vec<Vec<char>> {
    let mut v: Vec<Vec<char>> = Vec::new();
    for l in lines {
        v.push(str_to_chars(l));
    }
    v
}

/// A workspace over documents A, B, C, each one line, content == baseline.
fn workspace() -> AcpiEditor {
    let mut e = AcpiEditor::new();
    e.add_document(str_to_chars("B"), doc_lines(&["bee"]), doc_lines(&["bee"]));
    e.add_document(str_to_chars("A"), doc_lines(&["aaa"]), doc_lines(&["aaa"]));
    e.add_document(str_to_chars("C"), doc_lines(&["ccc"]), doc_lines(&["ccc"]));
    e
}

fn modified_names(e: &AcpiEditor) -> Vec<String> {
    let mut r = Vec::new();
    for n in e.modified.items.iter() {
        r.push(chars_to_string(n));
    }
    r
}

fn key(c: char) -> KeyInput {
    KeyInput { code: KeyCode::Char(c), ctrl: false }
}

fn ctrl(c: char) -> KeyInput {
    KeyInput { code: KeyCode::Char(c), ctrl: true }
}

#[test]
fn documents_are_sorted_by_name() {
    let e = workspace();
    assert_eq!(chars_to_string(&e.files.items[0].name), "A");
    assert_eq!(chars_to_string(&e.files.items[1].name), "B");
    assert_eq!(chars_to_string(&e.files.items[2].name), "C");
    assert!(modified_names(&e).is_empty());
}

#[test]
fn select_loads_content_and_logs() {
    let mut e = workspace();
    e.files.selected = Some(1);
    let line = e.select_dsl_file(&at()).unwrap();
    assert_eq!(line, "|2024-03-07 09:05:30| B selected");
    assert_eq!(chars_to_string(&e.content.lines[0]), "bee");
    assert_eq!(e.log.len(), 1);
}

#[test]
fn edit_and_revert_updates_modified_set() {
    // Edit A by appending a character: the modified set becomes {A};
    // undoing the edit empties it again.
    let mut e = workspace();
    e.files.selected = Some(0);
    e.select_dsl_file(&at());
    e.content.move_end();
    e.insert('x');
    assert_eq!(chars_to_string(&e.content.lines[0]), "aaax");
    assert_eq!(modified_names(&e), vec!["A".to_string()]);
    e.undo();
    assert_eq!(chars_to_string(&e.content.lines[0]), "aaa");
    assert!(modified_names(&e).is_empty());
}

#[test]
fn undo_with_empty_history_is_harmless() {
    let mut e = workspace();
    e.files.selected = Some(0);
    e.select_dsl_file(&at());
    e.undo();
    assert_eq!(chars_to_string(&e.content.lines[0]), "aaa");
    assert!(modified_names(&e).is_empty());
}

#[test]
fn chord_d_once_is_only_pending() {
    let mut e = workspace();
    e.files.selected = Some(0);
    e.select_dsl_file(&at());
    let (o, _) = e.handle_input(key('d'), &at(), 1);
    assert!(matches!(o, Outcome::Continue));
    assert_eq!(e.last_char, 'd');
    assert_eq!(chars_to_string(&e.content.lines[0]), "aaa");
    assert!(modified_names(&e).is_empty());
}

#[test]
fn chord_d_d_clears_the_line() {
    let mut e = workspace();
    e.files.selected = Some(0);
    e.select_dsl_file(&at());
    e.handle_input(key('d'), &at(), 1);
    e.handle_input(key('d'), &at(), 1);
    assert_eq!(e.last_char, ' ');
    assert_eq!(e.content.lines.len(), 1);
    assert_eq!(chars_to_string(&e.content.lines[0]), "");
    assert_eq!(modified_names(&e), vec!["A".to_string()]);
}

#[test]
fn chord_d_then_motion_deletes_nothing() {
    let mut e = workspace();
    e.files.selected = Some(0);
    e.select_dsl_file(&at());
    e.handle_input(key('d'), &at(), 1);
    e.handle_input(key('l'), &at(), 1);
    assert_eq!(chars_to_string(&e.content.lines[0]), "aaa");
    assert!(modified_names(&e).is_empty());
    // The pending chord survives an unrelated motion: the single-slot
    // memory is only ever rewritten by the chord keys themselves.
    assert_eq!(e.last_char, 'd');
}

#[test]
fn chord_d_w_deletes_word() {
    let mut e = workspace();
    e.files.selected = Some(0);
    e.files.items[0].content = doc_lines(&["foo bar"]);
    e.files.items[0].baseline = doc_lines(&["foo bar"]);
    e.select_dsl_file(&at());
    e.handle_input(key('d'), &at(), 1);
    e.handle_input(key('w'), &at(), 1);
    assert_eq!(chars_to_string(&e.content.lines[0]), "bar");
    assert_eq!(e.last_char, 'w');
    assert_eq!(modified_names(&e), vec!["A".to_string()]);
}

#[test]
fn w_without_pending_d_only_moves() {
    let mut e = workspace();
    e.files.selected = Some(0);
    e.files.items[0].content = doc_lines(&["foo bar"]);
    e.files.items[0].baseline = doc_lines(&["foo bar"]);
    e.select_dsl_file(&at());
    e.handle_input(key('w'), &at(), 1);
    assert_eq!(chars_to_string(&e.content.lines[0]), "foo bar");
    assert_eq!(e.content.col, 4);
    assert_eq!(e.last_char, 'w');
}

#[test]
fn gg_jumps_to_start() {
    let mut e = workspace();
    e.files.selected = Some(0);
    e.files.items[0].content = doc_lines(&["one", "two", "three"]);
    e.files.items[0].baseline = doc_lines(&["one", "two", "three"]);
    e.select_dsl_file(&at());
    e.handle_input(key('j'), &at(), 1);
    e.handle_input(key('j'), &at(), 1);
    assert_eq!(e.content.row, 2);
    e.handle_input(key('g'), &at(), 1);
    assert_eq!(e.content.row, 2);
    assert_eq!(e.last_char, 'g');
    e.handle_input(key('g'), &at(), 1);
    assert_eq!((e.content.row, e.content.col), (0, 0));
    assert_eq!(e.last_char, ' ');
}

#[test]
fn modes_switch_as_the_table_says() {
    let mut e = workspace();
    e.files.selected = Some(0);
    e.select_dsl_file(&at());
    e.handle_input(key('i'), &at(), 1);
    assert!(matches!(e.mode, Mode::Insert));
    e.handle_input(KeyInput { code: KeyCode::Esc, ctrl: false }, &at(), 1);
    assert!(matches!(e.mode, Mode::Normal));
    e.handle_input(key('/'), &at(), 1);
    assert!(matches!(e.mode, Mode::Search));
    assert_eq!(chars_to_string(&e.search_pattern), "/");
    e.handle_input(key('c'), &at(), 1);
    assert_eq!(chars_to_string(&e.search_pattern), "/c");
    e.handle_input(KeyInput { code: KeyCode::Enter, ctrl: false }, &at(), 1);
    assert!(matches!(e.mode, Mode::Normal));
    assert_eq!(chars_to_string(&e.active_pattern), "c");
}

#[test]
fn insert_mode_edits_and_tracks_dirty() {
    let mut e = workspace();
    e.files.selected = Some(2);
    e.select_dsl_file(&at());
    e.handle_input(key('i'), &at(), 1);
    e.handle_input(key('z'), &at(), 1);
    assert_eq!(chars_to_string(&e.content.lines[0]), "zccc");
    assert_eq!(modified_names(&e), vec!["C".to_string()]);
    assert_eq!(chars_to_string(&e.files.items[2].content[0]), "zccc");
}

#[test]
fn quit_and_apply_outcomes() {
    let mut e = workspace();
    let (o, _) = e.handle_input(ctrl('c'), &at(), 1);
    assert!(matches!(o, Outcome::Quit));
    let (o, _) = e.handle_input(ctrl('a'), &at(), 1);
    assert!(matches!(o, Outcome::Continue));
}

#[test]
fn apply_with_empty_set_invokes_nothing_and_logs_nothing() {
    let e = workspace();
    assert!(e.apply_request().is_none());
    assert_eq!(e.log.len(), 0);
}

#[test]
fn apply_with_results_logs_each_stdout_line() {
    let mut e = workspace();
    // Make A and C diverge so that ModifiedSet = {A, C}.
    e.files.selected = Some(0);
    e.select_dsl_file(&at());
    e.insert('x');
    e.files.selected = Some(2);
    e.select_dsl_file(&at());
    e.insert('y');
    assert_eq!(modified_names(&e), vec!["A".to_string(), "C".to_string()]);
    let arg = e.apply_request().unwrap();
    assert_eq!(arg, "A,C");
    let before = e.log.len();
    let sink = e.apply_result(true, &str_to_chars("ok A\nok C\n"), &at());
    assert_eq!(sink.len(), 2);
    assert_eq!(sink[0], "|2024-03-07 09:05:30| ok A");
    assert_eq!(sink[1], "|2024-03-07 09:05:30| ok C");
    assert_eq!(e.log.len(), before + 2);
    // The apply call itself leaves the modified set alone.
    assert_eq!(modified_names(&e), vec!["A".to_string(), "C".to_string()]);
}

#[test]
fn apply_failure_logs_empty_lines_too() {
    let mut e = workspace();
    let sink = e.apply_result(false, &str_to_chars("boom\n"), &at());
    assert_eq!(sink.len(), 2);
    assert_eq!(sink[0], "|2024-03-07 09:05:30| boom");
    assert_eq!(sink[1], "|2024-03-07 09:05:30| ");
}

#[test]
fn document_navigation_wraps_and_logs() {
    let mut e = workspace();
    let line = e.handle_input(KeyInput { code: KeyCode::Down, ctrl: false }, &at(), 1).1;
    assert_eq!(e.files.selected, Some(0));
    assert_eq!(line.unwrap(), "|2024-03-07 09:05:30| A selected");
    e.handle_input(KeyInput { code: KeyCode::Up, ctrl: false }, &at(), 1);
    assert_eq!(e.files.selected, Some(2));
}

#[test]
fn open_line_below_enters_insert() {
    let mut e = workspace();
    e.files.selected = Some(0);
    e.select_dsl_file(&at());
    e.handle_input(key('o'), &at(), 1);
    assert!(matches!(e.mode, Mode::Insert));
    assert_eq!(e.content.lines.len(), 2);
    assert_eq!(chars_to_string(&e.content.lines[1]), "");
    assert_eq!((e.content.row, e.content.col), (1, 0));
    assert_eq!(modified_names(&e), vec!["A".to_string()]);
}

#[test]
fn delete_char_command_persists() {
    let mut e = workspace();
    e.files.selected = Some(1);
    e.select_dsl_file(&at());
    e.handle_input(key('x'), &at(), 1);
    assert_eq!(chars_to_string(&e.content.lines[0]), "ee");
    assert_eq!(modified_names(&e), vec!["B".to_string()]);
}

#[test]
fn construction_marks_already_diverged_documents() {
    let mut e = AcpiEditor::new();
    e.add_document(str_to_chars("D"), doc_lines(&["base"]), doc_lines(&["changed"]));
    e.add_document(str_to_chars("E"), doc_lines(&["same"]), doc_lines(&["same"]));
    assert_eq!(modified_names(&e), vec!["D".to_string()]);
}

#[test]
fn modified_set_stays_sorted_whatever_the_edit_order() {
    let mut e = workspace();
    e.files.selected = Some(2);
    e.select_dsl_file(&at());
    e.insert('y');
    e.files.selected = Some(0);
    e.select_dsl_file(&at());
    e.insert('x');
    assert_eq!(modified_names(&e), vec!["A".to_string(), "C".to_string()]);
}

#[test]
fn escape_in_search_mode_discards_the_pattern_edit() {
    let mut e = workspace();
    e.handle_input(key('/'), &at(), 1);
    e.handle_input(key('q'), &at(), 1);
    e.handle_input(KeyInput { code: KeyCode::Esc, ctrl: false }, &at(), 1);
    assert!(matches!(e.mode, Mode::Normal));
    // The committed pattern is untouched by the abandoned edit.
    assert_eq!(chars_to_string(&e.active_pattern), "");
}

#[test]
fn search_repeat_moves_to_committed_pattern() {
    let mut e = workspace();
    e.files.selected = Some(1);
    e.files.items[1].content = doc_lines(&["one bee", "two bee"]);
    e.files.items[1].baseline = doc_lines(&["one bee", "two bee"]);
    e.select_dsl_file(&at());
    e.handle_input(key('/'), &at(), 1);
    e.handle_input(key('b'), &at(), 1);
    e.handle_input(key('e'), &at(), 1);
    e.handle_input(KeyInput { code: KeyCode::Enter, ctrl: false }, &at(), 1);
    e.handle_input(key('n'), &at(), 1);
    assert_eq!((e.content.row, e.content.col), (0, 4));
    e.handle_input(key('n'), &at(), 1);
    assert_eq!((e.content.row, e.content.col), (1, 4));
    e.handle_input(key('N'), &at(), 1);
    assert_eq!((e.content.row, e.content.col), (0, 4));
}
