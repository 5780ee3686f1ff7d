use graze::handlers::sql_pad::{sql_command, SqlCommand, SqlEditor};
use graze::handlers::keys::Key;
use graze::input::autocomplete::AutocompleteState;
use graze::input::history::InputHistory;
use graze::input::{CharFilter, TextInput};

#[test]
fn text_input_insert_and_delete() {
    let mut t = TextInput::new();
    t.insert_char('a');
    t.insert_char('c');
    t.move_cursor_left();
    t.insert_char('b');
    assert_eq!(t.input, "abc");
    assert_eq!(t.cursor_pos, 2);
    assert!(t.delete_before_cursor());
    assert_eq!(t.input, "ac");
    assert_eq!(t.cursor_pos, 1);
    t.move_cursor_to_start();
    assert!(!t.delete_before_cursor());
    assert_eq!(t.input, "ac");
}

#[test]
fn text_input_insert_then_delete_restores() {
    let mut t = TextInput::new();
    t.set("héllo");
    t.move_cursor_left();
    t.move_cursor_left();
    let before = t.input.clone();
    let pos = t.cursor_pos;
    t.insert_char('ß');
    t.delete_before_cursor();
    assert_eq!(t.input, before);
    assert_eq!(t.cursor_pos, pos);
}

#[test]
fn text_input_byte_cursor_and_filter() {
    let mut t = TextInput::new();
    t.set("é1");
    assert_eq!(t.cursor_pos, 2);
    assert_eq!(t.cursor_byte_pos(), 3);
    t.move_cursor_left();
    assert_eq!(t.cursor_byte_pos(), 2);
    let mut d = TextInput::with_char_filter(CharFilter::AsciiDigit);
    d.insert_char('x');
    d.insert_char('7');
    assert_eq!(d.input, "7");
    d.move_cursor_right();
    assert_eq!(d.cursor_pos, 1);
    d.clear();
    assert!(d.is_empty());
}

#[test]
fn history_dedupes_and_bounds() {
    let mut h = InputHistory::new(2);
    h.push("a".to_string());
    h.push("b".to_string());
    h.push("a".to_string());
    h.push(String::new());
    assert_eq!(h.up(), Some("a"));
    assert_eq!(h.up(), Some("b"));
    assert_eq!(h.up(), Some("b"));
    assert_eq!(h.down(), Some("a"));
    assert_eq!(h.down(), None);
    h.push("c".to_string());
    assert_eq!(h.up(), Some("c"));
    assert_eq!(h.up(), Some("a"));
    h.reset_position();
    assert_eq!(h.down(), None);
}

#[test]
fn history_up_then_down_returns_to_blank() {
    let mut h = InputHistory::new(10);
    h.push("x = 1".to_string());
    assert_eq!(h.up(), Some("x = 1"));
    assert_eq!(h.down(), None);
    let mut empty = InputHistory::new(3);
    assert_eq!(empty.up(), None);
}

#[test]
fn autocomplete_wraps() {
    let mut a = AutocompleteState::new();
    assert_eq!(a.selected(), None);
    a.set_suggestions(vec!["id".to_string(), "name".to_string(), "age".to_string()]);
    assert!(a.active);
    assert_eq!(a.selected(), Some("id"));
    a.move_up();
    assert_eq!(a.selected(), Some("age"));
    a.move_down();
    assert_eq!(a.selected(), Some("id"));
    a.move_down();
    a.move_down();
    a.move_down();
    assert_eq!(a.selected(), Some("id"));
    a.set_suggestions(Vec::new());
    assert!(!a.active);
    a.clear();
    assert_eq!(a.selected_index, 0);
}

#[test]
fn sql_keys() {
    assert_eq!(sql_command(Key::F(5), false), SqlCommand::Execute);
    assert_eq!(sql_command(Key::Char('e'), true), SqlCommand::Execute);
    assert_eq!(sql_command(Key::Enter, true), SqlCommand::Execute);
    assert_eq!(sql_command(Key::Enter, false), SqlCommand::Newline);
    assert_eq!(sql_command(Key::Char('t'), true), SqlCommand::ResultToTab);
    assert_eq!(sql_command(Key::Char('e'), false), SqlCommand::Insert('e'));
    assert_eq!(sql_command(Key::Esc, false), SqlCommand::Leave);
    assert_eq!(sql_command(Key::F(2), false), SqlCommand::Nothing);
}

#[test]
fn sql_editor_edits_lines() {
    let mut e = SqlEditor::new();
    for c in "SELECT 1".chars() {
        e.edit(SqlCommand::Insert(c));
    }
    assert_eq!(e.lines, vec!["SELECT 1".to_string()]);
    for _ in 0..2 {
        e.edit(SqlCommand::Left);
    }
    e.edit(SqlCommand::Newline);
    assert_eq!(e.lines, vec!["SELECT".to_string(), " 1".to_string()]);
    assert_eq!((e.cursor_row, e.cursor_col), (1, 0));
    e.edit(SqlCommand::Backspace);
    assert_eq!(e.lines, vec!["SELECT 1".to_string()]);
    assert_eq!((e.cursor_row, e.cursor_col), (0, 6));
    e.edit(SqlCommand::Backspace);
    assert_eq!(e.lines, vec!["SELEC 1".to_string()]);
    e.edit(SqlCommand::Right);
    e.edit(SqlCommand::Right);
    e.edit(SqlCommand::Right);
    assert_eq!(e.cursor_col, 7);
    assert_eq!(e.statement(), Some("SELEC 1".to_string()));
}

#[test]
fn sql_editor_at_most_five_lines() {
    let mut e = SqlEditor::new();
    for _ in 0..10 {
        e.edit(SqlCommand::Newline);
    }
    assert_eq!(e.lines.len(), 5);
    assert_eq!(e.statement(), None);
    e.edit(SqlCommand::Up);
    e.edit(SqlCommand::Up);
    assert_eq!(e.cursor_row, 2);
    e.edit(SqlCommand::Down);
    assert_eq!(e.cursor_row, 3);
}
