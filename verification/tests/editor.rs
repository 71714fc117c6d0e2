use sura::editor::Editor;
use sura::editor::EditorAction;
use sura::editor::Mode;
use sura::message::KeyPress;

fn chars(s: &str) -> Vec<char> {
    s.chars().collect()
}

fn editor(lines: &[&str]) -> Editor {
    let lines: Vec<Vec<char>> = lines.iter().map(|l| chars(l)).collect();
    Editor::new(String::from("file.txt"), lines)
}

fn line_string(e: &Editor, i: usize) -> String {
    e.line(i).iter().collect()
}

#[test]
fn new_editor_starts_at_origin() {
    let e = editor(&["abc", "def"]);
    assert_eq!(e.line_count(), 2);
    assert_eq!(e.cursor_position(), (0, 0));
    assert_eq!(e.view_origin(), (0, 0));
    assert_eq!(e.current_mode(), Mode::Normal);
    assert_eq!(e.file_path().as_str(), "file.txt");
}

#[test]
fn empty_file_opens_as_one_empty_line() {
    let e = editor(&[]);
    assert_eq!(e.line_count(), 1);
    assert_eq!(line_string(&e, 0), "");
}

#[test]
fn insert_advances_cursor() {
    let mut e = editor(&["ac"]);
    e.cursor_forward();
    e.insert('b');
    assert_eq!(line_string(&e, 0), "abc");
    assert_eq!(e.cursor_position(), (0, 2));
}

#[test]
fn backspace_removes_previous_character() {
    let mut e = editor(&["abc"]);
    e.cursor_forward();
    e.cursor_forward();
    e.backspace();
    assert_eq!(line_string(&e, 0), "ac");
    assert_eq!(e.cursor_position(), (0, 1));
}

#[test]
fn backspace_at_line_start_joins_lines() {
    let mut e = editor(&["ab", "cd", "ef"]);
    e.cursor_down();
    e.backspace();
    assert_eq!(e.line_count(), 2);
    assert_eq!(line_string(&e, 0), "abcd");
    assert_eq!(line_string(&e, 1), "ef");
    assert_eq!(e.cursor_position(), (0, 2));
}

#[test]
fn backspace_at_buffer_start_changes_nothing() {
    let mut e = editor(&["ab"]);
    e.backspace();
    assert_eq!(line_string(&e, 0), "ab");
    assert_eq!(e.cursor_position(), (0, 0));
}

#[test]
fn nextline_splits_at_cursor() {
    let mut e = editor(&["abcd"]);
    e.cursor_forward();
    e.cursor_forward();
    e.nextline();
    assert_eq!(e.line_count(), 2);
    assert_eq!(line_string(&e, 0), "ab");
    assert_eq!(line_string(&e, 1), "cd");
    assert_eq!(e.cursor_position(), (1, 0));
}

#[test]
fn nextline_at_line_end_adds_empty_line() {
    let mut e = editor(&["ab"]);
    e.cursor_forward();
    e.cursor_forward();
    e.nextline();
    assert_eq!(line_string(&e, 0), "ab");
    assert_eq!(line_string(&e, 1), "");
}

#[test]
fn vertical_motion_keeps_the_chosen_column() {
    let mut e = editor(&["abcdef", "xy", "123456"]);
    for _ in 0..4 {
        e.cursor_forward();
    }
    assert_eq!(e.cursor_position(), (0, 4));
    e.cursor_down();
    // The short line clips the column, but the choice is remembered.
    assert_eq!(e.cursor_position(), (1, 2));
    e.cursor_down();
    assert_eq!(e.cursor_position(), (2, 4));
    e.cursor_up();
    assert_eq!(e.cursor_position(), (1, 2));
    e.cursor_up();
    assert_eq!(e.cursor_position(), (0, 4));
}

#[test]
fn cursor_stops_at_buffer_edges() {
    let mut e = editor(&["ab"]);
    e.cursor_up();
    assert_eq!(e.cursor_position(), (0, 0));
    e.cursor_back();
    assert_eq!(e.cursor_position(), (0, 0));
    e.cursor_down();
    assert_eq!(e.cursor_position(), (0, 0));
    e.cursor_forward();
    e.cursor_forward();
    e.cursor_forward();
    assert_eq!(e.cursor_position(), (0, 2));
}

#[test]
fn page_forward_moves_cursor_and_window() {
    let lines: Vec<String> = (0..50).map(|i| i.to_string()).collect();
    let refs: Vec<&str> = lines.iter().map(|s| s.as_str()).collect();
    let mut e = editor(&refs);
    e.page_forward(10);
    assert_eq!(e.cursor_position().0, 10);
    assert_eq!(e.view_origin().0, 10);
    e.page_forward(10);
    e.page_forward(10);
    e.page_forward(10);
    e.page_forward(10);
    // The cursor stops on the last line; the window keeps a full page visible.
    assert_eq!(e.cursor_position().0, 49);
    assert_eq!(e.view_origin().0, 40);
}

#[test]
fn page_back_stops_at_the_top() {
    let lines: Vec<String> = (0..50).map(|i| i.to_string()).collect();
    let refs: Vec<&str> = lines.iter().map(|s| s.as_str()).collect();
    let mut e = editor(&refs);
    e.page_forward(10);
    e.page_forward(10);
    e.page_back(10);
    assert_eq!(e.cursor_position().0, 10);
    assert_eq!(e.view_origin().0, 10);
    e.page_back(10);
    e.page_back(10);
    assert_eq!(e.cursor_position().0, 0);
    assert_eq!(e.view_origin().0, 0);
}

#[test]
fn scroll_follows_the_cursor() {
    let lines: Vec<String> = (0..50).map(|i| i.to_string()).collect();
    let refs: Vec<&str> = lines.iter().map(|s| s.as_str()).collect();
    let mut e = editor(&refs);
    for _ in 0..12 {
        e.cursor_down();
    }
    e.scroll_to_cursor(10);
    // The cursor sits on the last visible row.
    assert_eq!(e.view_origin().0, 3);
    for _ in 0..12 {
        e.cursor_up();
    }
    e.scroll_to_cursor(10);
    assert_eq!(e.view_origin().0, 0);
}

#[test]
fn typed_characters_insert_in_normal_mode() {
    let mut e = editor(&[""]);
    assert_eq!(e.keypress_handler(KeyPress::Character('h'), 10), EditorAction::Redraw);
    assert_eq!(e.keypress_handler(KeyPress::Character('i'), 10), EditorAction::Redraw);
    assert_eq!(line_string(&e, 0), "hi");
}

#[test]
fn command_mode_interprets_motions() {
    let mut e = editor(&["abc", "def"]);
    assert_eq!(e.keypress_handler(KeyPress::Control('F'), 10), EditorAction::Redraw);
    assert_eq!(e.current_mode(), Mode::Command);
    e.keypress_handler(KeyPress::Character('l'), 10);
    assert_eq!(e.cursor_position(), (0, 1));
    e.keypress_handler(KeyPress::Character('j'), 10);
    assert_eq!(e.cursor_position(), (1, 1));
    e.keypress_handler(KeyPress::Character('h'), 10);
    assert_eq!(e.cursor_position(), (1, 0));
    e.keypress_handler(KeyPress::Character('k'), 10);
    assert_eq!(e.cursor_position(), (0, 0));
    // Unbound command characters change nothing but still redraw.
    assert_eq!(e.keypress_handler(KeyPress::Character('z'), 10), EditorAction::Redraw);
    assert_eq!(line_string(&e, 0), "abc");
    // Toggling back resumes insertion.
    e.keypress_handler(KeyPress::Control('F'), 10);
    assert_eq!(e.current_mode(), Mode::Normal);
}

#[test]
fn carriage_return_breaks_the_line() {
    let mut e = editor(&["abcd"]);
    e.cursor_forward();
    assert_eq!(e.keypress_handler(KeyPress::CarriageReturn, 10), EditorAction::Redraw);
    assert_eq!(line_string(&e, 0), "a");
    assert_eq!(line_string(&e, 1), "bcd");
}

#[test]
fn delete_key_backspaces() {
    let mut e = editor(&["ab"]);
    e.cursor_forward();
    assert_eq!(e.keypress_handler(KeyPress::Delete, 10), EditorAction::Redraw);
    assert_eq!(line_string(&e, 0), "b");
}

#[test]
fn cursor_keys_move() {
    let mut e = editor(&["abc", "def"]);
    e.keypress_handler(KeyPress::CursorForward, 10);
    e.keypress_handler(KeyPress::CursorDown, 10);
    assert_eq!(e.cursor_position(), (1, 1));
    e.keypress_handler(KeyPress::CursorBack, 10);
    e.keypress_handler(KeyPress::CursorUp, 10);
    assert_eq!(e.cursor_position(), (0, 0));
}

#[test]
fn control_keys_request_save_and_quit() {
    let mut e = editor(&["abc"]);
    assert_eq!(e.keypress_handler(KeyPress::Control('S'), 10), EditorAction::Save);
    assert_eq!(e.keypress_handler(KeyPress::Control('Q'), 10), EditorAction::Quit);
    assert_eq!(line_string(&e, 0), "abc");
}

#[test]
fn unbound_keys_are_unsupported() {
    let mut e = editor(&["abc"]);
    assert_eq!(e.keypress_handler(KeyPress::BackSpace, 10), EditorAction::Unsupported);
    assert_eq!(e.keypress_handler(KeyPress::LineFeed, 10), EditorAction::Unsupported);
    assert_eq!(e.keypress_handler(KeyPress::Control('X'), 10), EditorAction::Unsupported);
    assert_eq!(line_string(&e, 0), "abc");
}

#[test]
fn word_motions_are_unsupported() {
    let mut e = editor(&["abc"]);
    e.keypress_handler(KeyPress::Control('F'), 10);
    assert_eq!(e.keypress_handler(KeyPress::Character('w'), 10), EditorAction::Unsupported);
    assert_eq!(e.keypress_handler(KeyPress::Character('W'), 10), EditorAction::Unsupported);
}

#[test]
fn multibyte_characters_count_as_single_columns() {
    let mut e = editor(&["aé↑"]);
    e.cursor_forward();
    e.cursor_forward();
    e.cursor_forward();
    assert_eq!(e.cursor_position(), (0, 3));
    e.backspace();
    assert_eq!(line_string(&e, 0), "aé");
    e.insert('𝄞');
    assert_eq!(line_string(&e, 0), "aé𝄞");
}

#[test]
fn paging_carries_the_cursor_column() {
    let lines: Vec<String> = (0..40).map(|i| format!("line number {}", i)).collect();
    let refs: Vec<&str> = lines.iter().map(|s| s.as_str()).collect();
    let mut e = editor(&refs);
    // Typing advances the column without touching the remembered column.
    for ch in "abc".chars() {
        e.insert(ch);
    }
    assert_eq!(e.cursor_position(), (0, 3));
    e.page_forward(10);
    // The column rides along to the new line rather than being reset.
    assert_eq!(e.cursor_position(), (10, 3));
    e.page_back(10);
    assert_eq!(e.cursor_position(), (0, 3));
}

#[test]
fn paging_clips_the_column_to_a_short_line() {
    let mut e = editor(&["abcdefgh", "xy", "tail"]);
    for _ in 0..6 {
        e.cursor_forward();
    }
    assert_eq!(e.cursor_position(), (0, 6));
    e.page_forward(1);
    // The next line is shorter: the column stops at its end.
    assert_eq!(e.cursor_position(), (1, 2));
}
