use vision::buffer::Buffer;
use vision::cursor::{Cursor, CursorPosition};
use vision::editor::{Direction, Editor};
use vision::history::{Action, History};
use vision::mode::{CommandMode, CommandStep, InsertMode, Key, Mode, NormalMode, NormalStep};

fn chars(s: &str) -> Vec<char> {
    s.chars().collect()
}

fn editor_with_lines(lines: &[&str]) -> Editor {
    let mut b = Buffer::new(None);
    b.set_line(0, chars(lines[0]), Action::Do);
    for (i, l) in lines.iter().enumerate().skip(1) {
        b.insert_line(i, chars(l), Action::Do);
    }
    Editor::new(b)
}

fn line(e: &Editor, row: usize) -> Vec<char> {
    e.file.get_line(row).expect("line should exist").clone()
}

#[test]
fn new_editor_starts_in_normal_mode() {
    let e = Editor::new(Buffer::new(None));
    assert_eq!(e.mode, Mode::Normal);
    assert!(e.prev_cursor_col.is_none());
}

#[test]
fn status_labels() {
    assert_eq!(Mode::Normal.status_label(), "--NORMAL MODE--");
    assert_eq!(Mode::Insert.status_label(), "--INSERT MODE--");
    assert_eq!(Mode::Command.status_label(), "--COMMAND MODE--");
}

#[test]
fn direction_add_steps_one() {
    assert_eq!(Direction::Up.add((3, 5)), (3, 4));
    assert_eq!(Direction::Down.add((3, 5)), (3, 6));
    assert_eq!(Direction::Left.add((3, 5)), (2, 5));
    assert_eq!(Direction::Right.add((3, 5)), (4, 5));
}

// Typing `(` on an empty line yields `()` with the cursor between the two
// characters; typing `)` right after moves over it without inserting another.
#[test]
fn auto_pairing_open_then_close() {
    let mut e = editor_with_lines(&[""]);
    let pos = InsertMode.process_char(&mut e, 0, 0, '(');
    assert_eq!(line(&e, 0), chars("()"));
    assert_eq!(pos, (1, 0));
    let pos2 = InsertMode.process_char(&mut e, pos.0, pos.1, ')');
    assert_eq!(line(&e, 0), chars("()"));
    assert_eq!(pos2, (2, 0));
}

#[test]
fn quotes_pair_with_themselves() {
    let mut e = editor_with_lines(&[""]);
    let pos = InsertMode.process_char(&mut e, 0, 0, '"');
    assert_eq!(line(&e, 0), chars("\"\""));
    assert_eq!(pos, (1, 0));
}

#[test]
fn plain_character_inserts_once() {
    let mut e = editor_with_lines(&["bc"]);
    let pos = InsertMode.process_char(&mut e, 0, 0, 'a');
    assert_eq!(line(&e, 0), chars("abc"));
    assert_eq!(pos, (1, 0));
}

// Given `()` with the cursor between the parens, one Backspace removes both
// characters at once.
#[test]
fn backspace_removes_pair_atomically() {
    let mut e = editor_with_lines(&["()"]);
    let pos = InsertMode.process_backspace(&mut e, 1, 0);
    assert_eq!(line(&e, 0), Vec::<char>::new());
    assert_eq!(pos, (0, 0));
}

#[test]
fn backspace_removes_single_char() {
    let mut e = editor_with_lines(&["ab"]);
    let pos = InsertMode.process_backspace(&mut e, 2, 0);
    assert_eq!(line(&e, 0), chars("a"));
    assert_eq!(pos, (1, 0));
}

#[test]
fn backspace_at_line_start_joins_lines() {
    let mut e = editor_with_lines(&["ab", "cd"]);
    let pos = InsertMode.process_backspace(&mut e, 0, 1);
    assert_eq!(e.file.length(), 1);
    assert_eq!(line(&e, 0), chars("abcd"));
    assert_eq!(pos, (2, 0));
}

#[test]
fn backspace_at_document_start_is_no_op() {
    let mut e = editor_with_lines(&["ab"]);
    let pos = InsertMode.process_backspace(&mut e, 0, 0);
    assert_eq!(line(&e, 0), chars("ab"));
    assert_eq!(pos, (0, 0));
}

// Enter between `{` and `}` yields three lines — the opener, an indented
// blank line, the closer — with the cursor on the middle line.
#[test]
fn enter_inside_brace_pair_opens_block() {
    let mut e = editor_with_lines(&["{}"]);
    let pos = InsertMode.process_enter(&mut e, 1, 0);
    assert_eq!(e.file.length(), 3);
    assert_eq!(line(&e, 0), chars("{"));
    assert_eq!(line(&e, 1), chars("    "));
    assert_eq!(line(&e, 2), chars("}"));
    assert_eq!(pos, (4, 1));
}

#[test]
fn enter_splits_line_and_keeps_indentation() {
    let mut e = editor_with_lines(&["  hello world"]);
    let pos = InsertMode.process_enter(&mut e, 7, 0);
    assert_eq!(e.file.length(), 2);
    assert_eq!(line(&e, 0), chars("  hello"));
    assert_eq!(line(&e, 1), chars("   world"));
    assert_eq!(pos, (2, 1));
}

#[test]
fn enter_at_line_end_adds_indented_continuation() {
    let mut e = editor_with_lines(&["    x"]);
    let pos = InsertMode.process_enter(&mut e, 5, 0);
    assert_eq!(e.file.length(), 2);
    assert_eq!(line(&e, 0), chars("    x"));
    assert_eq!(line(&e, 1), chars("    "));
    assert_eq!(pos, (4, 1));
}

#[test]
fn tab_fills_to_next_tab_stop() {
    let mut e = editor_with_lines(&[""]);
    let pos = InsertMode.process_tab(&mut e, 0, 0);
    assert_eq!(line(&e, 0), chars("    "));
    assert_eq!(pos, (4, 0));

    let mut e2 = editor_with_lines(&["abc"]);
    let pos2 = InsertMode.process_tab(&mut e2, 3, 0);
    assert_eq!(line(&e2, 0), chars("abc "));
    assert_eq!(pos2, (4, 0));
}

#[test]
fn move_left_and_right_respect_line_bounds() {
    let mut e = editor_with_lines(&["ab"]);
    assert_eq!(e.move_cursor(Direction::Left, (0, 0), 10), None);
    assert_eq!(e.move_cursor(Direction::Left, (2, 0), 10), Some(((1, 0), false)));
    assert_eq!(e.move_cursor(Direction::Right, (0, 0), 10), Some(((1, 0), false)));
    // one past the end is the insert position; further right stays put
    assert_eq!(e.move_cursor(Direction::Right, (1, 0), 10), Some(((2, 0), false)));
    assert_eq!(e.move_cursor(Direction::Right, (2, 0), 10), Some(((2, 0), false)));
}

#[test]
fn move_down_and_up_between_lines() {
    let mut e = editor_with_lines(&["abc", "xyz"]);
    assert_eq!(e.move_cursor(Direction::Down, (1, 0), 10), Some(((1, 1), false)));
    assert_eq!(e.move_cursor(Direction::Up, (1, 1), 10), Some(((1, 0), false)));
    // moving up from the top without scroll room is refused
    assert_eq!(e.move_cursor(Direction::Up, (1, 0), 10), None);
}

#[test]
fn vertical_move_onto_short_line_lands_at_its_end() {
    let mut e = editor_with_lines(&["abcdef", "xy"]);
    assert_eq!(e.move_cursor(Direction::Down, (5, 0), 10), Some(((2, 1), false)));
}

// Crossing an empty line remembers the column and restores it on a
// long-enough line.
#[test]
fn sticky_column_restores_after_empty_line() {
    let mut e = editor_with_lines(&["abcdef", "", "uvwxyz"]);
    assert_eq!(e.move_cursor(Direction::Down, (4, 0), 10), Some(((0, 1), false)));
    assert_eq!(e.prev_cursor_col, Some(4));
    assert_eq!(e.move_cursor(Direction::Down, (0, 1), 10), Some(((4, 2), false)));
    assert_eq!(e.prev_cursor_col, None);
}

#[test]
fn moving_down_past_viewport_scrolls_once_per_step() {
    let mut e = editor_with_lines(&["l0", "l1", "l2", "l3", "l4"]);
    // viewport of 2 rows: cursor on bottom row 1
    let step = e.move_cursor(Direction::Down, (0, 1), 1);
    assert_eq!(step, Some(((0, 1), true)));
    assert_eq!(e.file.start, 1);
    let step2 = e.move_cursor(Direction::Down, (0, 1), 1);
    assert_eq!(step2, Some(((0, 1), true)));
    assert_eq!(e.file.start, 2);
}

#[test]
fn moving_up_at_top_scrolls_back() {
    let mut e = editor_with_lines(&["l0", "l1", "l2"]);
    e.file.start = 1;
    let step = e.move_cursor(Direction::Up, (0, 0), 10);
    assert_eq!(step, Some(((0, 0), true)));
    assert_eq!(e.file.start, 0);
}

#[test]
fn home_position_is_end_of_last_visible_line() {
    let e = editor_with_lines(&["ab", "cdef"]);
    assert_eq!(e.home_position(10), Some((4, 1)));
    let tall = editor_with_lines(&["a", "b", "c", "d"]);
    assert_eq!(tall.home_position(2), Some((1, 2)));
}

#[test]
fn normal_mode_dispatches_keys() {
    let mut e = editor_with_lines(&["ab"]);
    assert_eq!(NormalMode.handle_key(&mut e, Key::Char(':'), (0, 0), 10), NormalStep::ToCommand);
    assert_eq!(NormalMode.handle_key(&mut e, Key::Char('i'), (0, 0), 10), NormalStep::ToInsert);
    assert_eq!(
        NormalMode.handle_key(&mut e, Key::Char('l'), (0, 0), 10),
        NormalStep::Moved(Some(((1, 0), false)))
    );
    assert_eq!(NormalMode.handle_key(&mut e, Key::Char('q'), (0, 0), 10), NormalStep::Idle);
    assert_eq!(NormalMode.handle_key(&mut e, Key::Other, (0, 0), 10), NormalStep::Idle);
}

#[test]
fn normal_mode_undo_and_redo_keys() {
    let mut e = editor_with_lines(&[""]);
    InsertMode.process_char(&mut e, 0, 0, 'a');
    assert_eq!(NormalMode.handle_key(&mut e, Key::Char('u'), (0, 0), 10), NormalStep::Undone);
    assert_eq!(line(&e, 0), Vec::<char>::new());
    // a plain 'r' does nothing; only Ctrl-r redoes
    assert_eq!(NormalMode.handle_key(&mut e, Key::Char('r'), (0, 0), 10), NormalStep::Idle);
    assert_eq!(line(&e, 0), Vec::<char>::new());
    assert_eq!(NormalMode.handle_key(&mut e, Key::Ctrl('r'), (0, 0), 10), NormalStep::Redone);
    assert_eq!(line(&e, 0), chars("a"));
    // undo works with or without the control modifier
    assert_eq!(NormalMode.handle_key(&mut e, Key::Ctrl('u'), (0, 0), 10), NormalStep::Undone);
    assert_eq!(line(&e, 0), Vec::<char>::new());
}

#[test]
fn command_mode_accumulates_and_submits() {
    let mut l: Vec<char> = Vec::new();
    assert_eq!(CommandMode.handle_key(&mut l, Key::Char('w')), CommandStep::Typed);
    assert_eq!(CommandMode.handle_key(&mut l, Key::Char('q')), CommandStep::Typed);
    assert_eq!(l, chars("wq"));
    assert_eq!(CommandMode.handle_key(&mut l, Key::Backspace), CommandStep::Deleted);
    assert_eq!(l, chars("w"));
    assert_eq!(CommandMode.handle_key(&mut l, Key::Enter), CommandStep::Submitted);
    assert_eq!(l, chars("w"));
    assert_eq!(CommandMode.handle_key(&mut l, Key::Esc), CommandStep::Idle);
}

#[test]
fn command_mode_backspace_on_empty_aborts() {
    let mut l: Vec<char> = Vec::new();
    assert_eq!(CommandMode.handle_key(&mut l, Key::Backspace), CommandStep::Aborted);
    assert!(l.is_empty());
}

#[test]
fn editor_undo_restores_cursor_coordinate() {
    let mut h: History<CursorPosition> = History::new();
    h.update(CursorPosition::new((1, 2), (3, 4)), Action::Do);
    let mut c = Cursor::new(h);
    assert_eq!(c.undo(), Some((1, 2)));
    assert_eq!(c.undo(), None);
    assert_eq!(c.redo(), Some((3, 4)));
    assert_eq!(c.redo(), None);
}

#[test]
fn editor_set_mode_switches() {
    let mut e = editor_with_lines(&[""]);
    e.set_mode(Mode::Insert);
    assert_eq!(e.mode, Mode::Insert);
    e.set_mode(Mode::Normal);
    assert_eq!(e.mode, Mode::Normal);
}
