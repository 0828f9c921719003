use vision::buffer::Buffer;
use vision::history::{Action, History, Redo, Undo};

fn line(b: &Buffer, row: usize) -> Vec<char> {
    b.get_line(row).expect("line should exist").clone()
}

fn chars(s: &str) -> Vec<char> {
    s.chars().collect()
}

#[test]
fn new_buffer_has_one_empty_line() {
    let b = Buffer::new(None);
    assert_eq!(b.length(), 1);
    assert_eq!(line(&b, 0), Vec::<char>::new());
    assert!(!b.modified);
    assert_eq!(b.start, 0);
    assert!(b.path.is_none());
}

#[test]
fn insert_and_delete_char() {
    let mut b = Buffer::new(None);
    b.insert_char(0, 0, 'a', Action::Do);
    b.insert_char(0, 1, 'b', Action::Do);
    b.insert_char(0, 1, 'c', Action::Do);
    assert_eq!(line(&b, 0), chars("acb"));
    assert!(b.modified);
    b.delete_char(0, 1, Action::Do);
    assert_eq!(line(&b, 0), chars("ab"));
}

#[test]
fn insert_char_past_end_appends() {
    let mut b = Buffer::new(None);
    b.insert_char(0, 0, 'a', Action::Do);
    b.insert_char(0, 99, 'z', Action::Do);
    assert_eq!(line(&b, 0), chars("az"));
}

#[test]
fn out_of_range_operations_are_no_ops() {
    let mut b = Buffer::new(None);
    b.insert_char(5, 0, 'a', Action::Do);
    b.delete_char(0, 0, Action::Do);
    b.delete_line(7, Action::Do);
    b.set_line(3, chars("zz"), Action::Do);
    assert_eq!(b.length(), 1);
    assert_eq!(line(&b, 0), Vec::<char>::new());
}

#[test]
fn set_line_replaces_content() {
    let mut b = Buffer::new(None);
    b.set_line(0, chars("hello"), Action::Do);
    assert_eq!(line(&b, 0), chars("hello"));
    assert!(b.modified);
}

#[test]
fn insert_line_within_and_past_end() {
    let mut b = Buffer::new(None);
    b.set_line(0, chars("mid"), Action::Do);
    b.insert_line(0, chars("top"), Action::Do);
    b.insert_line(9, chars("bottom"), Action::Do);
    assert_eq!(b.length(), 3);
    assert_eq!(line(&b, 0), chars("top"));
    assert_eq!(line(&b, 1), chars("mid"));
    assert_eq!(line(&b, 2), chars("bottom"));
}

#[test]
fn delete_line_removes_row() {
    let mut b = Buffer::new(None);
    b.insert_line(0, chars("first"), Action::Do);
    assert_eq!(b.length(), 2);
    b.delete_line(0, Action::Do);
    assert_eq!(b.length(), 1);
    assert_eq!(line(&b, 0), Vec::<char>::new());
}

// Inserting a line and immediately deleting it at the same row leaves the
// document unchanged.
#[test]
fn insert_then_delete_line_is_identity() {
    let mut b = Buffer::new(None);
    b.set_line(0, chars("aa"), Action::Do);
    b.insert_line(1, chars("bb"), Action::Do);
    let before: Vec<Vec<char>> = vec![line(&b, 0), line(&b, 1)];
    b.insert_line(1, chars("inserted"), Action::Do);
    b.delete_line(1, Action::Do);
    assert_eq!(b.length(), 2);
    assert_eq!(line(&b, 0), before[0]);
    assert_eq!(line(&b, 1), before[1]);
}

#[test]
fn undo_reverses_single_insert() {
    let mut b = Buffer::new(None);
    b.insert_char(0, 0, 'a', Action::Do);
    b.undo();
    assert_eq!(line(&b, 0), Vec::<char>::new());
}

#[test]
fn undo_reverses_delete_and_redo_replays_it() {
    let mut b = Buffer::new(None);
    b.set_line(0, chars("abc"), Action::Do);
    b.delete_char(0, 1, Action::Do);
    assert_eq!(line(&b, 0), chars("ac"));
    b.undo();
    assert_eq!(line(&b, 0), chars("abc"));
    b.redo();
    assert_eq!(line(&b, 0), chars("ac"));
}

// A run of character insertions and deletions on one line, undone until the
// history is exhausted, restores the original content exactly.
#[test]
fn undo_exhausts_history_and_restores_line() {
    let mut b = Buffer::new(None);
    b.set_line(0, chars("base"), Action::Do);
    let original = line(&b, 0);
    b.insert_char(0, 4, '1', Action::Do);
    b.insert_char(0, 2, '2', Action::Do);
    b.delete_char(0, 0, Action::Do);
    b.insert_char(0, 0, '3', Action::Do);
    b.delete_char(0, 3, Action::Do);
    for _ in 0..5 {
        b.undo();
    }
    assert_eq!(line(&b, 0), original);
    // further undos only unwind to the very first edit
    b.undo();
    b.undo();
    assert_eq!(line(&b, 0), Vec::<char>::new());
}

#[test]
fn undo_line_operations() {
    let mut b = Buffer::new(None);
    b.set_line(0, chars("one"), Action::Do);
    b.insert_line(1, chars("two"), Action::Do);
    b.delete_line(0, Action::Do);
    assert_eq!(b.length(), 1);
    b.undo();
    assert_eq!(b.length(), 2);
    assert_eq!(line(&b, 0), chars("one"));
    b.undo();
    assert_eq!(b.length(), 1);
    b.undo();
    assert_eq!(line(&b, 0), Vec::<char>::new());
}

// The history keeps its redo stack across a fresh edit, so a redo after a
// fresh edit replays the stale record at its recorded position.
#[test]
fn redo_after_fresh_edit_replays_stale_record() {
    let mut b = Buffer::new(None);
    b.insert_char(0, 0, 'a', Action::Do);
    b.undo();
    assert_eq!(line(&b, 0), Vec::<char>::new());
    b.insert_char(0, 0, 'b', Action::Do);
    assert_eq!(line(&b, 0), chars("b"));
    b.redo();
    assert_eq!(line(&b, 0), chars("ab"));
}

#[test]
fn undo_on_empty_history_is_no_op() {
    let mut b = Buffer::new(None);
    b.undo();
    b.redo();
    assert_eq!(b.length(), 1);
    assert_eq!(line(&b, 0), Vec::<char>::new());
}

#[test]
fn undo_replays_at_absolute_row_after_scrolling() {
    let mut b = Buffer::new(None);
    b.set_line(0, chars("zero"), Action::Do);
    b.insert_line(1, chars("one"), Action::Do);
    b.insert_line(2, chars("two"), Action::Do);
    b.start = 1;
    // viewport row 0 is document row 1
    b.insert_char(0, 0, 'X', Action::Do);
    assert_eq!(line(&b, 0), chars("Xone"));
    b.start = 0;
    b.undo();
    assert_eq!(line(&b, 1), chars("one"));
    assert_eq!(line(&b, 0), chars("zero"));
}

#[test]
fn move_up_and_down_adjust_start() {
    let mut b = Buffer::new(None);
    for i in 0..4 {
        b.insert_line(i, chars("x"), Action::Do);
    }
    assert_eq!(b.length(), 5);
    assert!(!b.move_up());
    // cursor on viewport row 1
    assert!(b.move_down(1));
    assert_eq!(b.start, 1);
    assert!(b.move_up());
    assert_eq!(b.start, 0);
}

// Repeatedly moving down past the last visible row advances the offset by
// exactly one per step and never exceeds length minus the viewport height.
#[test]
fn scrolling_down_is_bounded() {
    let mut b = Buffer::new(None);
    for i in 0..4 {
        b.insert_line(i, chars("x"), Action::Do);
    }
    // 5 lines, viewport of 2 rows: the cursor sits on bottom row 1
    let mut scrolls = 0;
    let mut last_start = b.start;
    while b.move_down(1) {
        scrolls += 1;
        assert_eq!(b.start, last_start + 1);
        last_start = b.start;
        assert!(b.start + 1 < b.length());
        assert!(scrolls < 100);
    }
    assert_eq!(b.start, 3);
    assert_eq!(b.start, b.length() - 2);
}

#[test]
fn bytes_joins_lines_with_newlines() {
    let mut b = Buffer::new(None);
    b.set_line(0, chars("ab"), Action::Do);
    b.insert_line(1, chars("c"), Action::Do);
    assert_eq!(b.bytes(), b"ab\nc\n".to_vec());
    let empty = Buffer::new(None);
    assert_eq!(empty.bytes(), b"\n".to_vec());
}

#[test]
fn lines_from_bytes_splits_on_newlines() {
    let split = Buffer::lines_from_bytes(&b"a\nbc".to_vec());
    assert_eq!(split, vec![chars("a"), chars("bc")]);
    let trailing = Buffer::lines_from_bytes(&b"a\n".to_vec());
    assert_eq!(trailing, vec![chars("a")]);
    let empty = Buffer::lines_from_bytes(&Vec::new());
    assert_eq!(empty, vec![Vec::<char>::new()]);
    let lone = Buffer::lines_from_bytes(&b"\n".to_vec());
    assert_eq!(lone, vec![Vec::<char>::new()]);
}

// Writing a document to disk and re-reading it produces identical visible
// line content, newline for newline.
#[test]
fn write_then_read_round_trips() {
    let mut b = Buffer::new(Some("name".to_string()));
    b.set_line(0, chars("fn main() {"), Action::Do);
    b.insert_line(1, chars("    body"), Action::Do);
    b.insert_line(2, chars("}"), Action::Do);
    b.insert_line(3, Vec::new(), Action::Do);
    let written = b.bytes();
    let reread = Buffer::lines_from_bytes(&written);
    let again = Buffer::from("name".to_string(), reread);
    assert_eq!(again.length(), b.length());
    for i in 0..b.length() {
        assert_eq!(line(&again, i), line(&b, i));
    }
}

#[test]
fn visible_lines_follow_the_scroll_offset() {
    let mut b = Buffer::new(None);
    b.set_line(0, chars("l0"), Action::Do);
    for i in 1..5 {
        b.insert_line(i, chars(&format!("l{}", i)), Action::Do);
    }
    // viewport of 2 rows shows rows 0 and 1
    assert_eq!(b.visible_lines(1), vec![chars("l0"), chars("l1")]);
    b.start = 3;
    assert_eq!(b.visible_lines(1), vec![chars("l3"), chars("l4")]);
    b.start = 4;
    assert_eq!(b.visible_lines(1), vec![chars("l4")]);
    b.start = 9;
    assert_eq!(b.visible_lines(1), Vec::<Vec<char>>::new());
}

#[test]
fn get_char_respects_bounds() {
    let mut b = Buffer::new(None);
    b.set_line(0, chars("xy"), Action::Do);
    assert_eq!(b.get_char(0, 0), Some(&'x'));
    assert_eq!(b.get_char(0, 1), Some(&'y'));
    assert_eq!(b.get_char(0, 2), None);
    assert_eq!(b.get_char(1, 0), None);
}

#[test]
fn history_stacks_move_records() {
    let mut h: History<u32> = History::new();
    h.update(1, Action::Do);
    h.update(2, Action::Do);
    assert_eq!(h.last_from(Action::Undo), Some(&2));
    assert_eq!(h.last_from(Action::Redo), None);
    h.update(0, Action::Undo);
    assert_eq!(h.last_from(Action::Undo), Some(&1));
    assert_eq!(h.last_from(Action::Redo), Some(&2));
    h.update(0, Action::Redo);
    assert_eq!(h.last_from(Action::Undo), Some(&2));
    assert_eq!(h.last_from(Action::Redo), None);
}

#[test]
fn undo_redo_traits_dispatch() {
    let mut b = Buffer::new(None);
    b.insert_char(0, 0, 'a', Action::Do);
    Undo::undo(&mut b);
    assert_eq!(line(&b, 0), Vec::<char>::new());
    Redo::redo(&mut b);
    assert_eq!(line(&b, 0), chars("a"));
}
