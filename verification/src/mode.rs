//! The modal key-dispatch state machine. Normal mode interprets single keys
//! as movement, mode switches and undo/redo; Insert mode turns keystrokes
//! into buffer edits with bracket/quote auto-pairing, soft tab stops and
//! indentation-preserving line splits; Command mode accumulates an ex-command
//! line. Each handler answers the decision (the screen position to move to,
//! the step taken) and leaves every terminal action to the caller.

use vstd::prelude::*;

use crate::buffer::{
    clone_line, spec_delete_char, spec_delete_line, spec_insert_char, spec_insert_line,
    spec_redo, spec_set_line, spec_undo,
};
use crate::editor::{clamp_col, spec_move_down, spec_move_left, spec_move_right, spec_move_up,
    Direction, Editor, EditorModel};
use crate::history::Action;
use crate::utils::{braces, closeable, openeable, pair, spec_braces, spec_closeable,
    spec_openeable, spec_pair};

verus! {

/// The active mode: exactly one at a time, starting in Normal.
#[derive(Debug, Clone, Copy, PartialEq, Eq, Structural)]
pub enum Mode {
    Normal,
    Insert,
    Command,
}

pub open spec fn spec_status_label(m: Mode) -> Seq<char> {
    match m {
        Mode::Normal => "--NORMAL MODE--"@,
        Mode::Insert => "--INSERT MODE--"@,
        Mode::Command => "--COMMAND MODE--"@,
    }
}

impl Mode {
    /// The status-line text for this mode; the caller prints it.
    pub fn status_label(&self) -> (r: &'static str)
        ensures
            r@ == spec_status_label(*self),
    {
        match self {
            Mode::Normal => "--NORMAL MODE--",
            Mode::Insert => "--INSERT MODE--",
            Mode::Command => "--COMMAND MODE--",
        }
    }
}

/// A key event, reduced to what the mode handlers decide on.
#[derive(Debug, Clone, Copy, PartialEq, Eq, Structural)]
pub enum Key {
    Char(char),
    Ctrl(char),
    Tab,
    Enter,
    Backspace,
    Esc,
    Other,
}

pub struct NormalMode;

pub struct InsertMode;

pub struct CommandMode;

/// What one Normal-mode key asks the surrounding loop to do.
#[derive(Debug, Clone, Copy, PartialEq, Eq)]
pub enum NormalStep {
    ToInsert,
    ToCommand,
    Moved(Option<((u16, u16), bool)>),
    Undone,
    Redone,
    Idle,
}

/// What one Normal-mode character key does: `:` and `i` switch modes,
/// `h`/`j`/`k`/`l` move the cursor, `u` undoes a content edit, and `r` redoes
/// one only when the control modifier is held. Anything else is ignored.
pub open spec fn spec_normal_key(
    m: EditorModel,
    c: char,
    ctrl: bool,
    cur_pos: (u16, u16),
    viewport_rows: u16,
) -> (EditorModel, NormalStep) {
    if c == ':' {
        (m, NormalStep::ToCommand)
    } else if c == 'i' {
        (m, NormalStep::ToInsert)
    } else if c == 'h' {
        (
            m,
            NormalStep::Moved(
                match spec_move_left(m, cur_pos) {
                    Some(q) => Some((q, false)),
                    None => None::<((u16, u16), bool)>,
                },
            ),
        )
    } else if c == 'l' {
        (
            m,
            NormalStep::Moved(
                match spec_move_right(m, cur_pos) {
                    Some(q) => Some((q, false)),
                    None => None::<((u16, u16), bool)>,
                },
            ),
        )
    } else if c == 'k' {
        let mr = spec_move_up(m, cur_pos);
        (mr.0, NormalStep::Moved(mr.1))
    } else if c == 'j' {
        let mr = spec_move_down(m, cur_pos, viewport_rows);
        (mr.0, NormalStep::Moved(mr.1))
    } else if c == 'u' {
        ((EditorModel { file: spec_undo(m.file), ..m }), NormalStep::Undone)
    } else if c == 'r' && ctrl {
        ((EditorModel { file: spec_redo(m.file), ..m }), NormalStep::Redone)
    } else {
        (m, NormalStep::Idle)
    }
}

impl NormalMode {
    /// One Normal-mode character, with or without the control modifier.
    fn on_char(
        &self,
        editor: &mut Editor,
        c: char,
        ctrl: bool,
        cur_pos: (u16, u16),
        viewport_rows: u16,
    ) -> (r: NormalStep)
        ensures
            ({
                let nr = spec_normal_key(old(editor)@, c, ctrl, cur_pos, viewport_rows);
                final(editor)@ == nr.0 && r == nr.1
            }),
    {
        if c == ':' {
            NormalStep::ToCommand
        } else if c == 'i' {
            NormalStep::ToInsert
        } else if c == 'h' {
            NormalStep::Moved(editor.move_cursor(Direction::Left, cur_pos, viewport_rows))
        } else if c == 'l' {
            NormalStep::Moved(editor.move_cursor(Direction::Right, cur_pos, viewport_rows))
        } else if c == 'k' {
            NormalStep::Moved(editor.move_cursor(Direction::Up, cur_pos, viewport_rows))
        } else if c == 'j' {
            NormalStep::Moved(editor.move_cursor(Direction::Down, cur_pos, viewport_rows))
        } else if c == 'u' {
            editor.file.undo();
            proof {
                assert(editor@ =~= (EditorModel {
                    file: spec_undo(old(editor)@.file),
                    ..old(editor)@
                }));
            }
            NormalStep::Undone
        } else if c == 'r' && ctrl {
            editor.file.redo();
            proof {
                assert(editor@ =~= (EditorModel {
                    file: spec_redo(old(editor)@.file),
                    ..old(editor)@
                }));
            }
            NormalStep::Redone
        } else {
            NormalStep::Idle
        }
    }

    /// Normal-mode dispatch: character keys are interpreted whatever the
    /// modifiers (only redo demands control); everything else is ignored.
    pub fn handle_key(
        &self,
        editor: &mut Editor,
        key: Key,
        cur_pos: (u16, u16),
        viewport_rows: u16,
    ) -> (r: NormalStep)
        ensures
            ({
                match key {
                    Key::Char(c) => {
                        let nr = spec_normal_key(old(editor)@, c, false, cur_pos, viewport_rows);
                        final(editor)@ == nr.0 && r == nr.1
                    },
                    Key::Ctrl(c) => {
                        let nr = spec_normal_key(old(editor)@, c, true, cur_pos, viewport_rows);
                        final(editor)@ == nr.0 && r == nr.1
                    },
                    _ => r == NormalStep::Idle && final(editor)@ == old(editor)@,
                }
            }),
    {
        match key {
            Key::Char(c) => self.on_char(editor, c, false, cur_pos, viewport_rows),
            Key::Ctrl(c) => self.on_char(editor, c, true, cur_pos, viewport_rows),
            _ => NormalStep::Idle,
        }
    }
}

/// Typing `c` at screen position `(col, row)`: typing a closer that already
/// stands right of the cursor just steps over it; anything else is inserted,
/// and an opener brings its matching closer in right behind the cursor.
pub open spec fn spec_process_char(m: EditorModel, col: u16, row: u16, c: char) -> (
    EditorModel,
    (u16, u16),
) {
    if col == u16::MAX {
        (m, (col, row))
    } else if col != 0 && row as nat + m.file.start >= m.file.lines.len() {
        (m, (col, row))
    } else if col != 0 && (col as nat) < m.file.lines[row as int + m.file.start as int].len()
        && m.file.lines[row as int + m.file.start as int][col as int] == c && spec_openeable(c)
        is Some {
        (m, (((col + 1) as u16), row))
    } else {
        let f1 = spec_insert_char(m.file, row as nat, col as nat, c, Action::Do);
        let f2 = match spec_closeable(c) {
            Some(closing) => spec_insert_char(f1, row as nat, col as nat + 1, closing, Action::Do),
            None => f1,
        };
        ((EditorModel { file: f2, ..m }), (((col + 1) as u16), row))
    }
}

/// Backspace at `(col, row)`: at the very start of the document nothing; at
/// column zero of a later row the line is merged into the previous one; when
/// the characters flanking the cursor form a matching pair both go at once;
/// otherwise the character left of the cursor goes.
pub open spec fn spec_process_backspace(m: EditorModel, col: u16, row: u16) -> (
    EditorModel,
    (u16, u16),
) {
    if row == 0 && col == 0 {
        (m, (col, row))
    } else if row as nat + m.file.start >= m.file.lines.len() {
        (m, (col, row))
    } else {
        let line = m.file.lines[row as int + m.file.start as int];
        if col != 0 {
            let f1 = if (col as nat) < line.len() && spec_pair(
                line[col as int - 1],
                line[col as int],
            ) {
                spec_delete_char(m.file, row as nat, col as nat, Action::Do)
            } else {
                m.file
            };
            let f2 = spec_delete_char(f1, row as nat, (col - 1) as nat, Action::Do);
            ((EditorModel { file: f2, ..m }), (((col - 1) as u16), row))
        } else {
            let prev = m.file.lines[row as int - 1 + m.file.start as int];
            let joined = prev + line;
            let f1 = spec_set_line(m.file, (row - 1) as nat, joined, Action::Do);
            let f2 = spec_delete_line(f1, row as nat, Action::Do);
            ((EditorModel { file: f2, ..m }), ((clamp_col(prev.len()), (row - 1) as u16)))
        }
    }
}

/// The length of a line's leading run of spaces.
pub open spec fn indent_len(l: Seq<char>) -> nat
    decreases l.len(),
{
    if l.len() > 0 && l[0] == ' ' {
        1 + indent_len(l.drop_first())
    } else {
        0
    }
}

/// The leading run of spaces is exactly the prefix of blanks that stops at
/// the first non-blank (or the line's end).
proof fn lemma_indent_len_is(l: Seq<char>, n: nat)
    requires
        n <= l.len(),
        forall|k: int| 0 <= k < n ==> l[k] == ' ',
        n == l.len() || l[n as int] != ' ',
    ensures
        indent_len(l) == n,
    decreases l.len(),
{
    if l.len() > 0 && l[0] == ' ' {
        assert(n > 0);
        let t = l.drop_first();
        assert(forall|k: int| 0 <= k < n - 1 ==> t[k] == l[k + 1] && l[k + 1] == ' ');
        lemma_indent_len_is(t, (n - 1) as nat);
    } else {
        assert(n == 0);
    }
}

/// Enter at `(col, row)`: split the line at the cursor, keep the first half,
/// and continue on a fresh line that inherits the first half's indentation.
/// When the split sits exactly between a brace pair, an extra indented blank
/// line opens the block and the closer moves two rows down; the cursor lands
/// at the end of that blank line.
pub open spec fn spec_process_enter(m: EditorModel, col: u16, row: u16) -> (
    EditorModel,
    (u16, u16),
) {
    if row == u16::MAX {
        (m, (col, row))
    } else if row as nat + m.file.start >= m.file.lines.len() {
        (m, (col, row))
    } else {
        let line = m.file.lines[row as int + m.file.start as int];
        let cl: int = if col as nat <= line.len() {
            col as int
        } else {
            line.len() as int
        };
        let first = line.subrange(0, cl);
        let second = line.subrange(cl, line.len() as int);
        let ind = first.subrange(0, indent_len(first) as int);
        let f1 = spec_set_line(m.file, row as nat, first, Action::Do);
        if first.len() > 0 && second.len() > 0 && spec_braces(first.last(), second.first()) {
            let blank = ind + seq![' ', ' ', ' ', ' '];
            let f2 = spec_insert_line(f1, row as nat + 1, blank, Action::Do);
            let f3 = spec_insert_line(f2, row as nat + 2, ind + second, Action::Do);
            ((EditorModel { file: f3, ..m }), (clamp_col(ind.len() + 4), ((row + 1) as u16)))
        } else {
            let f2 = spec_insert_line(f1, row as nat + 1, ind + second, Action::Do);
            ((EditorModel { file: f2, ..m }), (clamp_col(ind.len()), ((row + 1) as u16)))
        }
    }
}

/// Tab at `(col, row)`: up to four spaces, stopping early as soon as the
/// cursor column reaches a multiple of four.
pub open spec fn spec_process_tab(m: EditorModel, col: u16, row: u16) -> (EditorModel, (u16, u16)) {
    let s1 = spec_process_char(m, col, row, ' ');
    if s1.1.0 % 4 == 0 {
        s1
    } else {
        let s2 = spec_process_char(s1.0, s1.1.0, s1.1.1, ' ');
        if s2.1.0 % 4 == 0 {
            s2
        } else {
            let s3 = spec_process_char(s2.0, s2.1.0, s2.1.1, ' ');
            if s3.1.0 % 4 == 0 {
                s3
            } else {
                spec_process_char(s3.0, s3.1.0, s3.1.1, ' ')
            }
        }
    }
}

impl InsertMode {
    /// Insert one typed character, consulting the auto-pairing policy; the
    /// result is the screen position the cursor moves to.
    pub fn process_char(&self, editor: &mut Editor, col: u16, row: u16, c: char) -> (r: (u16, u16))
        ensures
            ({
                let pr = spec_process_char(old(editor)@, col, row, c);
                final(editor)@ == pr.0 && r == pr.1
            }),
    {
        if col == u16::MAX {
            return (col, row);
        }
        if col != 0 {
            match editor.file.get_line(row as usize) {
                None => {
                    return (col, row);
                },
                Some(line) => {
                    if (col as usize) < line.len() {
                        let right = line[col as usize];
                        if right == c && openeable(c).is_some() {
                            return (col + 1, row);
                        }
                    }
                },
            }
        }
        editor.file.insert_char(row as usize, col as usize, c, Action::Do);
        match closeable(c) {
            Some(closing) => {
                editor.file.insert_char(row as usize, (col as usize) + 1, closing, Action::Do);
            },
            None => {},
        }
        proof {
            let pr = spec_process_char(old(editor)@, col, row, c);
            assert(editor@ =~= pr.0);
        }
        (col + 1, row)
    }

    /// Delete backwards over a pair, a single character, or a line boundary.
    pub fn process_backspace(&self, editor: &mut Editor, col: u16, row: u16) -> (r: (u16, u16))
        ensures
            ({
                let pr = spec_process_backspace(old(editor)@, col, row);
                final(editor)@ == pr.0 && r == pr.1
            }),
    {
        if row == 0 && col == 0 {
            return (col, row);
        }
        let probe: Option<bool> = match editor.file.get_line(row as usize) {
            None => None,
            Some(line) => {
                if col != 0 && (col as usize) < line.len() {
                    Some(pair(line[(col as usize) - 1], line[col as usize]))
                } else {
                    Some(false)
                }
            },
        };
        match probe {
            None => (col, row),
            Some(both) => {
                if col != 0 {
                    if both {
                        editor.file.delete_char(row as usize, col as usize, Action::Do);
                    }
                    editor.file.delete_char(row as usize, (col as usize) - 1, Action::Do);
                    proof {
                        let pr = spec_process_backspace(old(editor)@, col, row);
                        assert(editor@ =~= pr.0);
                    }
                    (col - 1, row)
                } else {
                    let mut joined: Vec<char> = match editor.file.get_line((row as usize) - 1) {
                        Some(p) => clone_line(p),
                        None => Vec::new(),
                    };
                    let prev_len = joined.len();
                    let mut cur: Vec<char> = match editor.file.get_line(row as usize) {
                        Some(l) => clone_line(l),
                        None => Vec::new(),
                    };
                    joined.append(&mut cur);
                    editor.file.set_line((row as usize) - 1, joined, Action::Do);
                    editor.file.delete_line(row as usize, Action::Do);
                    let c = if prev_len <= u16::MAX as usize {
                        prev_len as u16
                    } else {
                        u16::MAX
                    };
                    proof {
                        let pr = spec_process_backspace(old(editor)@, col, row);
                        assert(editor@ =~= pr.0);
                    }
                    (c, row - 1)
                }
            },
        }
    }

    /// Split the line at the cursor, preserving indentation and opening an
    /// indented block between a brace pair.
    pub fn process_enter(&self, editor: &mut Editor, col: u16, row: u16) -> (r: (u16, u16))
        ensures
            ({
                let pr = spec_process_enter(old(editor)@, col, row);
                final(editor)@ == pr.0 && r == pr.1
            }),
    {
        if row == u16::MAX {
            return (col, row);
        }
        let halves: Option<(Vec<char>, Vec<char>)> = match editor.file.get_line(row as usize) {
            None => None,
            Some(line) => {
                let cl = if (col as usize) <= line.len() {
                    col as usize
                } else {
                    line.len()
                };
                Some((vec_prefix(line, cl), vec_suffix(line, cl)))
            },
        };
        match halves {
            None => (col, row),
            Some((first, second)) => {
                let ghost first_s = first@;
                let ghost second_s = second@;
                let mut ind: Vec<char> = Vec::new();
                let mut i: usize = 0;
                while i < first.len() && first[i] == ' '
                    invariant
                        i <= first.len(),
                        forall|k: int| 0 <= k < i ==> first@[k] == ' ',
                        ind@ == first@.subrange(0, i as int),
                    decreases first.len() - i,
                {
                    ind.push(' ');
                    i += 1;
                    proof {
                        assert(ind@ =~= first@.subrange(0, i as int));
                    }
                }
                proof {
                    lemma_indent_len_is(first_s, i as nat);
                }
                let left: Option<char> = if first.len() > 0 {
                    Some(first[first.len() - 1])
                } else {
                    None
                };
                let right: Option<char> = if second.len() > 0 {
                    Some(second[0])
                } else {
                    None
                };
                let ind_len = ind.len();
                editor.file.set_line(row as usize, first, Action::Do);
                let open_block = match (left, right) {
                    (Some(l), Some(r)) => braces(l, r),
                    _ => false,
                };
                if open_block {
                    let mut blank = clone_line(&ind);
                    blank.push(' ');
                    blank.push(' ');
                    blank.push(' ');
                    blank.push(' ');
                    proof {
                        assert(blank@ =~= ind@ + seq![' ', ' ', ' ', ' ']);
                    }
                    editor.file.insert_line((row as usize) + 1, blank, Action::Do);
                    let mut cont = clone_line(&ind);
                    let mut sc = second;
                    cont.append(&mut sc);
                    editor.file.insert_line((row as usize) + 2, cont, Action::Do);
                    let c = if ind_len + 4 <= u16::MAX as usize {
                        (ind_len + 4) as u16
                    } else {
                        u16::MAX
                    };
                    proof {
                        let pr = spec_process_enter(old(editor)@, col, row);
                        assert(editor@ =~= pr.0);
                    }
                    (c, row + 1)
                } else {
                    let mut cont = clone_line(&ind);
                    let mut sc = second;
                    cont.append(&mut sc);
                    editor.file.insert_line((row as usize) + 1, cont, Action::Do);
                    let c = if ind_len <= u16::MAX as usize {
                        ind_len as u16
                    } else {
                        u16::MAX
                    };
                    proof {
                        let pr = spec_process_enter(old(editor)@, col, row);
                        assert(editor@ =~= pr.0);
                    }
                    (c, row + 1)
                }
            },
        }
    }

    /// Insert spaces up to the next soft tab stop (a column that is a
    /// multiple of four), one at a time so each is independently undoable.
    pub fn process_tab(&self, editor: &mut Editor, col: u16, row: u16) -> (r: (u16, u16))
        ensures
            ({
                let pr = spec_process_tab(old(editor)@, col, row);
                final(editor)@ == pr.0 && r == pr.1
            }),
    {
        let p1 = self.process_char(editor, col, row, ' ');
        if p1.0 % 4 == 0 {
            return p1;
        }
        let p2 = self.process_char(editor, p1.0, p1.1, ' ');
        if p2.0 % 4 == 0 {
            return p2;
        }
        let p3 = self.process_char(editor, p2.0, p2.1, ' ');
        if p3.0 % 4 == 0 {
            return p3;
        }
        self.process_char(editor, p3.0, p3.1, ' ')
    }
}

/// What one Command-mode key asks the surrounding loop to do: echo a typed
/// character, erase one, abort back to Normal mode, or run the line.
#[derive(Debug, Clone, Copy, PartialEq, Eq, Structural)]
pub enum CommandStep {
    Typed,
    Deleted,
    Aborted,
    Submitted,
    Idle,
}

impl CommandMode {
    /// Command-line editing: characters accumulate, Backspace erases the last
    /// one (or aborts when the line is empty), Enter submits the line.
    pub fn handle_key(&self, line: &mut Vec<char>, key: Key) -> (r: CommandStep)
        ensures
            ({
                match key {
                    Key::Char(c) => final(line)@ == old(line)@.push(c) && r == CommandStep::Typed,
                    Key::Ctrl(c) => final(line)@ == old(line)@.push(c) && r == CommandStep::Typed,
                    Key::Backspace => {
                        if old(line)@.len() > 0 {
                            final(line)@ == old(line)@.drop_last() && r == CommandStep::Deleted
                        } else {
                            final(line)@ == old(line)@ && r == CommandStep::Aborted
                        }
                    },
                    Key::Enter => final(line)@ == old(line)@ && r == CommandStep::Submitted,
                    _ => final(line)@ == old(line)@ && r == CommandStep::Idle,
                }
            }),
    {
        match key {
            Key::Char(c) | Key::Ctrl(c) => {
                line.push(c);
                CommandStep::Typed
            },
            Key::Backspace => {
                match line.pop() {
                    Some(_) => {
                        proof {
                            assert(line@ =~= old(line)@.drop_last());
                        }
                        CommandStep::Deleted
                    },
                    None => CommandStep::Aborted,
                }
            },
            Key::Enter => CommandStep::Submitted,
            _ => CommandStep::Idle,
        }
    }
}

/// An owned copy of the first `n` characters of a line.
fn vec_prefix(v: &Vec<char>, n: usize) -> (r: Vec<char>)
    requires
        n <= v.len(),
    ensures
        r@ == v@.subrange(0, n as int),
{
    let mut r: Vec<char> = Vec::new();
    let mut i: usize = 0;
    while i < n
        invariant
            i <= n <= v.len(),
            r@ == v@.subrange(0, i as int),
        decreases n - i,
    {
        r.push(v[i]);
        i += 1;
        proof {
            assert(r@ =~= v@.subrange(0, i as int));
        }
    }
    r
}

/// An owned copy of the characters of a line from position `n` on.
fn vec_suffix(v: &Vec<char>, n: usize) -> (r: Vec<char>)
    requires
        n <= v.len(),
    ensures
        r@ == v@.subrange(n as int, v@.len() as int),
{
    let mut r: Vec<char> = Vec::new();
    let mut i: usize = n;
    while i < v.len()
        invariant
            n <= i <= v.len(),
            r@ == v@.subrange(n as int, i as int),
        decreases v.len() - i,
    {
        r.push(v[i]);
        i += 1;
        proof {
            assert(r@ =~= v@.subrange(n as int, i as int));
        }
    }
    r
}

} // verus!
