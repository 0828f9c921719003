//! The editor state and the cursor/viewport coordinator. Screen coordinates
//! come in as `(column, row)` pairs; the coordinator validates a movement
//! against the document, triggers scrolling at the viewport edges, keeps a
//! sticky column across short or empty lines, and answers with the screen
//! position the cursor should move to (plus whether a full redraw is needed
//! because the viewport scrolled). Movement that would leave the document's
//! bounds is silently ignored.

use vstd::prelude::*;

use crate::buffer::{spec_redo, spec_undo, Buffer, BufferModel};
use crate::cursor::{Cursor, CursorPosition};
use crate::history::{History, Redo, Undo};
use crate::mode::Mode;

verus! {

#[derive(Debug, Clone, Copy, PartialEq, Eq, Structural)]
pub enum Direction {
    Left,
    Right,
    Up,
    Down,
}

pub open spec fn spec_dir_add(d: Direction, pos: (u16, u16)) -> (u16, u16) {
    match d {
        Direction::Up => (pos.0, (pos.1 - 1) as u16),
        Direction::Down => (pos.0, (pos.1 + 1) as u16),
        Direction::Left => ((pos.0 - 1) as u16, pos.1),
        Direction::Right => ((pos.0 + 1) as u16, pos.1),
    }
}

impl Direction {
    /// The screen coordinate one step in this direction. Steps off the edge
    /// of the coordinate space are excluded by the caller.
    pub fn add(&self, pos: (u16, u16)) -> (r: (u16, u16))
        requires
            *self == Direction::Up ==> pos.1 > 0,
            *self == Direction::Down ==> pos.1 < u16::MAX,
            *self == Direction::Left ==> pos.0 > 0,
            *self == Direction::Right ==> pos.0 < u16::MAX,
        ensures
            r == spec_dir_add(*self, pos),
    {
        match self {
            Direction::Up => (pos.0, pos.1 - 1),
            Direction::Down => (pos.0, pos.1 + 1),
            Direction::Left => (pos.0 - 1, pos.1),
            Direction::Right => (pos.0 + 1, pos.1),
        }
    }
}

/// The mathematical value of the whole editor: the document, the two cursor
/// history stacks, the active mode, and the remembered (sticky) column.
#[verifier::ext_equal]
pub ghost struct EditorModel {
    pub file: BufferModel,
    pub cursor_edits: Seq<CursorPosition>,
    pub cursor_undos: Seq<CursorPosition>,
    pub mode: Mode,
    pub prev_col: Option<u16>,
}

pub struct Editor {
    pub file: Buffer,
    pub cursor: Cursor,
    pub mode: Mode,
    pub prev_cursor_col: Option<u16>,
}

impl View for Editor {
    type V = EditorModel;

    open spec fn view(&self) -> EditorModel {
        EditorModel {
            file: self.file@,
            cursor_edits: self.cursor.history.spec_edits(),
            cursor_undos: self.cursor.history.spec_undos(),
            mode: self.mode,
            prev_col: self.prev_cursor_col,
        }
    }
}

/// A length squeezed into a screen column.
pub open spec fn clamp_col(n: nat) -> u16 {
    if n <= u16::MAX {
        n as u16
    } else {
        u16::MAX
    }
}

/// The column the sticky column restores on a line of length `len`: the
/// remembered column when the line is long enough, its end otherwise.
pub open spec fn spec_restore_col(pc: u16, len: nat) -> u16 {
    if pc as nat <= len {
        pc
    } else {
        len as u16
    }
}

/// Landing on target row `trow` after a vertical move: when the row holds the
/// current column, land there (restoring and clearing a pending sticky
/// column); when the row is empty, remember the column and land at its start;
/// when the row is shorter, land at its end. A target row outside the
/// document refuses the move.
pub open spec fn spec_land(m: EditorModel, p: (u16, u16), trow: u16, scrolled: bool) -> (
    EditorModel,
    Option<((u16, u16), bool)>,
) {
    if trow as nat + m.file.start >= m.file.lines.len() {
        (m, None::<((u16, u16), bool)>)
    } else {
        let line = m.file.lines[trow as int + m.file.start as int];
        if (p.0 as nat) < line.len() {
            match m.prev_col {
                Some(pc) => (
                    (EditorModel { prev_col: None, ..m }),
                    Some(((spec_restore_col(pc, line.len()), trow), scrolled)),
                ),
                None => (m, Some(((p.0, trow), scrolled))),
            }
        } else if line.len() == 0 {
            ((EditorModel { prev_col: Some(p.0), ..m }), Some(((0u16, trow), scrolled)))
        } else {
            (m, Some(((clamp_col(line.len()), trow), scrolled)))
        }
    }
}

/// Moving up: at the top screen row, scroll the document up first (refusing
/// the move when it cannot scroll) and compensate the screen row, then land
/// one row above.
pub open spec fn spec_move_up(m: EditorModel, pos: (u16, u16)) -> (
    EditorModel,
    Option<((u16, u16), bool)>,
) {
    if pos.1 == 0 {
        if m.file.lines.len() != 0 && m.file.start > 0 {
            let m0 = EditorModel {
                file: BufferModel { start: (m.file.start - 1) as nat, ..m.file },
                ..m
            };
            spec_land(m0, (pos.0, 1u16), 0u16, true)
        } else {
            (m, None::<((u16, u16), bool)>)
        }
    } else {
        spec_land(m, pos, (pos.1 - 1) as u16, false)
    }
}

/// Moving down: at or below the last viewport row, scroll the document down
/// when content remains and compensate the screen row, then land one row
/// below.
pub open spec fn spec_move_down(m: EditorModel, pos: (u16, u16), viewport_rows: u16) -> (
    EditorModel,
    Option<((u16, u16), bool)>,
) {
    let scroll = pos.1 >= viewport_rows && m.file.lines.len() != 0 && m.file.start + pos.1 + 1
        < m.file.lines.len();
    let m0 = if scroll {
        EditorModel { file: BufferModel { start: m.file.start + 1, ..m.file }, ..m }
    } else {
        m
    };
    let p = if scroll {
        (
            pos.0,
            if pos.1 > 0 {
                (pos.1 - 1) as u16
            } else {
                0u16
            },
        )
    } else {
        pos
    };
    if p.1 == u16::MAX {
        (m0, None::<((u16, u16), bool)>)
    } else {
        spec_land(m0, p, (p.1 + 1) as u16, scroll)
    }
}

/// Moving left: one column left on the same line, refused at column zero or
/// on a row outside the document.
pub open spec fn spec_move_left(m: EditorModel, pos: (u16, u16)) -> Option<(u16, u16)> {
    if pos.0 == 0 {
        None::<(u16, u16)>
    } else if pos.1 as nat + m.file.start < m.file.lines.len() {
        Some((((pos.0 - 1) as u16), pos.1))
    } else {
        None::<(u16, u16)>
    }
}

/// Moving right: one column right, up to one past the line's end (the insert
/// position); beyond that the cursor stays put.
pub open spec fn spec_move_right(m: EditorModel, pos: (u16, u16)) -> Option<(u16, u16)> {
    if pos.1 as nat + m.file.start >= m.file.lines.len() {
        None::<(u16, u16)>
    } else {
        let line = m.file.lines[pos.1 as int + m.file.start as int];
        if pos.0 < u16::MAX && pos.0 as nat + 1 <= line.len() {
            Some((((pos.0 + 1) as u16), pos.1))
        } else {
            Some(pos)
        }
    }
}

/// The home position: the end of the last visible line of the document.
pub open spec fn spec_home_position(m: EditorModel, viewport_rows: u16) -> Option<(u16, u16)> {
    let len = m.file.lines.len();
    let row0: nat = if len <= viewport_rows as nat {
        len
    } else {
        viewport_rows as nat
    };
    let row: nat = if row0 == len && row0 != 0 {
        (row0 - 1) as nat
    } else {
        row0
    };
    if row + m.file.start < len {
        Some((clamp_col(m.file.lines[row as int + m.file.start as int].len()), row as u16))
    } else {
        None::<(u16, u16)>
    }
}

impl Editor {
    pub fn new(file: Buffer) -> (r: Editor)
        ensures
            r@ == (EditorModel {
                file: file@,
                cursor_edits: Seq::<CursorPosition>::empty(),
                cursor_undos: Seq::<CursorPosition>::empty(),
                mode: Mode::Normal,
                prev_col: None,
            }),
    {
        let r = Editor {
            file,
            cursor: Cursor::new(History::<CursorPosition>::new()),
            mode: Mode::Normal,
            prev_cursor_col: None,
        };
        proof {
            assert(r@ =~= (EditorModel {
                file: r.file@,
                cursor_edits: Seq::<CursorPosition>::empty(),
                cursor_undos: Seq::<CursorPosition>::empty(),
                mode: Mode::Normal,
                prev_col: None,
            }));
        }
        r
    }

    pub fn set_mode(&mut self, mode: Mode)
        ensures
            final(self)@ == (EditorModel { mode: mode, ..old(self)@ }),
    {
        self.mode = mode;
        proof {
            assert(self@ =~= (EditorModel { mode: mode, ..old(self)@ }));
        }
    }

    fn move_cursor_left(&self, cur_pos: (u16, u16)) -> (r: Option<(u16, u16)>)
        ensures
            r == spec_move_left(self@, cur_pos),
    {
        if cur_pos.0 == 0 {
            return None;
        }
        match self.file.get_line(cur_pos.1 as usize) {
            Some(_) => Some((cur_pos.0 - 1, cur_pos.1)),
            None => None,
        }
    }

    fn move_cursor_right(&self, cur_pos: (u16, u16)) -> (r: Option<(u16, u16)>)
        ensures
            r == spec_move_right(self@, cur_pos),
    {
        match self.file.get_line(cur_pos.1 as usize) {
            None => None,
            Some(line) => {
                if cur_pos.0 < u16::MAX && (cur_pos.0 as usize) < line.len() || cur_pos.0 < u16::MAX
                    && (cur_pos.0 as usize) + 1 == line.len() {
                    Some((cur_pos.0 + 1, cur_pos.1))
                } else {
                    Some(cur_pos)
                }
            },
        }
    }

    /// Land on the target row, maintaining the sticky column.
    fn land(&mut self, p: (u16, u16), trow: u16, scrolled: bool) -> (r: Option<((u16, u16), bool)>)
        ensures
            ({
                let lr = spec_land(old(self)@, p, trow, scrolled);
                final(self)@ == lr.0 && r == lr.1
            }),
    {
        let ll_opt: Option<usize> = match self.file.get_line(trow as usize) {
            Some(l) => Some(l.len()),
            None => None,
        };
        match ll_opt {
            None => None,
            Some(ll) => {
                if (p.0 as usize) < ll {
                    match self.prev_cursor_col {
                        Some(pc) => {
                            let newcol = if (pc as usize) <= ll {
                                pc
                            } else {
                                ll as u16
                            };
                            self.prev_cursor_col = None;
                            proof {
                                assert(self@ =~= (EditorModel { prev_col: None, ..old(self)@ }));
                            }
                            Some(((newcol, trow), scrolled))
                        },
                        None => Some(((p.0, trow), scrolled)),
                    }
                } else if ll == 0 {
                    self.prev_cursor_col = Some(p.0);
                    proof {
                        assert(self@ =~= (EditorModel { prev_col: Some(p.0), ..old(self)@ }));
                    }
                    Some(((0, trow), scrolled))
                } else {
                    let c = if ll <= u16::MAX as usize {
                        ll as u16
                    } else {
                        u16::MAX
                    };
                    Some(((c, trow), scrolled))
                }
            },
        }
    }

    fn move_cursor_up(&mut self, cur_pos: (u16, u16)) -> (r: Option<((u16, u16), bool)>)
        ensures
            ({
                let mr = spec_move_up(old(self)@, cur_pos);
                final(self)@ == mr.0 && r == mr.1
            }),
    {
        if cur_pos.1 == 0 {
            if self.file.move_up() {
                proof {
                    assert(self@ =~= (EditorModel {
                        file: BufferModel {
                            start: (old(self)@.file.start - 1) as nat,
                            ..old(self)@.file
                        },
                        ..old(self)@
                    }));
                }
                self.land((cur_pos.0, 1), 0, true)
            } else {
                None
            }
        } else {
            self.land(cur_pos, cur_pos.1 - 1, false)
        }
    }

    fn move_cursor_down(&mut self, cur_pos: (u16, u16), viewport_rows: u16) -> (r: Option<
        ((u16, u16), bool),
    >)
        ensures
            ({
                let mr = spec_move_down(old(self)@, cur_pos, viewport_rows);
                final(self)@ == mr.0 && r == mr.1
            }),
    {
        let mut p = cur_pos;
        let mut scrolled = false;
        if cur_pos.1 >= viewport_rows {
            if self.file.move_down(cur_pos.1 as usize) {
                p = (
                    cur_pos.0,
                    if cur_pos.1 > 0 {
                        cur_pos.1 - 1
                    } else {
                        0
                    },
                );
                scrolled = true;
                proof {
                    assert(self@ =~= (EditorModel {
                        file: BufferModel { start: old(self)@.file.start + 1, ..old(self)@.file },
                        ..old(self)@
                    }));
                }
            }
        }
        if p.1 == u16::MAX {
            return None;
        }
        self.land(p, p.1 + 1, scrolled)
    }

    /// One cursor movement request: validate it against the document, scroll
    /// at the viewport edges, and answer the screen position to move to,
    /// together with whether the viewport scrolled (demanding a redraw).
    /// `None` when the move would leave the document's bounds.
    pub fn move_cursor(&mut self, dir: Direction, cur_pos: (u16, u16), viewport_rows: u16) -> (r:
        Option<((u16, u16), bool)>)
        ensures
            ({
                match dir {
                    Direction::Left => final(self)@ == old(self)@ && r == (match spec_move_left(
                        old(self)@,
                        cur_pos,
                    ) {
                        Some(q) => Some((q, false)),
                        None => None::<((u16, u16), bool)>,
                    }),
                    Direction::Right => final(self)@ == old(self)@ && r == (match spec_move_right(
                        old(self)@,
                        cur_pos,
                    ) {
                        Some(q) => Some((q, false)),
                        None => None::<((u16, u16), bool)>,
                    }),
                    Direction::Up => {
                        let mr = spec_move_up(old(self)@, cur_pos);
                        final(self)@ == mr.0 && r == mr.1
                    },
                    Direction::Down => {
                        let mr = spec_move_down(old(self)@, cur_pos, viewport_rows);
                        final(self)@ == mr.0 && r == mr.1
                    },
                }
            }),
    {
        match dir {
            Direction::Left => match self.move_cursor_left(cur_pos) {
                Some(q) => Some((q, false)),
                None => None,
            },
            Direction::Right => match self.move_cursor_right(cur_pos) {
                Some(q) => Some((q, false)),
                None => None,
            },
            Direction::Up => self.move_cursor_up(cur_pos),
            Direction::Down => self.move_cursor_down(cur_pos, viewport_rows),
        }
    }

    /// Where the cursor starts: the end of the last visible line.
    pub fn home_position(&self, viewport_rows: u16) -> (r: Option<(u16, u16)>)
        ensures
            r == spec_home_position(self@, viewport_rows),
    {
        let len = self.file.length();
        let mut row: usize = if len <= viewport_rows as usize {
            len
        } else {
            viewport_rows as usize
        };
        if row == len && row != 0 {
            row = row - 1;
        }
        match self.file.get_line(row) {
            Some(line) => {
                let ll = line.len();
                let c = if ll <= u16::MAX as usize {
                    ll as u16
                } else {
                    u16::MAX
                };
                Some((c, row as u16))
            },
            None => None,
        }
    }

    /// Undo the most recent content edit and the most recent cursor move;
    /// answer the screen coordinate the cursor history asks to jump back to.
    pub fn undo(&mut self) -> (r: Option<(u16, u16)>)
        ensures
            final(self)@.file == spec_undo(old(self)@.file),
            final(self)@.mode == old(self)@.mode,
            final(self)@.prev_col == old(self)@.prev_col,
            ({
                let es = old(self)@.cursor_edits;
                let us = old(self)@.cursor_undos;
                if es.len() > 0 {
                    &&& r == Some(es.last().spec_before())
                    &&& final(self)@.cursor_edits == es.drop_last()
                    &&& final(self)@.cursor_undos == us.push(es.last())
                } else {
                    &&& r is None
                    &&& final(self)@.cursor_edits == es
                    &&& final(self)@.cursor_undos == us
                }
            }),
    {
        self.file.undo();
        self.cursor.undo()
    }

    /// Redo the most recent undone content edit and cursor move; answer the
    /// screen coordinate the cursor history asks to jump forward to.
    pub fn redo(&mut self) -> (r: Option<(u16, u16)>)
        ensures
            final(self)@.file == spec_redo(old(self)@.file),
            final(self)@.mode == old(self)@.mode,
            final(self)@.prev_col == old(self)@.prev_col,
            ({
                let es = old(self)@.cursor_edits;
                let us = old(self)@.cursor_undos;
                if us.len() > 0 {
                    &&& r == Some(us.last().spec_after())
                    &&& final(self)@.cursor_edits == es.push(us.last())
                    &&& final(self)@.cursor_undos == us.drop_last()
                } else {
                    &&& r is None
                    &&& final(self)@.cursor_edits == es
                    &&& final(self)@.cursor_undos == us
                }
            }),
    {
        self.file.redo();
        self.cursor.redo()
    }
}

impl Undo for Editor {
    fn undo(&mut self) {
        let _target = Editor::undo(self);
    }
}

impl Redo for Editor {
    fn redo(&mut self) {
        let _target = Editor::redo(self);
    }
}

} // verus!
