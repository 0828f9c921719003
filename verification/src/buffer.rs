//! The line-oriented document buffer. It owns the text (one `Vec<char>` per
//! line), applies mutations, and records every mutation into its history so
//! that each content change is reversible. Row and column parameters of the
//! public methods are viewport-relative: the buffer adds `start` (the scroll
//! offset) before indexing, and edit records store absolute positions so that
//! undo and redo replay correctly whatever the scroll offset has become.
//! Out-of-range positions are silently absorbed as no-ops, never errors.

use vstd::prelude::*;

use crate::history::{hist_step, Action, History, Redo, Undo};
use vstd::arithmetic::div_mod::lemma_small_mod;

verus! {

/// A reversible description of one buffer mutation, as it appears in
/// contracts. Rows and columns are absolute (document-space) positions.
#[verifier::ext_equal]
pub ghost enum EditModel {
    InsertChar { row: nat, col: nat, c: char },
    DeleteChar { row: nat, col: nat, deleted: char },
    SetLine { row: nat, old_line: Seq<char>, new_line: Seq<char> },
    InsertLine { row: nat, line: Seq<char> },
    DeleteLine { row: nat, removed: Seq<char> },
}

/// A reversible description of one buffer mutation: enough state to re-apply
/// it (redo) and to reverse it (undo). Rows and columns are absolute.
pub enum Edit {
    InsertChar { row: usize, col: usize, c: char },
    DeleteChar { row: usize, col: usize, deleted: char },
    SetLine { row: usize, old_line: Vec<char>, new_line: Vec<char> },
    InsertLine { row: usize, line: Vec<char> },
    DeleteLine { row: usize, removed: Vec<char> },
}

impl View for Edit {
    type V = EditModel;

    open spec fn view(&self) -> EditModel {
        match self {
            Edit::InsertChar { row, col, c } => EditModel::InsertChar {
                row: *row as nat,
                col: *col as nat,
                c: *c,
            },
            Edit::DeleteChar { row, col, deleted } => EditModel::DeleteChar {
                row: *row as nat,
                col: *col as nat,
                deleted: *deleted,
            },
            Edit::SetLine { row, old_line, new_line } => EditModel::SetLine {
                row: *row as nat,
                old_line: old_line@,
                new_line: new_line@,
            },
            Edit::InsertLine { row, line } => EditModel::InsertLine {
                row: *row as nat,
                line: line@,
            },
            Edit::DeleteLine { row, removed } => EditModel::DeleteLine {
                row: *row as nat,
                removed: removed@,
            },
        }
    }
}

impl Clone for Edit {
    fn clone(&self) -> (r: Self)
        ensures
            r@ == self@,
    {
        match self {
            Edit::InsertChar { row, col, c } => Edit::InsertChar { row: *row, col: *col, c: *c },
            Edit::DeleteChar { row, col, deleted } => Edit::DeleteChar {
                row: *row,
                col: *col,
                deleted: *deleted,
            },
            Edit::SetLine { row, old_line, new_line } => Edit::SetLine {
                row: *row,
                old_line: clone_line(old_line),
                new_line: clone_line(new_line),
            },
            Edit::InsertLine { row, line } => Edit::InsertLine {
                row: *row,
                line: clone_line(line),
            },
            Edit::DeleteLine { row, removed } => Edit::DeleteLine {
                row: *row,
                removed: clone_line(removed),
            },
        }
    }
}

/// The mathematical value of a buffer: the line contents, the optional file
/// path, the modified flag, the scroll offset, and the two history stacks.
#[verifier::ext_equal]
pub ghost struct BufferModel {
    pub lines: Seq<Seq<char>>,
    pub path: Option<Seq<char>>,
    pub modified: bool,
    pub start: nat,
    pub edits: Seq<EditModel>,
    pub undos: Seq<EditModel>,
}

/// The line contents of a vector of lines.
pub open spec fn lines_view(data: Seq<Vec<char>>) -> Seq<Seq<char>> {
    data.map(|i: int, v: Vec<char>| v@)
}

/// The records of a history stack, as they appear in contracts.
pub open spec fn edit_views(s: Seq<Edit>) -> Seq<EditModel> {
    s.map(|i: int, e: Edit| e@)
}

/// The view of an optional path.
pub open spec fn path_view(p: Option<String>) -> Option<Seq<char>> {
    match p {
        Some(s) => Some(s@),
        None => None,
    }
}

pub struct Buffer {
    pub path: Option<String>,
    pub modified: bool,
    data: Vec<Vec<char>>,
    pub start: usize,
    history: History<Edit>,
}

impl View for Buffer {
    type V = BufferModel;

    closed spec fn view(&self) -> BufferModel {
        BufferModel {
            lines: lines_view(self.data@),
            path: path_view(self.path),
            modified: self.modified,
            start: self.start as nat,
            edits: edit_views(self.history.spec_edits()),
            undos: edit_views(self.history.spec_undos()),
        }
    }
}

/// The model after one history bookkeeping step.
pub open spec fn spec_hist(m: BufferModel, e: EditModel, action: Action) -> BufferModel {
    let p = hist_step(m.edits, m.undos, e, action);
    BufferModel { edits: p.0, undos: p.1, ..m }
}

/// Character insertion at an absolute row: the character lands at `col`,
/// clamped to the end of the line, and the clamped position is recorded.
/// A row out of range leaves the buffer untouched.
pub open spec fn spec_insert_char_at(
    m: BufferModel,
    row: nat,
    col: nat,
    c: char,
    action: Action,
) -> BufferModel {
    if row < m.lines.len() {
        let line = m.lines[row as int];
        let eff: int = if col <= line.len() {
            col as int
        } else {
            line.len() as int
        };
        let m1 = spec_hist(m, EditModel::InsertChar { row, col: eff as nat, c }, action);
        BufferModel {
            lines: m.lines.update(row as int, line.insert(eff, c)),
            modified: true,
            ..m1
        }
    } else {
        m
    }
}

/// The character of a line at an in-range position, a blank otherwise.
pub open spec fn char_at(l: Seq<char>, i: int) -> char {
    if 0 <= i < l.len() {
        l[i]
    } else {
        ' '
    }
}

/// Character deletion at an absolute row: the character at `col` is removed
/// and recorded; an out-of-range row or column leaves the buffer untouched.
pub open spec fn spec_delete_char_at(m: BufferModel, row: nat, col: nat, action: Action) -> BufferModel {
    if row < m.lines.len() && col < m.lines[row as int].len() {
        let line = m.lines[row as int];
        let m1 = spec_hist(
            m,
            EditModel::DeleteChar { row, col, deleted: char_at(line, col as int) },
            action,
        );
        BufferModel {
            lines: m.lines.update(row as int, line.remove(col as int)),
            modified: true,
            ..m1
        }
    } else {
        m
    }
}

/// Line replacement at an absolute row: the old and new contents are both
/// recorded; a row out of range leaves the buffer untouched.
pub open spec fn spec_set_line_at(
    m: BufferModel,
    row: nat,
    new_line: Seq<char>,
    action: Action,
) -> BufferModel {
    if row < m.lines.len() {
        let m1 = spec_hist(
            m,
            EditModel::SetLine { row, old_line: m.lines[row as int], new_line },
            action,
        );
        BufferModel {
            lines: m.lines.update(row as int, new_line),
            modified: true,
            ..m1
        }
    } else {
        m
    }
}

/// Line insertion at an absolute row, clamped to an append when the row is
/// beyond the end; the clamped position is recorded. Never a no-op.
pub open spec fn spec_insert_line_at(
    m: BufferModel,
    row: nat,
    line: Seq<char>,
    action: Action,
) -> BufferModel {
    let eff: nat = if row <= m.lines.len() {
        row
    } else {
        m.lines.len()
    };
    let m1 = spec_hist(m, EditModel::InsertLine { row: eff, line }, action);
    BufferModel {
        lines: m.lines.insert(eff as int, line),
        modified: true,
        ..m1
    }
}

/// Line deletion at an absolute row: the removed content is recorded so undo
/// can reinsert it; a row out of range leaves the buffer untouched.
pub open spec fn spec_delete_line_at(m: BufferModel, row: nat, action: Action) -> BufferModel {
    if row < m.lines.len() {
        let m1 = spec_hist(
            m,
            EditModel::DeleteLine { row, removed: m.lines[row as int] },
            action,
        );
        BufferModel {
            lines: m.lines.remove(row as int),
            modified: true,
            ..m1
        }
    } else {
        m
    }
}

/// The viewport-relative operations: the buffer adds the scroll offset to the
/// row before indexing.
pub open spec fn spec_insert_char(
    m: BufferModel,
    row: nat,
    col: nat,
    c: char,
    action: Action,
) -> BufferModel {
    spec_insert_char_at(m, row + m.start, col, c, action)
}

pub open spec fn spec_delete_char(m: BufferModel, row: nat, col: nat, action: Action) -> BufferModel {
    spec_delete_char_at(m, row + m.start, col, action)
}

pub open spec fn spec_set_line(
    m: BufferModel,
    row: nat,
    new_line: Seq<char>,
    action: Action,
) -> BufferModel {
    spec_set_line_at(m, row + m.start, new_line, action)
}

pub open spec fn spec_insert_line(
    m: BufferModel,
    row: nat,
    line: Seq<char>,
    action: Action,
) -> BufferModel {
    spec_insert_line_at(m, row + m.start, line, action)
}

pub open spec fn spec_delete_line(m: BufferModel, row: nat, action: Action) -> BufferModel {
    spec_delete_line_at(m, row + m.start, action)
}

/// One undo step: replay the inverse of the most recent applied edit, using
/// the absolute position it recorded. The record leaves the `edits` stack
/// (moving to `undos`) exactly when the inverse mutation took effect.
pub open spec fn spec_undo(m: BufferModel) -> BufferModel {
    if m.edits.len() > 0 {
        match m.edits.last() {
            EditModel::InsertChar { row, col, c } => spec_delete_char_at(m, row, col, Action::Undo),
            EditModel::DeleteChar { row, col, deleted } => spec_insert_char_at(
                m,
                row,
                col,
                deleted,
                Action::Undo,
            ),
            EditModel::SetLine { row, old_line, new_line } => spec_set_line_at(
                m,
                row,
                old_line,
                Action::Undo,
            ),
            EditModel::InsertLine { row, line } => spec_delete_line_at(m, row, Action::Undo),
            EditModel::DeleteLine { row, removed } => spec_insert_line_at(
                m,
                row,
                removed,
                Action::Undo,
            ),
        }
    } else {
        m
    }
}

/// One redo step: replay the most recent undone edit as recorded.
pub open spec fn spec_redo(m: BufferModel) -> BufferModel {
    if m.undos.len() > 0 {
        match m.undos.last() {
            EditModel::InsertChar { row, col, c } => spec_insert_char_at(
                m,
                row,
                col,
                c,
                Action::Redo,
            ),
            EditModel::DeleteChar { row, col, deleted } => spec_delete_char_at(
                m,
                row,
                col,
                Action::Redo,
            ),
            EditModel::SetLine { row, old_line, new_line } => spec_set_line_at(
                m,
                row,
                new_line,
                Action::Redo,
            ),
            EditModel::InsertLine { row, line } => spec_insert_line_at(m, row, line, Action::Redo),
            EditModel::DeleteLine { row, removed } => spec_delete_line_at(m, row, Action::Redo),
        }
    } else {
        m
    }
}

/// The slice of the document visible in a viewport of `rows + 1` screen rows:
/// the lines from the scroll offset down to the viewport's last row, or to
/// the document's end, whichever comes first.
pub open spec fn spec_visible(m: BufferModel, rows: nat) -> Seq<Seq<char>> {
    if m.start >= m.lines.len() {
        Seq::<Seq<char>>::empty()
    } else if m.start + rows + 1 <= m.lines.len() {
        m.lines.subrange(m.start as int, m.start as int + rows + 1)
    } else {
        m.lines.subrange(m.start as int, m.lines.len() as int)
    }
}

/// A freshly created buffer: one empty line, unmodified, unscrolled, with an
/// empty history.
pub open spec fn spec_fresh(path: Option<Seq<char>>, lines: Seq<Seq<char>>) -> BufferModel {
    BufferModel {
        lines: lines,
        path: path,
        modified: false,
        start: 0,
        edits: Seq::<EditModel>::empty(),
        undos: Seq::<EditModel>::empty(),
    }
}

/// The scalar value of a character, as a 32-bit integer.
fn char_code(c: char) -> (u: u32)
    ensures
        u as nat == c as nat,
{
    c as u32
}

/// An owned copy of a line with the same contents.
pub fn clone_line(v: &Vec<char>) -> (r: Vec<char>)
    ensures
        r@ == v@,
{
    let mut r: Vec<char> = Vec::new();
    let mut i: usize = 0;
    while i < v.len()
        invariant
            i <= v.len(),
            r@ == v@.subrange(0, i as int),
        decreases v.len() - i,
    {
        r.push(v[i]);
        i += 1;
        proof {
            assert(r@ =~= v@.subrange(0, i as int));
        }
    }
    proof {
        assert(r@ =~= v@);
    }
    r
}

impl Default for Buffer {
    /// An empty, pathless document: exactly one empty line.
    fn default() -> (b: Self)
        ensures
            b@ == spec_fresh(None, seq![Seq::<char>::empty()]),
    {
        let mut data: Vec<Vec<char>> = Vec::new();
        data.push(Vec::new());
        let b = Buffer {
            modified: false,
            start: 0,
            path: None,
            data,
            history: History::new(),
        };
        proof {
            assert(b@.lines =~= seq![Seq::<char>::empty()]);
            assert(b@.edits =~= Seq::<EditModel>::empty());
            assert(b@.undos =~= Seq::<EditModel>::empty());
            assert(b@ =~= spec_fresh(None, seq![Seq::<char>::empty()]));
        }
        b
    }
}

impl Buffer {
    /// A new empty document, optionally pre-associated with a path.
    pub fn new(path: Option<String>) -> (b: Self)
        ensures
            b@ == spec_fresh(path_view(path), seq![Seq::<char>::empty()]),
    {
        let mut new_buffer = Buffer::default();
        new_buffer.path = path;
        proof {
            assert(new_buffer@ =~= spec_fresh(path_view(new_buffer.path), seq![
                Seq::<char>::empty(),
            ]));
        }
        new_buffer
    }

    /// A document created from file content, one entry per input line.
    pub fn from(path: String, data: Vec<Vec<char>>) -> (b: Self)
        ensures
            b@ == spec_fresh(Some(path@), lines_view(data@)),
    {
        let mut new_buffer = Buffer::default();
        new_buffer.path = Some(path);
        new_buffer.data = data;
        proof {
            assert(new_buffer@ =~= spec_fresh(
                path_view(new_buffer.path),
                lines_view(new_buffer.data@),
            ));
        }
        new_buffer
    }

    /// The number of lines in the document.
    pub fn length(&self) -> (r: usize)
        ensures
            r == self@.lines.len(),
    {
        self.data.len()
    }

    /// The line at viewport row `line`, if `line + start` is in range.
    pub fn get_line(&self, line: usize) -> (r: Option<&Vec<char>>)
        ensures
            match r {
                Some(l) => line + self@.start < self@.lines.len() && l@ == self@.lines[line
                    + self@.start],
                None => line + self@.start >= self@.lines.len(),
            },
    {
        if line < self.data.len() && self.start < self.data.len() - line {
            Some(&self.data[line + self.start])
        } else {
            None
        }
    }

    /// The character at viewport row `line`, column `col`, if both in range.
    pub fn get_char(&self, line: usize, col: usize) -> (r: Option<&char>)
        ensures
            match r {
                Some(c) => line + self@.start < self@.lines.len() && col < self@.lines[line
                    + self@.start].len() && *c == self@.lines[line + self@.start][col as int],
                None => line + self@.start >= self@.lines.len() || (line + self@.start
                    < self@.lines.len() && col >= self@.lines[line + self@.start].len()),
            },
    {
        if line < self.data.len() && self.start < self.data.len() - line {
            let l = &self.data[line + self.start];
            if col < l.len() {
                Some(&l[col])
            } else {
                None
            }
        } else {
            None
        }
    }

    /// Whether the document has unsaved changes.
    pub fn is_modified(&self) -> (r: bool)
        ensures
            r == self@.modified,
    {
        self.modified
    }

    /// Whether a file path is associated with the document.
    pub fn has_path(&self) -> (r: bool)
        ensures
            r == (self@.path is Some),
    {
        self.path.is_some()
    }

    /// Set or clear the modified flag (cleared by a successful save).
    pub fn set_modified(&mut self, m: bool)
        ensures
            final(self)@ == (BufferModel { modified: m, ..old(self)@ }),
    {
        self.modified = m;
        proof {
            assert(self@ =~= (BufferModel { modified: m, ..old(self)@ }));
        }
    }

    /// Scroll one line up when possible; report whether scrolling occurred.
    pub fn move_up(&mut self) -> (r: bool)
        ensures
            r == (old(self)@.lines.len() != 0 && old(self)@.start > 0),
            r ==> final(self)@ == (BufferModel { start: (old(self)@.start - 1) as nat, ..old(self)@ }),
            !r ==> final(self)@ == old(self)@,
    {
        if self.data.len() != 0 && self.start > 0 {
            self.start = self.start - 1;
            true
        } else {
            false
        }
    }

    /// Scroll one line down when the cursor (at viewport row `viewport_row`)
    /// still has document content below the last visible line; report whether
    /// scrolling occurred. The offset advances by exactly one per call and
    /// `start + viewport_row` never reaches the last line's index, so the
    /// offset never exceeds the document length minus the viewport height.
    pub fn move_down(&mut self, viewport_row: usize) -> (r: bool)
        ensures
            r == (old(self)@.lines.len() != 0 && old(self)@.start + viewport_row + 1
                < old(self)@.lines.len()),
            r ==> final(self)@ == (BufferModel { start: old(self)@.start + 1, ..old(self)@ }),
            r ==> final(self)@.start + viewport_row < final(self)@.lines.len(),
            !r ==> final(self)@ == old(self)@,
    {
        let len = self.data.len();
        if len != 0 && self.start < len - 1 && viewport_row < (len - 1) - self.start {
            self.start = self.start + 1;
            true
        } else {
            false
        }
    }
}

impl Buffer {
    /// Insert `c` at an absolute row, clamping the column to the line's end.
    fn ins_char_abs(&mut self, row: usize, col: usize, c: char, action: Action)
        ensures
            final(self)@ == spec_insert_char_at(old(self)@, row as nat, col as nat, c, action),
    {
        if row < self.data.len() {
            let llen = self.data[row].len();
            let eff = if col <= llen {
                col
            } else {
                llen
            };
            let mut line = clone_line(&self.data[row]);
            line.insert(eff, c);
            self.data.set(row, line);
            self.modified = true;
            self.history.update(Edit::InsertChar { row, col: eff, c }, action);
            proof {
                lemma_hist_views(old(self).history.spec_edits(), old(
                    self,
                ).history.spec_undos(), Edit::InsertChar { row, col: eff, c }, action);
                assert(self@.lines =~= spec_insert_char_at(
                    old(self)@,
                    row as nat,
                    col as nat,
                    c,
                    action,
                ).lines);
                assert(self@ =~= spec_insert_char_at(old(self)@, row as nat, col as nat, c, action));
            }
        }
    }

    /// Delete the character at an absolute row and column, when present.
    fn del_char_abs(&mut self, row: usize, col: usize, action: Action)
        ensures
            final(self)@ == spec_delete_char_at(old(self)@, row as nat, col as nat, action),
    {
        if row < self.data.len() && col < self.data[row].len() {
            let mut line = clone_line(&self.data[row]);
            let deleted = line.remove(col);
            self.data.set(row, line);
            self.modified = true;
            self.history.update(Edit::DeleteChar { row, col, deleted }, action);
            proof {
                lemma_hist_views(old(self).history.spec_edits(), old(
                    self,
                ).history.spec_undos(), Edit::DeleteChar { row, col, deleted }, action);
                assert(self@.lines =~= spec_delete_char_at(
                    old(self)@,
                    row as nat,
                    col as nat,
                    action,
                ).lines);
                assert(self@ =~= spec_delete_char_at(old(self)@, row as nat, col as nat, action));
            }
        }
    }

    /// Replace the line at an absolute row, recording old and new contents.
    fn set_line_abs(&mut self, row: usize, new_line: Vec<char>, action: Action)
        ensures
            final(self)@ == spec_set_line_at(old(self)@, row as nat, new_line@, action),
    {
        if row < self.data.len() {
            let old_line = clone_line(&self.data[row]);
            let recorded = clone_line(&new_line);
            self.data.set(row, new_line);
            self.modified = true;
            let e = Edit::SetLine { row, old_line, new_line: recorded };
            self.history.update(e, action);
            proof {
                lemma_hist_views(old(self).history.spec_edits(), old(
                    self,
                ).history.spec_undos(), e, action);
                assert(self@.lines =~= spec_set_line_at(
                    old(self)@,
                    row as nat,
                    new_line@,
                    action,
                ).lines);
                assert(self@ =~= spec_set_line_at(old(self)@, row as nat, new_line@, action));
            }
        }
    }

    /// Insert a line at an absolute row, clamped to an append at the end.
    fn ins_line_abs(&mut self, row: usize, line: Vec<char>, action: Action)
        ensures
            final(self)@ == spec_insert_line_at(old(self)@, row as nat, line@, action),
    {
        let eff = if row <= self.data.len() {
            row
        } else {
            self.data.len()
        };
        let recorded = clone_line(&line);
        self.data.insert(eff, line);
        self.modified = true;
        let e = Edit::InsertLine { row: eff, line: recorded };
        self.history.update(e, action);
        proof {
            lemma_hist_views(old(self).history.spec_edits(), old(self).history.spec_undos(), e, action);
            assert(self@.lines =~= spec_insert_line_at(old(self)@, row as nat, line@, action).lines);
            assert(self@ =~= spec_insert_line_at(old(self)@, row as nat, line@, action));
        }
    }

    /// Delete the line at an absolute row, when present, keeping its content
    /// in the record.
    fn del_line_abs(&mut self, row: usize, action: Action)
        ensures
            final(self)@ == spec_delete_line_at(old(self)@, row as nat, action),
    {
        if row < self.data.len() {
            let removed = self.data.remove(row);
            self.modified = true;
            let e = Edit::DeleteLine { row, removed };
            self.history.update(e, action);
            proof {
                lemma_hist_views(old(self).history.spec_edits(), old(
                    self,
                ).history.spec_undos(), e, action);
                assert(self@.lines =~= spec_delete_line_at(old(self)@, row as nat, action).lines);
                assert(self@ =~= spec_delete_line_at(old(self)@, row as nat, action));
            }
        }
    }

    /// Insert `c` at `col` in the line at viewport row `row` (clamped to the
    /// line's end), recording a character-insert edit.
    pub fn insert_char(&mut self, row: usize, col: usize, c: char, action: Action)
        ensures
            final(self)@ == spec_insert_char(old(self)@, row as nat, col as nat, c, action),
    {
        if row < self.data.len() && self.start < self.data.len() - row {
            self.ins_char_abs(row + self.start, col, c, action);
        }
    }

    /// Remove the character at `col` in the line at viewport row `row`, if
    /// present, recording the deleted character.
    pub fn delete_char(&mut self, row: usize, col: usize, action: Action)
        ensures
            final(self)@ == spec_delete_char(old(self)@, row as nat, col as nat, action),
    {
        if row < self.data.len() && self.start < self.data.len() - row {
            self.del_char_abs(row + self.start, col, action);
        }
    }

    /// Replace the line at viewport row `row` with `new_line`, recording a
    /// line-replace edit with both contents.
    pub fn set_line(&mut self, row: usize, new_line: Vec<char>, action: Action)
        ensures
            final(self)@ == spec_set_line(old(self)@, row as nat, new_line@, action),
    {
        if row < self.data.len() && self.start < self.data.len() - row {
            self.set_line_abs(row + self.start, new_line, action);
        }
    }

    /// Insert a new line before viewport row `row`, or append when the row is
    /// beyond the current length, recording a line-insert edit.
    pub fn insert_line(&mut self, row: usize, line: Vec<char>, action: Action)
        ensures
            final(self)@ == spec_insert_line(old(self)@, row as nat, line@, action),
    {
        if row < self.data.len() && self.start < self.data.len() - row {
            self.ins_line_abs(row + self.start, line, action);
        } else {
            let len = self.data.len();
            self.ins_line_abs(len, line, action);
        }
    }

    /// Remove the line at viewport row `row`, if in range, recording the
    /// removed content as a line-delete edit.
    pub fn delete_line(&mut self, row: usize, action: Action)
        ensures
            final(self)@ == spec_delete_line(old(self)@, row as nat, action),
    {
        if row < self.data.len() && self.start < self.data.len() - row {
            self.del_line_abs(row + self.start, action);
        }
    }

    /// Pop the most recent applied edit and replay its inverse at the
    /// absolute position it recorded. A no-op when the history is empty.
    pub fn undo(&mut self)
        ensures
            final(self)@ == spec_undo(old(self)@),
    {
        let top: Option<Edit> = match self.history.last_from(Action::Undo) {
            Some(e) => Some(e.clone()),
            None => None,
        };
        match top {
            None => {},
            Some(Edit::InsertChar { row, col, c }) => {
                self.del_char_abs(row, col, Action::Undo);
            },
            Some(Edit::DeleteChar { row, col, deleted }) => {
                self.ins_char_abs(row, col, deleted, Action::Undo);
            },
            Some(Edit::SetLine { row, old_line, new_line }) => {
                self.set_line_abs(row, old_line, Action::Undo);
            },
            Some(Edit::InsertLine { row, line }) => {
                self.del_line_abs(row, Action::Undo);
            },
            Some(Edit::DeleteLine { row, removed }) => {
                self.ins_line_abs(row, removed, Action::Undo);
            },
        }
    }

    /// Pop the most recent undone edit and replay it as recorded. A no-op
    /// when nothing has been undone.
    pub fn redo(&mut self)
        ensures
            final(self)@ == spec_redo(old(self)@),
    {
        let top: Option<Edit> = match self.history.last_from(Action::Redo) {
            Some(e) => Some(e.clone()),
            None => None,
        };
        match top {
            None => {},
            Some(Edit::InsertChar { row, col, c }) => {
                self.ins_char_abs(row, col, c, Action::Redo);
            },
            Some(Edit::DeleteChar { row, col, deleted }) => {
                self.del_char_abs(row, col, Action::Redo);
            },
            Some(Edit::SetLine { row, old_line, new_line }) => {
                self.set_line_abs(row, new_line, Action::Redo);
            },
            Some(Edit::InsertLine { row, line }) => {
                self.ins_line_abs(row, line, Action::Redo);
            },
            Some(Edit::DeleteLine { row, removed }) => {
                self.del_line_abs(row, Action::Redo);
            },
        }
    }
}

/// The byte written to disk for one character: its scalar value reduced to
/// one byte.
pub open spec fn char_byte(c: char) -> u8 {
    ((c as nat) % 256) as u8
}

/// A character that survives the byte round trip: it fits in one byte and is
/// not the line separator itself.
pub open spec fn storable_char(c: char) -> bool {
    (c as nat) < 256 && c != '\n'
}

pub open spec fn storable_line(l: Seq<char>) -> bool {
    forall|j: int| 0 <= j < l.len() ==> storable_char(#[trigger] l[j])
}

pub open spec fn storable_lines(lines: Seq<Seq<char>>) -> bool {
    forall|i: int| 0 <= i < lines.len() ==> storable_line(#[trigger] lines[i])
}

pub open spec fn spec_line_bytes(line: Seq<char>) -> Seq<u8> {
    line.map(|i: int, c: char| char_byte(c))
}

/// The on-disk form of a document: every line boundary becomes exactly one
/// newline byte, so each line is followed by one newline.
pub open spec fn spec_bytes(lines: Seq<Seq<char>>) -> Seq<u8>
    decreases lines.len(),
{
    if lines.len() == 0 {
        Seq::<u8>::empty()
    } else {
        spec_line_bytes(lines.first()) + seq![10u8] + spec_bytes(lines.drop_first())
    }
}

/// The lines read back from raw file bytes: segments between newline bytes,
/// one character per byte. Content after the last newline forms a final line;
/// a trailing newline does not open an empty final line.
pub open spec fn split_lines(b: Seq<u8>) -> Seq<Seq<char>>
    decreases b.len(),
{
    if b.len() == 0 {
        Seq::<Seq<char>>::empty()
    } else if b.first() == 10u8 {
        seq![Seq::<char>::empty()] + split_lines(b.drop_first())
    } else {
        let rest = split_lines(b.drop_first());
        if rest.len() == 0 {
            seq![seq![b.first() as char]]
        } else {
            rest.update(0, seq![b.first() as char] + rest.first())
        }
    }
}

/// A partial segment prepended onto the first of the segments that follow.
pub open spec fn prepend_first(c: Seq<char>, s: Seq<Seq<char>>) -> Seq<Seq<char>> {
    if s.len() == 0 {
        if c.len() == 0 {
            Seq::<Seq<char>>::empty()
        } else {
            seq![c]
        }
    } else {
        s.update(0, c + s.first())
    }
}

/// One byte of the written form of a line, elementwise.
proof fn lemma_line_bytes_index(l: Seq<char>, k: int)
    requires
        0 <= k < l.len(),
    ensures
        spec_line_bytes(l).len() == l.len(),
        spec_line_bytes(l)[k] == char_byte(l[k]),
{
}

proof fn lemma_line_bytes_snoc(l: Seq<char>, j: int)
    requires
        0 < j <= l.len(),
    ensures
        spec_line_bytes(l.subrange(0, j)) == spec_line_bytes(l.subrange(0, j - 1)).push(
            char_byte(l[j - 1]),
        ),
{
    let a = spec_line_bytes(l.subrange(0, j));
    let b = spec_line_bytes(l.subrange(0, j - 1)).push(char_byte(l[j - 1]));
    assert forall|k: int| 0 <= k < a.len() implies a[k] == b[k] by {
        lemma_line_bytes_index(l.subrange(0, j), k);
        if k < j - 1 {
            lemma_line_bytes_index(l.subrange(0, j - 1), k);
        }
    }
    assert(a =~= b);
}

proof fn lemma_line_bytes_drop_first(l: Seq<char>)
    requires
        l.len() > 0,
    ensures
        spec_line_bytes(l) == seq![char_byte(l[0])] + spec_line_bytes(l.drop_first()),
{
    let a = spec_line_bytes(l);
    let b = seq![char_byte(l[0])] + spec_line_bytes(l.drop_first());
    assert forall|k: int| 0 <= k < a.len() implies a[k] == b[k] by {
        lemma_line_bytes_index(l, k);
        if k > 0 {
            lemma_line_bytes_index(l.drop_first(), k - 1);
        }
    }
    assert(a =~= b);
}

/// A storable character survives the byte round trip.
proof fn lemma_storable_byte(c: char)
    requires
        storable_char(c),
    ensures
        char_byte(c) as nat == c as nat,
        char_byte(c) != 10u8,
        (char_byte(c) as char) == c,
{
    assert('\n' as nat == 10);
    lemma_small_mod(c as nat, 256);
}

/// The byte pushed for a character equals its written form.
proof fn lemma_char_byte_of(c: char, u: u32)
    requires
        u as nat == c as nat,
    ensures
        ((u % 256) as u8) == char_byte(c),
{
}

proof fn lemma_spec_bytes_snoc(s: Seq<Seq<char>>, l: Seq<char>)
    ensures
        spec_bytes(s.push(l)) == spec_bytes(s) + spec_line_bytes(l) + seq![10u8],
    decreases s.len(),
{
    let p = s.push(l);
    if s.len() == 0 {
        assert(p.len() == 1);
        assert(p.first() == l);
        assert(p.drop_first() =~= Seq::<Seq<char>>::empty());
        assert(spec_bytes(p.drop_first()).len() == 0);
        assert(spec_bytes(s).len() == 0);
        assert(spec_bytes(p) =~= spec_bytes(s) + spec_line_bytes(l) + seq![10u8]);
    } else {
        assert(p.first() == s.first());
        assert(p.drop_first() =~= s.drop_first().push(l));
        lemma_spec_bytes_snoc(s.drop_first(), l);
        assert(spec_bytes(p) == spec_line_bytes(p.first()) + seq![10u8] + spec_bytes(
            p.drop_first(),
        ));
        assert(spec_bytes(p) =~= spec_bytes(s) + spec_line_bytes(l) + seq![10u8]);
    }
}

proof fn lemma_prepend_nl(c: Seq<char>, t: Seq<u8>)
    requires
        t.len() > 0,
        t.first() == 10u8,
    ensures
        prepend_first(c, split_lines(t)) == seq![c] + prepend_first(
            Seq::<char>::empty(),
            split_lines(t.drop_first()),
        ),
{
    let rest = split_lines(t.drop_first());
    assert(split_lines(t) == seq![Seq::<char>::empty()] + rest);
    assert((seq![Seq::<char>::empty()] + rest).len() == 1 + rest.len());
    assert((seq![Seq::<char>::empty()] + rest).first() == Seq::<char>::empty());
    if rest.len() == 0 {
        assert(prepend_first(c, split_lines(t)) =~~= seq![c] + prepend_first(
            Seq::<char>::empty(),
            rest,
        ));
    } else {
        assert(prepend_first(Seq::<char>::empty(), rest) =~~= rest);
        assert(prepend_first(c, split_lines(t)) =~~= seq![c] + rest);
    }
}

proof fn lemma_prepend_char(c: Seq<char>, t: Seq<u8>)
    requires
        t.len() > 0,
        t.first() != 10u8,
    ensures
        prepend_first(c, split_lines(t)) == prepend_first(
            c.push(t.first() as char),
            split_lines(t.drop_first()),
        ),
{
    let rest = split_lines(t.drop_first());
    let tc = t.first() as char;
    assert(c + seq![tc] =~= c.push(tc));
    if rest.len() == 0 {
        assert(split_lines(t) == seq![seq![tc]]);
        assert(split_lines(t).len() == 1);
        assert(prepend_first(c, split_lines(t)) =~~= prepend_first(c.push(tc), rest));
    } else {
        assert(split_lines(t) == rest.update(0, seq![tc] + rest.first()));
        assert(split_lines(t).len() == rest.len());
        assert(split_lines(t).first() == seq![tc] + rest.first());
        assert(prepend_first(c, split_lines(t)) =~~= prepend_first(c.push(tc), rest));
    }
}

/// Reading the written bytes of one storable line consumes the line and its
/// newline and leaves the remaining bytes to split.
proof fn lemma_split_consumes_line(l: Seq<char>, tail: Seq<u8>)
    requires
        storable_line(l),
    ensures
        split_lines(spec_line_bytes(l) + seq![10u8] + tail) == seq![l] + split_lines(tail),
    decreases l.len(),
{
    let full = spec_line_bytes(l) + seq![10u8] + tail;
    if l.len() == 0 {
        assert(spec_line_bytes(l).len() == 0);
        assert(full =~= seq![10u8] + tail);
        assert(full.len() > 0);
        assert(full.first() == 10u8);
        assert(full.drop_first() =~= tail);
        assert(split_lines(full) == seq![Seq::<char>::empty()] + split_lines(tail));
        assert(l =~= Seq::<char>::empty());
        assert(split_lines(full) =~= seq![l] + split_lines(tail));
    } else {
        assert(storable_char(l[0]));
        lemma_storable_byte(l[0]);
        lemma_line_bytes_index(l, 0);
        assert(full.first() == char_byte(l[0]));
        lemma_line_bytes_drop_first(l);
        assert(full.drop_first() =~= spec_line_bytes(l.drop_first()) + seq![10u8] + tail);
        assert(storable_line(l.drop_first()));
        lemma_split_consumes_line(l.drop_first(), tail);
        let rest = split_lines(full.drop_first());
        assert(rest == seq![l.drop_first()] + split_lines(tail));
        assert(rest.len() > 0);
        assert(rest[0] == (seq![l.drop_first()] + split_lines(tail))[0]);
        assert(rest[0] == seq![l.drop_first()][0]);
        assert(rest.first() == l.drop_first());
        assert((full.first() as char) == l[0]);
        assert(seq![full.first() as char][0] == l[0]);
        assert(seq![full.first() as char] + rest.first() =~= l);
        assert(split_lines(full) == rest.update(0, seq![full.first() as char] + rest.first()));
        assert(split_lines(full) =~= seq![l] + split_lines(tail));
    }
}

/// Law: writing a document to disk and reading it back yields the same lines,
/// newline for newline, for every document whose characters fit in one byte
/// and are not the separator itself.
pub proof fn lemma_write_read_round_trip(lines: Seq<Seq<char>>)
    requires
        storable_lines(lines),
    ensures
        split_lines(spec_bytes(lines)) == lines,
    decreases lines.len(),
{
    if lines.len() == 0 {
    } else {
        assert(storable_line(lines.first()));
        lemma_split_consumes_line(lines.first(), spec_bytes(lines.drop_first()));
        assert(storable_lines(lines.drop_first()));
        lemma_write_read_round_trip(lines.drop_first());
        assert(split_lines(spec_bytes(lines)) =~= lines);
    }
}

impl Buffer {
    /// The document serialized for disk: every character as one byte, one
    /// newline byte after each line.
    pub fn bytes(&self) -> (r: Vec<u8>)
        ensures
            r@ == spec_bytes(self@.lines),
    {
        let mut r: Vec<u8> = Vec::new();
        let mut i: usize = 0;
        while i < self.data.len()
            invariant
                i <= self.data.len(),
                r@ == spec_bytes(self@.lines.subrange(0, i as int)),
            decreases self.data.len() - i,
        {
            let line = &self.data[i];
            proof {
                assert(spec_line_bytes(line@.subrange(0, 0)) =~= Seq::<u8>::empty());
                assert(r@ =~= spec_bytes(self@.lines.subrange(0, i as int)) + spec_line_bytes(
                    line@.subrange(0, 0),
                ));
            }
            let mut j: usize = 0;
            while j < line.len()
                invariant
                    j <= line.len(),
                    i < self.data.len(),
                    line@ == self@.lines[i as int],
                    r@ == spec_bytes(self@.lines.subrange(0, i as int)) + spec_line_bytes(
                        line@.subrange(0, j as int),
                    ),
                decreases line.len() - j,
            {
                let cj: char = line[j];
                let u = char_code(cj);
                r.push((u % 256) as u8);
                j += 1;
                proof {
                    assert(cj == line@[j - 1]);
                    lemma_char_byte_of(line@[j - 1], u);
                    lemma_line_bytes_snoc(line@, j as int);
                    assert(r@ =~= spec_bytes(self@.lines.subrange(0, i as int)) + spec_line_bytes(
                        line@.subrange(0, j as int),
                    ));
                }
            }
            r.push(10u8);
            i += 1;
            proof {
                lemma_spec_bytes_snoc(self@.lines.subrange(0, i - 1), self@.lines[i - 1]);
                assert(self@.lines.subrange(0, i as int) =~= self@.lines.subrange(0, i - 1).push(
                    self@.lines[i - 1],
                ));
                assert(line@.subrange(0, line@.len() as int) =~= line@);
                assert(r@ =~= spec_bytes(self@.lines.subrange(0, i - 1)) + spec_line_bytes(
                    self@.lines[i - 1],
                ) + seq![10u8]);
            }
        }
        proof {
            assert(self@.lines.subrange(0, self@.lines.len() as int) =~= self@.lines);
        }
        r
    }

    /// The visible slice of the document: the lines from the scroll offset
    /// through the viewport's last row (`rows + 1` lines at most), in display
    /// order, without mutating state.
    pub fn visible_lines(&self, rows: usize) -> (r: Vec<Vec<char>>)
        ensures
            lines_view(r@) == spec_visible(self@, rows as nat),
    {
        let doc_len = self.data.len();
        let mut r: Vec<Vec<char>> = Vec::new();
        let mut i: usize = 0;
        let mut more = true;
        proof {
            assert(lines_view(r@) =~= Seq::<Seq<char>>::empty());
        }
        while more && i <= rows
            invariant
                i <= rows + 1,
                self@.lines.len() == doc_len,
                r@.len() == i,
                self@.start < self@.lines.len() ==> self@.start + i <= self@.lines.len()
                    && lines_view(r@) == self@.lines.subrange(
                    self@.start as int,
                    self@.start as int + i,
                ),
                self@.start >= self@.lines.len() ==> i == 0 && lines_view(r@) == Seq::<
                    Seq<char>,
                >::empty(),
                !more ==> self@.start + i >= self@.lines.len(),
            decreases rows + 1 - i, (if more {
                1int
            } else {
                0int
            }),
        {
            match self.get_line(i) {
                Some(l) => {
                    r.push(clone_line(l));
                    i += 1;
                    proof {
                        assert(lines_view(r@) =~= self@.lines.subrange(
                            self@.start as int,
                            self@.start as int + i,
                        ));
                    }
                },
                None => {
                    more = false;
                },
            }
        }
        proof {
            if self@.start < self@.lines.len() {
                assert(lines_view(r@) =~= spec_visible(self@, rows as nat));
            }
        }
        r
    }

    /// Build document lines from raw file bytes: split on newline bytes, one
    /// character per byte; an empty file yields a single empty line, so the
    /// resulting document is never empty.
    pub fn lines_from_bytes(bytes: &Vec<u8>) -> (r: Vec<Vec<char>>)
        ensures
            r@.len() >= 1,
            split_lines(bytes@).len() == 0 ==> lines_view(r@) == seq![Seq::<char>::empty()],
            split_lines(bytes@).len() > 0 ==> lines_view(r@) == split_lines(bytes@),
    {
        let ghost whole = bytes@;
        let mut done: Vec<Vec<char>> = Vec::new();
        let mut cur: Vec<char> = Vec::new();
        let mut i: usize = 0;
        proof {
            assert(whole.subrange(0, whole.len() as int) =~= whole);
            assert(lines_view(done@) =~= Seq::<Seq<char>>::empty());
            if split_lines(whole).len() == 0 {
                assert(split_lines(whole) =~~= lines_view(done@) + prepend_first(
                    cur@,
                    split_lines(whole),
                ));
            } else {
                assert(split_lines(whole) =~~= lines_view(done@) + prepend_first(
                    cur@,
                    split_lines(whole),
                ));
            }
        }
        while i < bytes.len()
            invariant
                i <= bytes.len(),
                whole == bytes@,
                split_lines(whole) == lines_view(done@) + prepend_first(
                    cur@,
                    split_lines(whole.subrange(i as int, whole.len() as int)),
                ),
            decreases bytes.len() - i,
        {
            let ghost t = whole.subrange(i as int, whole.len() as int);
            proof {
                assert(t.len() > 0);
                assert(t.first() == whole[i as int]);
                assert(t.drop_first() =~= whole.subrange(i + 1, whole.len() as int));
            }
            let b = bytes[i];
            if b == 10 {
                proof {
                    lemma_prepend_nl(cur@, t);
                }
                done.push(cur);
                cur = Vec::new();
                proof {
                    assert(lines_view(done@) =~= lines_view(done@.drop_last()).push(
                        done@.last()@,
                    ));
                    assert(lines_view(done@.drop_last()) + seq![done@.last()@] =~= lines_view(
                        done@,
                    ));
                }
            } else {
                proof {
                    lemma_prepend_char(cur@, t);
                }
                cur.push(b as char);
            }
            i += 1;
            proof {
                assert(split_lines(whole) == lines_view(done@) + prepend_first(
                    cur@,
                    split_lines(whole.subrange(i as int, whole.len() as int)),
                ));
            }
        }
        proof {
            assert(whole.subrange(whole.len() as int, whole.len() as int).len() == 0);
        }
        if cur.len() > 0 {
            done.push(cur);
            proof {
                assert(lines_view(done@) =~= lines_view(done@.drop_last()).push(done@.last()@));
                assert(lines_view(done@) =~= split_lines(whole));
            }
        }
        if done.len() == 0 {
            done.push(Vec::new());
            proof {
                assert(lines_view(done@) =~= seq![Seq::<char>::empty()]);
            }
        }
        proof {
            if split_lines(whole).len() > 0 {
                assert(lines_view(done@) =~= split_lines(whole));
            }
        }
        done
    }
}

impl Undo for Buffer {
    fn undo(&mut self) {
        Buffer::undo(self);
    }
}

impl Redo for Buffer {
    fn redo(&mut self) {
        Buffer::redo(self);
    }
}

/// After a history step on the exec stacks, the model stacks have taken the
/// same step on the record's view.
proof fn lemma_hist_views(edits: Seq<Edit>, undos: Seq<Edit>, e: Edit, action: Action)
    ensures
        ({
            let p = hist_step(edits, undos, e, action);
            let q = hist_step(edit_views(edits), edit_views(undos), e@, action);
            edit_views(p.0) == q.0 && edit_views(p.1) == q.1
        }),
{
    let p = hist_step(edits, undos, e, action);
    let q = hist_step(edit_views(edits), edit_views(undos), e@, action);
    match action {
        Action::Do => {
            assert(edit_views(p.0) =~= q.0);
            assert(edit_views(p.1) =~= q.1);
        },
        Action::Undo => {
            if edits.len() > 0 {
                assert(edit_views(edits).last() == edits.last()@);
                assert(edit_views(p.0) =~= q.0);
                assert(edit_views(p.1) =~= q.1);
            }
        },
        Action::Redo => {
            if undos.len() > 0 {
                assert(edit_views(undos).last() == undos.last()@);
                assert(edit_views(p.0) =~= q.0);
                assert(edit_views(p.1) =~= q.1);
            }
        },
    }
}

} // verus!
