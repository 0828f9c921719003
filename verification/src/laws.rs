//! Global properties of the document buffer, stated over the buffer model
//! and proved once and for all: a run of character edits is fully reversible,
//! and inserting a line then deleting it at the same row is a no-op.

use vstd::prelude::*;

use crate::buffer::{
    spec_delete_char, spec_delete_char_at, spec_delete_line, spec_insert_char, spec_insert_char_at,
    spec_insert_line, spec_undo, BufferModel, EditModel,
};
use crate::history::Action;

verus! {

/// One character-level edit on a fixed viewport row: an insertion or a
/// deletion at a column.
pub ghost enum CharOp {
    Ins { col: nat, c: char },
    Del { col: nat },
}

pub open spec fn apply_char_op(m: BufferModel, row: nat, op: CharOp) -> BufferModel {
    match op {
        CharOp::Ins { col, c } => spec_insert_char(m, row, col, c, Action::Do),
        CharOp::Del { col } => spec_delete_char(m, row, col, Action::Do),
    }
}

pub open spec fn apply_char_ops(m: BufferModel, row: nat, ops: Seq<CharOp>) -> BufferModel
    decreases ops.len(),
{
    if ops.len() == 0 {
        m
    } else {
        apply_char_op(apply_char_ops(m, row, ops.drop_last()), row, ops.last())
    }
}

pub open spec fn undo_n(m: BufferModel, n: nat) -> BufferModel
    decreases n,
{
    if n == 0 {
        m
    } else {
        undo_n(spec_undo(m), (n - 1) as nat)
    }
}

/// What an undo does to the lines and the applied-edit stack depends on those
/// two components alone, never on the undone stack.
proof fn lemma_undo_congruent(m1: BufferModel, m2: BufferModel)
    requires
        m1.lines == m2.lines,
        m1.edits == m2.edits,
    ensures
        spec_undo(m1).lines == spec_undo(m2).lines,
        spec_undo(m1).edits == spec_undo(m2).edits,
{
}

proof fn lemma_undo_n_congruent(m1: BufferModel, m2: BufferModel, n: nat)
    requires
        m1.lines == m2.lines,
        m1.edits == m2.edits,
    ensures
        undo_n(m1, n).lines == undo_n(m2, n).lines,
        undo_n(m1, n).edits == undo_n(m2, n).edits,
    decreases n,
{
    if n > 0 {
        lemma_undo_congruent(m1, m2);
        lemma_undo_n_congruent(spec_undo(m1), spec_undo(m2), (n - 1) as nat);
    }
}

/// One character edit either leaves the buffer untouched, or pushes exactly
/// one record whose undo restores the previous lines and edit stack.
proof fn lemma_char_op_inverts(m: BufferModel, row: nat, op: CharOp)
    ensures
        ({
            let m1 = apply_char_op(m, row, op);
            m1 == m || (m1.edits.len() == m.edits.len() + 1 && m1.start == m.start && spec_undo(
                m1,
            ).lines == m.lines && spec_undo(m1).edits == m.edits)
        }),
{
    let m1 = apply_char_op(m, row, op);
    let abs = row + m.start;
    match op {
        CharOp::Ins { col, c } => {
            if abs < m.lines.len() {
                let line = m.lines[abs as int];
                let eff: int = if col <= line.len() {
                    col as int
                } else {
                    line.len() as int
                };
                assert(m1.lines == m.lines.update(abs as int, line.insert(eff, c)));
                assert(m1.lines[abs as int] == line.insert(eff, c));
                assert(m1.edits == m.edits.push(
                    EditModel::InsertChar { row: abs, col: eff as nat, c },
                ));
                assert(m1.edits.last() == EditModel::InsertChar { row: abs, col: eff as nat, c });
                assert(m1.edits.len() > 0);
                assert(m1.edits.drop_last() =~= m.edits);
                assert(line.insert(eff, c).len() == line.len() + 1);
                assert(m1.lines[abs as int].len() == line.len() + 1);
                assert((eff as nat) < m1.lines[abs as int].len());
                assert(spec_undo(m1) == spec_delete_char_at(
                    m1,
                    abs,
                    eff as nat,
                    Action::Undo,
                ));
                assert(spec_undo(m1).lines == m1.lines.update(
                    abs as int,
                    m1.lines[abs as int].remove(eff),
                ));
                assert(line.insert(eff, c).remove(eff) =~= line);
                assert(m1.lines[abs as int].remove(eff) == line);
                assert(spec_undo(m1).lines =~= m.lines);
                assert(spec_undo(m1).edits =~= m.edits);
            }
        },
        CharOp::Del { col } => {
            if abs < m.lines.len() && col < m.lines[abs as int].len() {
                let line = m.lines[abs as int];
                assert(m1.lines == m.lines.update(abs as int, line.remove(col as int)));
                assert(m1.lines[abs as int] == line.remove(col as int));
                assert(m1.edits == m.edits.push(
                    EditModel::DeleteChar { row: abs, col, deleted: line[col as int] },
                ));
                assert(m1.edits.last() == EditModel::DeleteChar {
                    row: abs,
                    col,
                    deleted: line[col as int],
                });
                assert(m1.edits.len() > 0);
                assert(m1.edits.drop_last() =~= m.edits);
                assert(line.remove(col as int).len() == line.len() - 1);
                assert(col <= m1.lines[abs as int].len());
                assert(spec_undo(m1) == spec_insert_char_at(
                    m1,
                    abs,
                    col,
                    line[col as int],
                    Action::Undo,
                ));
                assert(spec_undo(m1).lines == m1.lines.update(
                    abs as int,
                    m1.lines[abs as int].insert(col as int, line[col as int]),
                ));
                assert(line.remove(col as int).insert(col as int, line[col as int]) =~= line);
                assert(m1.lines[abs as int].insert(col as int, line[col as int]) == line);
                assert(spec_undo(m1).lines =~= m.lines);
                assert(spec_undo(m1).edits =~= m.edits);
            }
        },
    }
}

proof fn lemma_undo_run(m: BufferModel, row: nat, ops: Seq<CharOp>)
    ensures
        ({
            let mn = apply_char_ops(m, row, ops);
            mn.edits.len() >= m.edits.len() && mn.start == m.start && undo_n(
                mn,
                (mn.edits.len() - m.edits.len()) as nat,
            ).lines == m.lines && undo_n(mn, (mn.edits.len() - m.edits.len()) as nat).edits
                == m.edits
        }),
    decreases ops.len(),
{
    if ops.len() > 0 {
        let ma = apply_char_ops(m, row, ops.drop_last());
        lemma_undo_run(m, row, ops.drop_last());
        let mn = apply_char_ops(m, row, ops);
        assert(mn == apply_char_op(ma, row, ops.last()));
        lemma_char_op_inverts(ma, row, ops.last());
        let k = (ma.edits.len() - m.edits.len()) as nat;
        if mn == ma {
            assert(undo_n(mn, k).lines == m.lines);
        } else {
            assert(mn.edits.len() == ma.edits.len() + 1);
            let kn = (mn.edits.len() - m.edits.len()) as nat;
            assert(kn == k + 1);
            assert(undo_n(mn, kn) == undo_n(spec_undo(mn), k));
            lemma_undo_n_congruent(spec_undo(mn), ma, k);
        }
    }
}

/// Law: for any run of character insertions and deletions on a single line of
/// a buffer whose history starts empty, undoing until the history is
/// exhausted restores the original lines exactly.
pub proof fn lemma_undo_restores_content(m: BufferModel, row: nat, ops: Seq<CharOp>)
    requires
        m.edits.len() == 0,
    ensures
        ({
            let mn = apply_char_ops(m, row, ops);
            undo_n(mn, mn.edits.len()).lines == m.lines && undo_n(mn, mn.edits.len()).edits.len()
                == 0
        }),
{
    lemma_undo_run(m, row, ops);
}

/// Law: inserting a line and immediately deleting it at the same viewport row
/// leaves the line count and the line contents unchanged, for every row that
/// lands inside the document (up to and including one past the last line).
pub proof fn lemma_insert_then_delete_line(m: BufferModel, row: nat, line: Seq<char>)
    requires
        row + m.start <= m.lines.len(),
    ensures
        ({
            let m2 = spec_delete_line(spec_insert_line(m, row, line, Action::Do), row, Action::Do);
            m2.lines == m.lines && m2.lines.len() == m.lines.len()
        }),
{
    let abs = row + m.start;
    let m1 = spec_insert_line(m, row, line, Action::Do);
    assert(m1.lines == m.lines.insert(abs as int, line));
    assert(m1.lines.len() == m.lines.len() + 1);
    assert(m1.start == m.start);
    let m2 = spec_delete_line(m1, row, Action::Do);
    assert(m2.lines == m1.lines.remove(abs as int));
    assert(m2.lines =~= m.lines);
}

} // verus!
