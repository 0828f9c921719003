//! Cursor-position history: a second undo/redo log, independent of the
//! document's content history, that records screen-coordinate moves. Undo
//! yields the coordinate to jump back to; redo the coordinate to jump
//! forward to. The caller performs the actual terminal cursor move.

use vstd::prelude::*;

use crate::history::{Action, History};

verus! {

/// One cursor-affecting action: the screen coordinate before it and after it.
#[derive(Clone, Copy)]
pub struct CursorPosition {
    before: (u16, u16),
    after: (u16, u16),
}

impl CursorPosition {
    pub closed spec fn spec_before(&self) -> (u16, u16) {
        self.before
    }

    pub closed spec fn spec_after(&self) -> (u16, u16) {
        self.after
    }

    pub fn new(before: (u16, u16), after: (u16, u16)) -> (r: Self)
        ensures
            r.spec_before() == before,
            r.spec_after() == after,
    {
        Self { before, after }
    }
}

pub struct Cursor {
    pub history: History<CursorPosition>,
}

impl Cursor {
    pub fn new(history: History<CursorPosition>) -> (r: Self)
        ensures
            r.history.spec_edits() == history.spec_edits(),
            r.history.spec_undos() == history.spec_undos(),
    {
        Self { history }
    }

    /// Pop the most recent cursor move and yield the coordinate it started
    /// from, for the caller to jump back to. `None` when nothing to undo.
    pub fn undo(&mut self) -> (r: Option<(u16, u16)>)
        ensures
            ({
                let es = old(self).history.spec_edits();
                let us = old(self).history.spec_undos();
                if es.len() > 0 {
                    &&& r == Some(es.last().spec_before())
                    &&& final(self).history.spec_edits() == es.drop_last()
                    &&& final(self).history.spec_undos() == us.push(es.last())
                } else {
                    &&& r is None
                    &&& final(self).history.spec_edits() == es
                    &&& final(self).history.spec_undos() == us
                }
            }),
    {
        let prev: Option<CursorPosition> = match self.history.last_from(Action::Undo) {
            Some(p) => Some(*p),
            None => None,
        };
        match prev {
            Some(p) => {
                self.history.update(p, Action::Undo);
                Some(p.before)
            },
            None => None,
        }
    }

    /// Replay the most recent undone cursor move and yield the coordinate it
    /// ended at, for the caller to jump forward to.
    pub fn redo(&mut self) -> (r: Option<(u16, u16)>)
        ensures
            ({
                let es = old(self).history.spec_edits();
                let us = old(self).history.spec_undos();
                if us.len() > 0 {
                    &&& r == Some(us.last().spec_after())
                    &&& final(self).history.spec_edits() == es.push(us.last())
                    &&& final(self).history.spec_undos() == us.drop_last()
                } else {
                    &&& r is None
                    &&& final(self).history.spec_edits() == es
                    &&& final(self).history.spec_undos() == us
                }
            }),
    {
        let next: Option<CursorPosition> = match self.history.last_from(Action::Redo) {
            Some(p) => Some(*p),
            None => None,
        };
        match next {
            Some(p) => {
                self.history.update(p, Action::Redo);
                Some(p.after)
            },
            None => None,
        }
    }
}

} // verus!
