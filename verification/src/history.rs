//! Generic undo/redo log: two stacks of reversible records. `edits` holds the
//! applied records (most recent last), `undos` the records removed by undo.

use vstd::prelude::*;

verus! {

/// How a mutation relates to the history: a fresh edit (`Do`), the replay of
/// an inverse during undo (`Undo`), or the replay of an undone edit (`Redo`).
#[derive(Clone, Copy)]
pub enum Action {
    Do,
    Undo,
    Redo,
}

pub trait Undo {
    fn undo(&mut self);
}

pub trait Redo {
    fn redo(&mut self);
}

/// The two stacks after one bookkeeping step. A `Do` pushes the record onto
/// `edits`; `Undo` moves the top of `edits` onto `undos` (the record argument
/// is not consulted); `Redo` moves the top of `undos` back onto `edits`.
/// A fresh edit does not clear `undos`, so a redo after a fresh edit replays
/// the stale record; that observed behaviour is kept as it stands.
pub open spec fn hist_step<T>(edits: Seq<T>, undos: Seq<T>, event: T, action: Action) -> (Seq<T>,
    Seq<T>) {
    match action {
        Action::Do => (edits.push(event), undos),
        Action::Undo => if edits.len() > 0 {
            (edits.drop_last(), undos.push(edits.last()))
        } else {
            (edits, undos)
        },
        Action::Redo => if undos.len() > 0 {
            (edits.push(undos.last()), undos.drop_last())
        } else {
            (edits, undos)
        },
    }
}

pub struct History<T> {
    edits: Vec<T>,
    undos: Vec<T>,
}

impl<T> History<T> {
    pub closed spec fn spec_edits(&self) -> Seq<T> {
        self.edits@
    }

    pub closed spec fn spec_undos(&self) -> Seq<T> {
        self.undos@
    }

    pub fn new() -> (h: Self)
        ensures
            h.spec_edits() == Seq::<T>::empty(),
            h.spec_undos() == Seq::<T>::empty(),
    {
        Self { edits: Vec::new(), undos: Vec::new() }
    }

    pub fn update(&mut self, event: T, action: Action)
        ensures
            (final(self).spec_edits(), final(self).spec_undos()) == hist_step(
                old(self).spec_edits(),
                old(self).spec_undos(),
                event,
                action,
            ),
    {
        match action {
            Action::Do => self.edits.push(event),
            Action::Undo => {
                match self.edits.pop() {
                    Some(prev_edit) => {
                        self.undos.push(prev_edit);
                        proof {
                            assert(self.edits@ =~= old(self).spec_edits().drop_last());
                        }
                    },
                    None => {},
                }
            },
            Action::Redo => {
                match self.undos.pop() {
                    Some(prev_undo) => {
                        self.edits.push(prev_undo);
                        proof {
                            assert(self.undos@ =~= old(self).spec_undos().drop_last());
                        }
                    },
                    None => {},
                }
            },
        }
    }

    /// The record the next undo (for `Undo`) or redo (for `Do` / `Redo`)
    /// would replay, without removing it.
    pub fn last_from(&self, action: Action) -> (r: Option<&T>)
        ensures
            match action {
                Action::Undo => match r {
                    Some(e) => self.spec_edits().len() > 0 && *e == self.spec_edits().last(),
                    None => self.spec_edits().len() == 0,
                },
                Action::Do | Action::Redo => match r {
                    Some(e) => self.spec_undos().len() > 0 && *e == self.spec_undos().last(),
                    None => self.spec_undos().len() == 0,
                },
            },
    {
        match action {
            Action::Do | Action::Redo => self.undos.as_slice().last(),
            Action::Undo => self.edits.as_slice().last(),
        }
    }
}

} // verus!
