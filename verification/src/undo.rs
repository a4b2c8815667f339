//! The history of edits, for undo and redo.

use vstd::prelude::*;
use vstd::string::*;
use crate::location::Location;

verus! {

/// An edit that was made: `text` was inserted at `at`, or deleted there.
#[derive(Debug)]
pub enum EditOp {
    Insert { at: Location, text: String },
    Delete { at: Location, text: String },
}

/// Two stacks of edits: those that can be undone and those that can be done
/// again.
#[derive(Debug)]
pub struct UndoHistory {
    undo_stack: Vec<EditOp>,
    redo_stack: Vec<EditOp>,
}

impl UndoHistory {
    /// The edits that can be undone, the latest last.
    pub closed spec fn undo_stack(&self) -> Seq<EditOp> {
        self.undo_stack@
    }

    /// The edits that can be done again, the one undone last at the end.
    pub closed spec fn redo_stack(&self) -> Seq<EditOp> {
        self.redo_stack@
    }

    /// The empty history.
    pub fn new() -> (r: Self)
        ensures
            r.undo_stack() == Seq::<EditOp>::empty(),
            r.redo_stack() == Seq::<EditOp>::empty(),
    {
        UndoHistory { undo_stack: Vec::new(), redo_stack: Vec::new() }
    }

    /// Records an edit that can be undone.
    pub fn push_edit(&mut self, op: EditOp)
        ensures
            final(self).undo_stack() == old(self).undo_stack().push(op),
            final(self).redo_stack() == old(self).redo_stack(),
    {
        self.undo_stack.push(op);
    }

    /// Takes the latest edit that can be undone.
    pub fn pop_undo(&mut self) -> (r: Option<EditOp>)
        ensures
            final(self).redo_stack() == old(self).redo_stack(),
            old(self).undo_stack().len() == 0 ==> r is None && final(self).undo_stack() == old(self).undo_stack(),
            old(self).undo_stack().len() > 0 ==> r == Some(old(self).undo_stack().last()) && final(self).undo_stack() == old(self).undo_stack().drop_last(),
    {
        self.undo_stack.pop()
    }

    /// Takes the edit that was undone last.
    pub fn pop_redo(&mut self) -> (r: Option<EditOp>)
        ensures
            final(self).undo_stack() == old(self).undo_stack(),
            old(self).redo_stack().len() == 0 ==> r is None && final(self).redo_stack() == old(self).redo_stack(),
            old(self).redo_stack().len() > 0 ==> r == Some(old(self).redo_stack().last()) && final(self).redo_stack() == old(self).redo_stack().drop_last(),
    {
        self.redo_stack.pop()
    }

    /// Records an edit that was undone.
    pub fn push_redo(&mut self, op: EditOp)
        ensures
            final(self).redo_stack() == old(self).redo_stack().push(op),
            final(self).undo_stack() == old(self).undo_stack(),
    {
        self.redo_stack.push(op);
    }

    /// Forgets the edits that were undone.
    pub fn clear_redo(&mut self)
        ensures
            final(self).redo_stack() == Seq::<EditOp>::empty(),
            final(self).undo_stack() == old(self).undo_stack(),
    {
        self.redo_stack.clear();
    }

    /// Forgets everything.
    pub fn clear_all(&mut self)
        ensures
            final(self).redo_stack() == Seq::<EditOp>::empty(),
            final(self).undo_stack() == Seq::<EditOp>::empty(),
    {
        self.undo_stack.clear();
        self.redo_stack.clear();
    }

    /// Whether an edit can be undone.
    pub fn has_undo(&self) -> (r: bool)
        ensures
            r == (self.undo_stack().len() > 0),
    {
        self.undo_stack.len() > 0
    }

    /// Whether an edit can be done again.
    pub fn has_redo(&self) -> (r: bool)
        ensures
            r == (self.redo_stack().len() > 0),
    {
        self.redo_stack.len() > 0
    }
}

impl Default for UndoHistory {
    fn default() -> (r: Self)
        ensures
            r.undo_stack() == Seq::<EditOp>::empty(),
            r.redo_stack() == Seq::<EditOp>::empty(),
    {
        Self::new()
    }
}

} // verus!
