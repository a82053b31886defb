//! Snapshot-based linear undo/redo.
//!
//! Every mutating edit saves a full pre-mutation copy of the alignment and
//! the cursor position.  Undo and redo move those snapshots between two
//! stacks; a fresh save discards the redo stack (linear history, no
//! branching).

use vstd::prelude::*;

use crate::grid::Alignment;
use crate::grid::AlignmentModel;

verus! {

/// Model of a [`Snapshot`].
#[verifier::ext_equal]
pub ghost struct SnapshotModel {
    pub alignment: AlignmentModel,
    pub cursor_row: int,
    pub cursor_col: int,
}

/// A saved editing state: a full copy of the alignment together with the
/// cursor position at the time it was taken.
pub struct Snapshot {
    pub alignment: Alignment,
    pub cursor_row: usize,
    pub cursor_col: usize,
}

impl View for Snapshot {
    type V = SnapshotModel;

    open spec fn view(&self) -> SnapshotModel {
        SnapshotModel {
            alignment: self.alignment@,
            cursor_row: self.cursor_row as int,
            cursor_col: self.cursor_col as int,
        }
    }
}

/// Linear undo/redo history: two stacks of snapshots, most recent last.
pub struct History {
    undo_stack: Vec<Snapshot>,
    redo_stack: Vec<Snapshot>,
}

impl History {
    /// The undo stack, most recent snapshot last.
    pub closed spec fn undo_snapshots(self) -> Seq<SnapshotModel> {
        self.undo_stack@.map_values(|s: Snapshot| s@)
    }

    /// The redo stack, most recent snapshot last.
    pub closed spec fn redo_snapshots(self) -> Seq<SnapshotModel> {
        self.redo_stack@.map_values(|s: Snapshot| s@)
    }

    /// Create an empty history.
    pub fn new() -> (r: Self)
        ensures
            r.undo_snapshots().len() == 0,
            r.redo_snapshots().len() == 0,
    {
        History { undo_stack: Vec::new(), redo_stack: Vec::new() }
    }

    /// Number of snapshots available to undo.
    pub fn undo_depth(&self) -> (n: usize)
        ensures
            n == self.undo_snapshots().len(),
    {
        self.undo_stack.len()
    }

    /// Number of snapshots available to redo.
    pub fn redo_depth(&self) -> (n: usize)
        ensures
            n == self.redo_snapshots().len(),
    {
        self.redo_stack.len()
    }

    /// Push a deep copy of the current state onto the undo stack and discard
    /// the redo stack: a fresh edit makes the timeline linear again.
    pub fn save(&mut self, alignment: &Alignment, cursor_row: usize, cursor_col: usize)
        ensures
            final(self).undo_snapshots() == old(self).undo_snapshots().push(
                SnapshotModel {
                    alignment: alignment@,
                    cursor_row: cursor_row as int,
                    cursor_col: cursor_col as int,
                },
            ),
            final(self).redo_snapshots().len() == 0,
    {
        self.undo_stack.push(Snapshot { alignment: alignment.clone(), cursor_row, cursor_col });
        self.redo_stack.clear();
        proof {
            assert(self.undo_stack@.map_values(|s: Snapshot| s@) =~= old(
                self,
            ).undo_stack@.map_values(|s: Snapshot| s@).push(
                SnapshotModel {
                    alignment: alignment@,
                    cursor_row: cursor_row as int,
                    cursor_col: cursor_col as int,
                },
            ));
        }
    }

    /// Pop the most recent undo snapshot, saving the current state onto the
    /// redo stack; reports nothing (and changes nothing) when there is
    /// nothing to undo.
    pub fn undo(&mut self, current: &Alignment, cursor_row: usize, cursor_col: usize) -> (r: Option<
        Snapshot,
    >)
        ensures
            old(self).undo_snapshots().len() == 0 ==> r is None && final(self).undo_snapshots()
                == old(self).undo_snapshots() && final(self).redo_snapshots() == old(
                self,
            ).redo_snapshots(),
            old(self).undo_snapshots().len() > 0 ==> {
                &&& r matches Some(s) && s@ == old(self).undo_snapshots().last()
                &&& final(self).undo_snapshots() == old(self).undo_snapshots().drop_last()
                &&& final(self).redo_snapshots() == old(self).redo_snapshots().push(
                    SnapshotModel {
                        alignment: current@,
                        cursor_row: cursor_row as int,
                        cursor_col: cursor_col as int,
                    },
                )
            },
    {
        match self.undo_stack.pop() {
            Some(s) => {
                self.redo_stack.push(
                    Snapshot { alignment: current.clone(), cursor_row, cursor_col },
                );
                proof {
                    assert(self.undo_stack@.map_values(|s: Snapshot| s@) =~= old(
                        self,
                    ).undo_stack@.map_values(|s: Snapshot| s@).drop_last());
                    assert(self.redo_stack@.map_values(|s: Snapshot| s@) =~= old(
                        self,
                    ).redo_stack@.map_values(|s: Snapshot| s@).push(
                        SnapshotModel {
                            alignment: current@,
                            cursor_row: cursor_row as int,
                            cursor_col: cursor_col as int,
                        },
                    ));
                }
                Some(s)
            },
            None => None,
        }
    }

    /// Pop the most recent redo snapshot, saving the current state onto the
    /// undo stack; reports nothing (and changes nothing) when there is
    /// nothing to redo.
    pub fn redo(&mut self, current: &Alignment, cursor_row: usize, cursor_col: usize) -> (r: Option<
        Snapshot,
    >)
        ensures
            old(self).redo_snapshots().len() == 0 ==> r is None && final(self).undo_snapshots()
                == old(self).undo_snapshots() && final(self).redo_snapshots() == old(
                self,
            ).redo_snapshots(),
            old(self).redo_snapshots().len() > 0 ==> {
                &&& r matches Some(s) && s@ == old(self).redo_snapshots().last()
                &&& final(self).redo_snapshots() == old(self).redo_snapshots().drop_last()
                &&& final(self).undo_snapshots() == old(self).undo_snapshots().push(
                    SnapshotModel {
                        alignment: current@,
                        cursor_row: cursor_row as int,
                        cursor_col: cursor_col as int,
                    },
                )
            },
    {
        match self.redo_stack.pop() {
            Some(s) => {
                self.undo_stack.push(
                    Snapshot { alignment: current.clone(), cursor_row, cursor_col },
                );
                proof {
                    assert(self.redo_stack@.map_values(|s: Snapshot| s@) =~= old(
                        self,
                    ).redo_stack@.map_values(|s: Snapshot| s@).drop_last());
                    assert(self.undo_stack@.map_values(|s: Snapshot| s@) =~= old(
                        self,
                    ).undo_stack@.map_values(|s: Snapshot| s@).push(
                        SnapshotModel {
                            alignment: current@,
                            cursor_row: cursor_row as int,
                            cursor_col: cursor_col as int,
                        },
                    ));
                }
                Some(s)
            },
            None => None,
        }
    }

    /// Empty both stacks (invoked when a new file is loaded).
    pub fn clear(&mut self)
        ensures
            final(self).undo_snapshots().len() == 0,
            final(self).redo_snapshots().len() == 0,
    {
        self.undo_stack.clear();
        self.redo_stack.clear();
    }
}

} // verus!
