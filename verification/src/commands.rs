//! The editing commands: cursor-relative mutations of the alignment, each
//! of which snapshots the session into the undo history before touching
//! anything, and the undo/redo commands that restore those snapshots.

use vstd::prelude::*;

use crate::grid::can_shift_left;
use crate::grid::can_shift_right;
use crate::grid::row_gap_inserted;
use crate::grid::row_gap_removed;
use crate::grid::row_shifted_left_in;
use crate::grid::row_shifted_right_in;
use crate::grid::sequence_removed;
use crate::grid::sequences_transformed;
use crate::grid::thrown_left;
use crate::grid::thrown_right;
use crate::grid::throw_budget;
use crate::grid::CharTransform;
use crate::chars::chars_eq_str;
use crate::chars::chars_to_string;
use crate::chars::find_char;
use crate::chars::find_char_in;
use crate::chars::lemma_find_char;
use crate::chars::spec_tokens;
use crate::chars::tokenize;
use crate::chars::trim_chars;
use crate::chars::trimmed;
use crate::chars::vec_skip;
use crate::chars::vec_take;
use crate::session::scheme_name;
use crate::session::scheme_of;
use crate::session::App;
use crate::session::ColorScheme;
use crate::session::Mode;
use crate::session::SaveRequest;
use crate::undo::SnapshotModel;

verus! {

impl App {
    /// The snapshot of the current session state, as the undo history
    /// records it.
    pub open spec fn snapshot_model(self) -> SnapshotModel {
        SnapshotModel {
            alignment: self.alignment@,
            cursor_row: self.cursor_row as int,
            cursor_col: self.cursor_col as int,
        }
    }

    /// Save the current state for undo (called before every mutation).
    fn save_undo_state(&mut self)
        ensures
            *final(self) == (App { history: final(self).history, ..*old(self) }),
            final(self).history.undo_snapshots() == old(self).history.undo_snapshots().push(
                old(self).snapshot_model(),
            ),
            final(self).history.redo_snapshots().len() == 0,
    {
        self.history.save(&self.alignment, self.cursor_row, self.cursor_col);
    }

    /// Insert a gap at the cursor in the current sequence (and its residue
    /// annotations), then step the cursor right.
    pub fn insert_gap(&mut self)
        ensures
            *final(self) == (App {
                alignment: final(self).alignment,
                history: final(self).history,
                cursor_col: final(self).cursor_col,
                modified: true,
                ..*old(self)
            }),
            final(self).alignment@ == row_gap_inserted(
                old(self).alignment@,
                old(self).cursor_row as int,
                old(self).cursor_col as int,
                old(self).gap_char,
            ),
            final(self).history.undo_snapshots() == old(self).history.undo_snapshots().push(
                old(self).snapshot_model(),
            ),
            final(self).history.redo_snapshots().len() == 0,
            final(self).cursor_col == (if old(self).cursor_col + 1
                < final(self).alignment@.width() {
                old(self).cursor_col + 1
            } else {
                old(self).cursor_col as int
            }),
    {
        self.save_undo_state();
        let row = self.cursor_row;
        let col = self.cursor_col;
        let gap = self.gap_char;
        self.alignment.insert_gap_in_row(row, col, gap);
        self.mark_modified();
        self.cursor_right();
    }

    /// Delete the gap under the cursor (and the same column of the current
    /// sequence's residue annotations); refuses, with a status message and
    /// no mutation, when the cursor is not on a gap.
    pub fn delete_gap(&mut self) -> (r: bool)
        ensures
            r == (old(self).alignment@.char_at(
                old(self).cursor_row as int,
                old(self).cursor_col as int,
            ) matches Some(c) && old(self).gap_chars@.contains(c)),
            !r ==> *final(self) == (App {
                status_message: final(self).status_message,
                ..*old(self)
            }) && (final(self).status_message matches Some(m) && m@ == "Not a gap character"@),
            r ==> *final(self) == (App {
                alignment: final(self).alignment,
                history: final(self).history,
                modified: true,
                ..*old(self)
            }) && final(self).alignment@ == row_gap_removed(
                old(self).alignment@,
                old(self).cursor_row as int,
                old(self).cursor_col as int,
            ) && final(self).history.undo_snapshots() == old(self).history.undo_snapshots().push(
                old(self).snapshot_model(),
            ) && final(self).history.redo_snapshots().len() == 0,
    {
        if !self.is_current_gap() {
            self.set_status("Not a gap character");
            return false;
        }
        self.save_undo_state();
        let row = self.cursor_row;
        let col = self.cursor_col;
        let deleted = self.alignment.delete_gap_in_row(row, col, &self.gap_chars);
        self.mark_modified();
        deleted
    }

    /// Insert a gap column at the cursor column into every sequence and
    /// annotation row, then refresh the structure cache.
    pub fn insert_gap_column(&mut self)
        ensures
            *final(self) == (App {
                alignment: final(self).alignment,
                history: final(self).history,
                structure_cache: final(self).structure_cache,
                modified: true,
                ..*old(self)
            }),
            final(self).alignment@ == old(self).alignment@.with_gap_column(
                old(self).cursor_col as int,
                old(self).gap_char,
            ),
            final(self).history.undo_snapshots() == old(self).history.undo_snapshots().push(
                old(self).snapshot_model(),
            ),
            final(self).history.redo_snapshots().len() == 0,
            final(self).cache_in_sync(),
    {
        self.save_undo_state();
        let col = self.cursor_col;
        let gap = self.gap_char;
        self.alignment.insert_gap_column(col, gap);
        self.mark_modified();
        self.update_structure_cache();
    }

    /// Delete the column under the cursor, provided every sequence carries
    /// a gap there; on failure report a status message and mutate nothing.
    pub fn delete_gap_column(&mut self) -> (r: bool)
        ensures
            r == old(self).alignment@.column_all_gaps(
                old(self).gap_chars@,
                old(self).cursor_col as int,
            ),
            !r ==> *final(self) == (App {
                status_message: final(self).status_message,
                ..*old(self)
            }) && (final(self).status_message matches Some(m) && m@
                == "Column contains non-gap characters"@),
            r ==> *final(self) == (App {
                alignment: final(self).alignment,
                history: final(self).history,
                structure_cache: final(self).structure_cache,
                cursor_row: final(self).cursor_row,
                cursor_col: final(self).cursor_col,
                modified: true,
                ..*old(self)
            }) && final(self).alignment@ == old(self).alignment@.without_column(
                old(self).cursor_col as int,
            ) && final(self).history.undo_snapshots() == old(self).history.undo_snapshots().push(
                old(self).snapshot_model(),
            ) && final(self).history.redo_snapshots().len() == 0 && final(self).cache_in_sync(),
    {
        let col = self.cursor_col;
        if !self.alignment.column_is_all_gaps(col, &self.gap_chars) {
            self.set_status("Column contains non-gap characters");
            return false;
        }
        self.save_undo_state();
        let _removed = self.alignment.delete_gap_column(col, &self.gap_chars);
        self.mark_modified();
        self.clamp_cursor();
        self.update_structure_cache();
        true
    }

    /// Shift the current sequence left at the cursor column; on failure
    /// report a status message (the pre-shift snapshot stays saved).
    pub fn shift_sequence_left(&mut self) -> (r: bool)
        ensures
            r == (old(self).cursor_row < old(self).alignment@.sequences.len() && can_shift_left(
                old(self).alignment@.sequences[old(self).cursor_row as int].data,
                old(self).gap_chars@,
                old(self).cursor_col as int,
            )),
            final(self).history.undo_snapshots() == old(self).history.undo_snapshots().push(
                old(self).snapshot_model(),
            ),
            final(self).history.redo_snapshots().len() == 0,
            r ==> *final(self) == (App {
                alignment: final(self).alignment,
                history: final(self).history,
                modified: true,
                ..*old(self)
            }) && final(self).alignment@ == row_shifted_left_in(
                old(self).alignment@,
                old(self).cursor_row as int,
                old(self).cursor_col as int,
                old(self).gap_chars@,
            ),
            !r ==> *final(self) == (App {
                alignment: final(self).alignment,
                history: final(self).history,
                status_message: final(self).status_message,
                ..*old(self)
            }) && final(self).alignment@ == old(self).alignment@ && (final(self).status_message
                matches Some(m) && m@ == "Cannot shift left (no gap found)"@),
    {
        self.save_undo_state();
        let row = self.cursor_row;
        let col = self.cursor_col;
        let ok = self.alignment.shift_row_left(row, col, &self.gap_chars);
        if ok {
            self.mark_modified();
        } else {
            self.set_status("Cannot shift left (no gap found)");
        }
        ok
    }

    /// Shift the current sequence right at the cursor column; on failure
    /// report a status message (the pre-shift snapshot stays saved).
    pub fn shift_sequence_right(&mut self) -> (r: bool)
        ensures
            r == (old(self).cursor_row < old(self).alignment@.sequences.len() && can_shift_right(
                old(self).alignment@.sequences[old(self).cursor_row as int].data,
                old(self).gap_chars@,
                old(self).cursor_col as int,
            )),
            final(self).history.undo_snapshots() == old(self).history.undo_snapshots().push(
                old(self).snapshot_model(),
            ),
            final(self).history.redo_snapshots().len() == 0,
            r ==> *final(self) == (App {
                alignment: final(self).alignment,
                history: final(self).history,
                modified: true,
                ..*old(self)
            }) && final(self).alignment@ == row_shifted_right_in(
                old(self).alignment@,
                old(self).cursor_row as int,
                old(self).cursor_col as int,
                old(self).gap_chars@,
            ),
            !r ==> *final(self) == (App {
                alignment: final(self).alignment,
                history: final(self).history,
                status_message: final(self).status_message,
                ..*old(self)
            }) && final(self).alignment@ == old(self).alignment@ && (final(self).status_message
                matches Some(m) && m@ == "Cannot shift right (no gap found)"@),
    {
        self.save_undo_state();
        let row = self.cursor_row;
        let col = self.cursor_col;
        let ok = self.alignment.shift_row_right(row, col, &self.gap_chars);
        if ok {
            self.mark_modified();
        } else {
            self.set_status("Cannot shift right (no gap found)");
        }
        ok
    }

    /// Throw the current sequence left: repeat the left shift at the cursor
    /// column until no gap is found, and report whether anything moved.
    pub fn throw_sequence_left(&mut self)
        ensures
            final(self).history.undo_snapshots() == old(self).history.undo_snapshots().push(
                old(self).snapshot_model(),
            ),
            final(self).history.redo_snapshots().len() == 0,
            final(self).alignment@ == thrown_left(
                old(self).alignment@,
                old(self).cursor_row as int,
                old(self).cursor_col as int,
                old(self).gap_chars@,
                throw_budget(old(self).alignment@, old(self).cursor_row as int),
            ),
            ({
                let moved = old(self).cursor_row < old(self).alignment@.sequences.len()
                    && can_shift_left(
                    old(self).alignment@.sequences[old(self).cursor_row as int].data,
                    old(self).gap_chars@,
                    old(self).cursor_col as int,
                );
                if moved {
                    *final(self) == (App {
                        alignment: final(self).alignment,
                        history: final(self).history,
                        modified: true,
                        ..*old(self)
                    })
                } else {
                    *final(self) == (App {
                        alignment: final(self).alignment,
                        history: final(self).history,
                        status_message: final(self).status_message,
                        ..*old(self)
                    }) && (final(self).status_message matches Some(m) && m@
                        == "Cannot throw left (no gaps found)"@)
                }
            }),
    {
        self.save_undo_state();
        let row = self.cursor_row;
        let col = self.cursor_col;
        let moved = self.alignment.throw_row_left(row, col, &self.gap_chars);
        if moved {
            self.mark_modified();
        } else {
            self.set_status("Cannot throw left (no gaps found)");
        }
    }

    /// Throw the current sequence right: repeat the right shift at the
    /// cursor column until no gap is found, and report whether anything
    /// moved.
    pub fn throw_sequence_right(&mut self)
        ensures
            final(self).history.undo_snapshots() == old(self).history.undo_snapshots().push(
                old(self).snapshot_model(),
            ),
            final(self).history.redo_snapshots().len() == 0,
            final(self).alignment@ == thrown_right(
                old(self).alignment@,
                old(self).cursor_row as int,
                old(self).cursor_col as int,
                old(self).gap_chars@,
                throw_budget(old(self).alignment@, old(self).cursor_row as int),
            ),
            ({
                let moved = old(self).cursor_row < old(self).alignment@.sequences.len()
                    && can_shift_right(
                    old(self).alignment@.sequences[old(self).cursor_row as int].data,
                    old(self).gap_chars@,
                    old(self).cursor_col as int,
                );
                if moved {
                    *final(self) == (App {
                        alignment: final(self).alignment,
                        history: final(self).history,
                        modified: true,
                        ..*old(self)
                    })
                } else {
                    *final(self) == (App {
                        alignment: final(self).alignment,
                        history: final(self).history,
                        status_message: final(self).status_message,
                        ..*old(self)
                    }) && (final(self).status_message matches Some(m) && m@
                        == "Cannot throw right (no gaps found)"@)
                }
            }),
    {
        self.save_undo_state();
        let row = self.cursor_row;
        let col = self.cursor_col;
        let moved = self.alignment.throw_row_right(row, col, &self.gap_chars);
        if moved {
            self.mark_modified();
        } else {
            self.set_status("Cannot throw right (no gaps found)");
        }
    }

    /// Undo the last edit: restore the most recent snapshot, saving the
    /// current state for redo; reports "nothing to undo" when the history
    /// is empty.
    pub fn undo(&mut self)
        ensures
            old(self).history.undo_snapshots().len() == 0 ==> *final(self) == (App {
                history: final(self).history,
                status_message: final(self).status_message,
                ..*old(self)
            }) && final(self).history.undo_snapshots() == old(self).history.undo_snapshots()
                && final(self).history.redo_snapshots() == old(self).history.redo_snapshots() && (
            final(self).status_message matches Some(m) && m@ == "Nothing to undo"@),
            old(self).history.undo_snapshots().len() > 0 ==> {
                let snap = old(self).history.undo_snapshots().last();
                &&& *final(self) == (App {
                    alignment: final(self).alignment,
                    history: final(self).history,
                    structure_cache: final(self).structure_cache,
                    cursor_row: final(self).cursor_row,
                    cursor_col: final(self).cursor_col,
                    modified: true,
                    status_message: final(self).status_message,
                    ..*old(self)
                })
                &&& final(self).alignment@ == snap.alignment
                &&& final(self).cursor_row == snap.cursor_row
                &&& final(self).cursor_col == snap.cursor_col
                &&& final(self).history.undo_snapshots() == old(
                    self,
                ).history.undo_snapshots().drop_last()
                &&& final(self).history.redo_snapshots() == old(
                    self,
                ).history.redo_snapshots().push(old(self).snapshot_model())
                &&& final(self).cache_in_sync()
                &&& final(self).status_message matches Some(m) && m@ == "Undo"@
            },
    {
        let row = self.cursor_row;
        let col = self.cursor_col;
        let popped = self.history.undo(&self.alignment, row, col);
        match popped {
            Some(snapshot) => {
                self.alignment = snapshot.alignment;
                self.cursor_row = snapshot.cursor_row;
                self.cursor_col = snapshot.cursor_col;
                self.modified = true;
                self.update_structure_cache();
                self.set_status("Undo");
            },
            None => {
                self.set_status("Nothing to undo");
            },
        }
    }

    /// Redo the last undone edit: restore the most recent redo snapshot,
    /// saving the current state for undo; reports "nothing to redo" when
    /// there is none.
    pub fn redo(&mut self)
        ensures
            old(self).history.redo_snapshots().len() == 0 ==> *final(self) == (App {
                history: final(self).history,
                status_message: final(self).status_message,
                ..*old(self)
            }) && final(self).history.undo_snapshots() == old(self).history.undo_snapshots()
                && final(self).history.redo_snapshots() == old(self).history.redo_snapshots() && (
            final(self).status_message matches Some(m) && m@ == "Nothing to redo"@),
            old(self).history.redo_snapshots().len() > 0 ==> {
                let snap = old(self).history.redo_snapshots().last();
                &&& *final(self) == (App {
                    alignment: final(self).alignment,
                    history: final(self).history,
                    structure_cache: final(self).structure_cache,
                    cursor_row: final(self).cursor_row,
                    cursor_col: final(self).cursor_col,
                    modified: true,
                    status_message: final(self).status_message,
                    ..*old(self)
                })
                &&& final(self).alignment@ == snap.alignment
                &&& final(self).cursor_row == snap.cursor_row
                &&& final(self).cursor_col == snap.cursor_col
                &&& final(self).history.redo_snapshots() == old(
                    self,
                ).history.redo_snapshots().drop_last()
                &&& final(self).history.undo_snapshots() == old(
                    self,
                ).history.undo_snapshots().push(old(self).snapshot_model())
                &&& final(self).cache_in_sync()
                &&& final(self).status_message matches Some(m) && m@ == "Redo"@
            },
    {
        let row = self.cursor_row;
        let col = self.cursor_col;
        let popped = self.history.redo(&self.alignment, row, col);
        match popped {
            Some(snapshot) => {
                self.alignment = snapshot.alignment;
                self.cursor_row = snapshot.cursor_row;
                self.cursor_col = snapshot.cursor_col;
                self.modified = true;
                self.update_structure_cache();
                self.set_status("Redo");
            },
            None => {
                self.set_status("Nothing to redo");
            },
        }
    }

    /// Delete the sequence under the cursor together with its annotation
    /// groups; a cursor outside the sequence list is a no-op.
    pub fn delete_sequence(&mut self)
        ensures
            old(self).cursor_row >= old(self).alignment@.sequences.len() ==> *final(self) == *old(
                self,
            ),
            old(self).cursor_row < old(self).alignment@.sequences.len() ==> {
                &&& *final(self) == (App {
                    alignment: final(self).alignment,
                    history: final(self).history,
                    cursor_row: final(self).cursor_row,
                    cursor_col: final(self).cursor_col,
                    modified: true,
                    ..*old(self)
                })
                &&& final(self).alignment@ == sequence_removed(
                    old(self).alignment@,
                    old(self).cursor_row as int,
                )
                &&& final(self).history.undo_snapshots() == old(
                    self,
                ).history.undo_snapshots().push(old(self).snapshot_model())
                &&& final(self).history.redo_snapshots().len() == 0
            },
    {
        if self.cursor_row >= self.alignment.num_sequences() {
            return ;
        }
        self.save_undo_state();
        let row = self.cursor_row;
        let _removed = self.alignment.remove_sequence(row);
        self.mark_modified();
        self.clamp_cursor();
    }

    /// Convert every sequence to upper case (ASCII).
    pub fn uppercase_alignment(&mut self)
        ensures
            *final(self) == (App {
                alignment: final(self).alignment,
                history: final(self).history,
                modified: true,
                ..*old(self)
            }),
            final(self).alignment@ == sequences_transformed(
                old(self).alignment@,
                CharTransform::Uppercase,
            ),
            final(self).history.undo_snapshots() == old(self).history.undo_snapshots().push(
                old(self).snapshot_model(),
            ),
            final(self).history.redo_snapshots().len() == 0,
    {
        self.save_undo_state();
        self.alignment.transform_sequence_data(CharTransform::Uppercase);
        self.mark_modified();
    }

    /// Convert every sequence to lower case (ASCII).
    pub fn lowercase_alignment(&mut self)
        ensures
            *final(self) == (App {
                alignment: final(self).alignment,
                history: final(self).history,
                modified: true,
                ..*old(self)
            }),
            final(self).alignment@ == sequences_transformed(
                old(self).alignment@,
                CharTransform::Lowercase,
            ),
            final(self).history.undo_snapshots() == old(self).history.undo_snapshots().push(
                old(self).snapshot_model(),
            ),
            final(self).history.redo_snapshots().len() == 0,
    {
        self.save_undo_state();
        self.alignment.transform_sequence_data(CharTransform::Lowercase);
        self.mark_modified();
    }

    /// Rewrite `T`/`t` as `U`/`u` in every sequence.
    pub fn convert_t_to_u(&mut self)
        ensures
            *final(self) == (App {
                alignment: final(self).alignment,
                history: final(self).history,
                modified: true,
                ..*old(self)
            }),
            final(self).alignment@ == sequences_transformed(
                old(self).alignment@,
                CharTransform::ThymineToUracil,
            ),
            final(self).history.undo_snapshots() == old(self).history.undo_snapshots().push(
                old(self).snapshot_model(),
            ),
            final(self).history.redo_snapshots().len() == 0,
    {
        self.save_undo_state();
        self.alignment.transform_sequence_data(CharTransform::ThymineToUracil);
        self.mark_modified();
    }

    /// Rewrite `U`/`u` as `T`/`t` in every sequence.
    pub fn convert_u_to_t(&mut self)
        ensures
            *final(self) == (App {
                alignment: final(self).alignment,
                history: final(self).history,
                modified: true,
                ..*old(self)
            }),
            final(self).alignment@ == sequences_transformed(
                old(self).alignment@,
                CharTransform::UracilToThymine,
            ),
            final(self).history.undo_snapshots() == old(self).history.undo_snapshots().push(
                old(self).snapshot_model(),
            ),
            final(self).history.redo_snapshots().len() == 0,
    {
        self.save_undo_state();
        self.alignment.transform_sequence_data(CharTransform::UracilToThymine);
        self.mark_modified();
    }
}

/// What a command line says, parsed from its whitespace-separated words.
pub ghost enum ParsedCommand {
    /// Nothing but whitespace.
    Empty,
    /// `q` / `quit`: quit unless there are unsaved changes.
    Quit,
    /// `q!`: quit unconditionally.
    ForceQuit,
    /// `w` / `write`: save to the current file.
    Write,
    /// `w <path>`: save to the named file.
    WriteTo(Seq<char>),
    /// `wq`: save to the current file, then quit.
    WriteQuit,
    /// `color <scheme>`: switch the color scheme.
    Color(Seq<char>),
    /// `set <key>=<value>`: change a setting.
    SetOption(Seq<char>),
    /// `fold`: fold the current sequence.
    Fold,
    /// `alifold`: fold the whole alignment.
    AliFold,
    /// Anything else.
    Unknown,
}

/// The command that a token list selects.
pub open spec fn parse_command(toks: Seq<Seq<char>>) -> ParsedCommand {
    if toks.len() == 0 {
        ParsedCommand::Empty
    } else if toks.len() == 1 && (toks[0] == "q"@ || toks[0] == "quit"@) {
        ParsedCommand::Quit
    } else if toks.len() == 1 && toks[0] == "q!"@ {
        ParsedCommand::ForceQuit
    } else if toks.len() == 1 && (toks[0] == "w"@ || toks[0] == "write"@) {
        ParsedCommand::Write
    } else if toks.len() == 2 && toks[0] == "w"@ {
        ParsedCommand::WriteTo(toks[1])
    } else if toks.len() == 1 && toks[0] == "wq"@ {
        ParsedCommand::WriteQuit
    } else if toks.len() == 2 && toks[0] == "color"@ {
        ParsedCommand::Color(toks[1])
    } else if toks.len() == 2 && toks[0] == "set"@ {
        ParsedCommand::SetOption(toks[1])
    } else if toks.len() == 1 && toks[0] == "fold"@ {
        ParsedCommand::Fold
    } else if toks.len() == 1 && toks[0] == "alifold"@ {
        ParsedCommand::AliFold
    } else {
        ParsedCommand::Unknown
    }
}

impl App {
    /// Fold the current sequence (external folding is not wired up).
    fn fold_current_sequence(&mut self)
        ensures
            *final(self) == (App { status_message: final(self).status_message, ..*old(self) }),
            final(self).status_message matches Some(m) && m@
                == "RNAfold integration not yet implemented"@,
    {
        self.set_status("RNAfold integration not yet implemented");
    }

    /// Fold the whole alignment (external folding is not wired up).
    fn fold_alignment(&mut self)
        ensures
            *final(self) == (App { status_message: final(self).status_message, ..*old(self) }),
            final(self).status_message matches Some(m) && m@
                == "RNAalifold integration not yet implemented"@,
    {
        self.set_status("RNAalifold integration not yet implemented");
    }

    /// Run the command line: parse the buffer, return to normal mode, and
    /// carry out what it says.  File writes become a [`SaveRequest`] for
    /// the I/O layer; everything else acts on the session directly.
    pub fn execute_command(&mut self)
        ensures
            final(self).mode == Mode::Normal,
            final(self).command_buffer@.len() == 0,
            ({
                let cmd = parse_command(spec_tokens(old(self).command_buffer@));
                match cmd {
                    ParsedCommand::Empty => *final(self) == (App {
                        mode: Mode::Normal,
                        command_buffer: final(self).command_buffer,
                        ..*old(self)
                    }),
                    ParsedCommand::Quit => if old(self).modified {
                        *final(self) == (App {
                            mode: Mode::Normal,
                            command_buffer: final(self).command_buffer,
                            status_message: final(self).status_message,
                            ..*old(self)
                        }) && (final(self).status_message matches Some(m) && m@
                            == "No write since last change (use :q! to force)"@)
                    } else {
                        *final(self) == (App {
                            mode: Mode::Normal,
                            command_buffer: final(self).command_buffer,
                            should_quit: true,
                            ..*old(self)
                        })
                    },
                    ParsedCommand::ForceQuit => *final(self) == (App {
                        mode: Mode::Normal,
                        command_buffer: final(self).command_buffer,
                        should_quit: true,
                        ..*old(self)
                    }),
                    ParsedCommand::Write => match old(self).file_path {
                        Some(p) => *final(self) == (App {
                            mode: Mode::Normal,
                            command_buffer: final(self).command_buffer,
                            save_request: final(self).save_request,
                            ..*old(self)
                        }) && (final(self).save_request matches Some(rq) && rq.path@ == p@
                            && !rq.quit_after),
                        None => *final(self) == (App {
                            mode: Mode::Normal,
                            command_buffer: final(self).command_buffer,
                            status_message: final(self).status_message,
                            ..*old(self)
                        }) && (final(self).status_message matches Some(m) && m@
                            == "No file path set"@),
                    },
                    ParsedCommand::WriteTo(path) => *final(self) == (App {
                        mode: Mode::Normal,
                        command_buffer: final(self).command_buffer,
                        save_request: final(self).save_request,
                        ..*old(self)
                    }) && (final(self).save_request matches Some(rq) && rq.path@ == path
                        && !rq.quit_after),
                    ParsedCommand::WriteQuit => match old(self).file_path {
                        Some(p) => *final(self) == (App {
                            mode: Mode::Normal,
                            command_buffer: final(self).command_buffer,
                            save_request: final(self).save_request,
                            ..*old(self)
                        }) && (final(self).save_request matches Some(rq) && rq.path@ == p@
                            && rq.quit_after),
                        None => *final(self) == (App {
                            mode: Mode::Normal,
                            command_buffer: final(self).command_buffer,
                            status_message: final(self).status_message,
                            ..*old(self)
                        }) && (final(self).status_message matches Some(m) && m@
                            == "No file path set"@),
                    },
                    ParsedCommand::Color(name) => match scheme_of(name) {
                        Some(cs) => *final(self) == (App {
                            mode: Mode::Normal,
                            command_buffer: final(self).command_buffer,
                            color_scheme: cs,
                            status_message: final(self).status_message,
                            ..*old(self)
                        }) && (final(self).status_message matches Some(m) && m@
                            == "Color scheme: "@ + scheme_name(cs)),
                        None => *final(self) == (App {
                            mode: Mode::Normal,
                            command_buffer: final(self).command_buffer,
                            status_message: final(self).status_message,
                            ..*old(self)
                        }) && (final(self).status_message matches Some(m) && m@
                            == "Unknown color scheme: "@ + name),
                    },
                    ParsedCommand::SetOption(kv) => ({
                        let e = find_char(kv, '=');
                        if e == -1 {
                            *final(self) == (App {
                                mode: Mode::Normal,
                                command_buffer: final(self).command_buffer,
                                ..*old(self)
                            })
                        } else {
                            let key = kv.take(e);
                            let value = kv.skip(e + 1);
                            if key == "gap"@ {
                                if value.len() > 0 {
                                    *final(self) == (App {
                                        mode: Mode::Normal,
                                        command_buffer: final(self).command_buffer,
                                        gap_char: final(self).gap_char,
                                        status_message: final(self).status_message,
                                        ..*old(self)
                                    }) && final(self).gap_char == value[0] && (final(self)
                                        .status_message matches Some(m) && m@
                                        == "Gap character: '"@ + seq![value[0]] + "'"@)
                                } else {
                                    *final(self) == (App {
                                        mode: Mode::Normal,
                                        command_buffer: final(self).command_buffer,
                                        ..*old(self)
                                    })
                                }
                            } else {
                                *final(self) == (App {
                                    mode: Mode::Normal,
                                    command_buffer: final(self).command_buffer,
                                    status_message: final(self).status_message,
                                    ..*old(self)
                                }) && (final(self).status_message matches Some(m) && m@
                                    == "Unknown setting: "@ + key)
                            }
                        }
                    }),
                    ParsedCommand::Fold => *final(self) == (App {
                        mode: Mode::Normal,
                        command_buffer: final(self).command_buffer,
                        status_message: final(self).status_message,
                        ..*old(self)
                    }) && (final(self).status_message matches Some(m) && m@
                        == "RNAfold integration not yet implemented"@),
                    ParsedCommand::AliFold => *final(self) == (App {
                        mode: Mode::Normal,
                        command_buffer: final(self).command_buffer,
                        status_message: final(self).status_message,
                        ..*old(self)
                    }) && (final(self).status_message matches Some(m) && m@
                        == "RNAalifold integration not yet implemented"@),
                    ParsedCommand::Unknown => *final(self) == (App {
                        mode: Mode::Normal,
                        command_buffer: final(self).command_buffer,
                        status_message: final(self).status_message,
                        ..*old(self)
                    }) && (final(self).status_message matches Some(m) && m@
                        == "Unknown command: "@ + trimmed(old(self).command_buffer@)),
                }
            }),
    {
        let toks = tokenize(&self.command_buffer);
        let trimmed_buf = trim_chars(&self.command_buffer);
        self.command_buffer.clear();
        self.mode = Mode::Normal;
        if toks.len() == 0 {
            return ;
        }
        if toks.len() == 1 && (chars_eq_str(&toks[0], "q") || chars_eq_str(&toks[0], "quit")) {
            if self.modified {
                self.set_status("No write since last change (use :q! to force)");
            } else {
                self.should_quit = true;
            }
        } else if toks.len() == 1 && chars_eq_str(&toks[0], "q!") {
            self.should_quit = true;
        } else if toks.len() == 1 && (chars_eq_str(&toks[0], "w") || chars_eq_str(
            &toks[0],
            "write",
        )) {
            match &self.file_path {
                Some(p) => {
                    let path = p.clone();
                    self.save_request = Some(SaveRequest { path, quit_after: false });
                },
                None => {
                    self.set_status("No file path set");
                },
            }
        } else if toks.len() == 2 && chars_eq_str(&toks[0], "w") {
            let path = chars_to_string(&toks[1]);
            self.save_request = Some(SaveRequest { path, quit_after: false });
        } else if toks.len() == 1 && chars_eq_str(&toks[0], "wq") {
            match &self.file_path {
                Some(p) => {
                    let path = p.clone();
                    self.save_request = Some(SaveRequest { path, quit_after: true });
                },
                None => {
                    self.set_status("No file path set");
                },
            }
        } else if toks.len() == 2 && chars_eq_str(&toks[0], "color") {
            let name = chars_to_string(&toks[1]);
            let name_ref: &str = &name;
            match ColorScheme::from_str(name_ref) {
                Some(cs) => {
                    self.color_scheme = cs;
                    let mut message = String::from_str("Color scheme: ");
                    message.append(cs.as_str());
                    self.status_message = Some(message);
                },
                None => {
                    let mut message = String::from_str("Unknown color scheme: ");
                    message.append(name_ref);
                    self.status_message = Some(message);
                },
            }
        } else if toks.len() == 2 && chars_eq_str(&toks[0], "set") {
            match find_char_in(&toks[1], '=') {
                Some(e) => {
                    proof {
                        lemma_find_char(toks@[1]@, '=');
                    }
                    let token_len = toks[1].len();
                    proof {
                        assert(e < token_len);
                    }
                    let key = vec_take(&toks[1], e);
                    let value = vec_skip(&toks[1], e + 1);
                    if chars_eq_str(&key, "gap") {
                        if value.len() > 0 {
                            let c = value[0];
                            self.gap_char = c;
                            let mut message = String::from_str("Gap character: '");
                            message.push(c);
                            message.append("'");
                            proof {
                                assert(message@ =~= "Gap character: '"@ + seq![c] + "'"@);
                            }
                            self.status_message = Some(message);
                        }
                    } else {
                        let key_string = chars_to_string(&key);
                        let key_ref: &str = &key_string;
                        let mut message = String::from_str("Unknown setting: ");
                        message.append(key_ref);
                        self.status_message = Some(message);
                    }
                },
                None => {},
            }
        } else if toks.len() == 1 && chars_eq_str(&toks[0], "fold") {
            self.fold_current_sequence();
        } else if toks.len() == 1 && chars_eq_str(&toks[0], "alifold") {
            self.fold_alignment();
        } else {
            let command = chars_to_string(&trimmed_buf);
            let command_ref: &str = &command;
            let mut message = String::from_str("Unknown command: ");
            message.append(command_ref);
            self.status_message = Some(message);
        }
    }
}

} // verus!
