//! The editing session: the alignment under edit, cursor and viewport,
//! editor mode, configuration, the structure cache and the undo history.

use vstd::prelude::*;
use vstd::string::*;

use crate::cache::StructureCache;
use crate::chars::str_eq_ignore_case;
use crate::chars::str_eq_nocase;
use crate::grid::find_tagged;
use crate::grid::Alignment;
use crate::grid::AlignmentModel;
use crate::pairing::spec_pair;
use crate::undo::History;

verus! {

/// Editor mode (vim-style).
#[derive(Debug, Clone, Copy, PartialEq, Eq, Structural, Default)]
pub enum Mode {
    #[default]
    Normal,
    Insert,
    Command,
}

/// Display name of a [`Mode`].
pub open spec fn mode_name(m: Mode) -> Seq<char> {
    match m {
        Mode::Normal => "NORMAL"@,
        Mode::Insert => "INSERT"@,
        Mode::Command => "COMMAND"@,
    }
}

impl Mode {
    /// The mode's display name.
    pub fn as_str(&self) -> (r: &'static str)
        ensures
            r@ == mode_name(*self),
    {
        match self {
            Mode::Normal => "NORMAL",
            Mode::Insert => "INSERT",
            Mode::Command => "COMMAND",
        }
    }
}

/// Color scheme for the alignment display.
#[derive(Debug, Clone, Copy, PartialEq, Eq, Structural, Default)]
pub enum ColorScheme {
    /// No coloring.
    #[default]
    Plain,
    /// Color by secondary structure (helix coloring).
    Structure,
    /// Color by base identity.
    Base,
    /// Color by conservation.
    Conservation,
    /// Color by compensatory changes.
    Compensatory,
}

/// Display name of a [`ColorScheme`].
pub open spec fn scheme_name(c: ColorScheme) -> Seq<char> {
    match c {
        ColorScheme::Plain => "none"@,
        ColorScheme::Structure => "structure"@,
        ColorScheme::Base => "base"@,
        ColorScheme::Conservation => "conservation"@,
        ColorScheme::Compensatory => "compensatory"@,
    }
}

/// The scheme a name selects, matching ASCII-case-insensitively against
/// each scheme's names and abbreviations.
pub open spec fn scheme_of(s: Seq<char>) -> Option<ColorScheme> {
    if str_eq_nocase(s, "none"@) || str_eq_nocase(s, "off"@) {
        Some(ColorScheme::Plain)
    } else if str_eq_nocase(s, "structure"@) || str_eq_nocase(s, "ss"@) {
        Some(ColorScheme::Structure)
    } else if str_eq_nocase(s, "base"@) || str_eq_nocase(s, "nt"@) {
        Some(ColorScheme::Base)
    } else if str_eq_nocase(s, "conservation"@) || str_eq_nocase(s, "cons"@) {
        Some(ColorScheme::Conservation)
    } else if str_eq_nocase(s, "compensatory"@) || str_eq_nocase(s, "comp"@) {
        Some(ColorScheme::Compensatory)
    } else {
        None
    }
}

impl ColorScheme {
    /// The scheme's display name.
    pub fn as_str(&self) -> (r: &'static str)
        ensures
            r@ == scheme_name(*self),
    {
        match self {
            ColorScheme::Plain => "none",
            ColorScheme::Structure => "structure",
            ColorScheme::Base => "base",
            ColorScheme::Conservation => "conservation",
            ColorScheme::Compensatory => "compensatory",
        }
    }

    /// Parse a scheme name (ASCII-case-insensitively).
    pub fn from_str(s: &str) -> (r: Option<ColorScheme>)
        ensures
            r == scheme_of(s@),
    {
        if str_eq_ignore_case(s, "none") || str_eq_ignore_case(s, "off") {
            Some(ColorScheme::Plain)
        } else if str_eq_ignore_case(s, "structure") || str_eq_ignore_case(s, "ss") {
            Some(ColorScheme::Structure)
        } else if str_eq_ignore_case(s, "base") || str_eq_ignore_case(s, "nt") {
            Some(ColorScheme::Base)
        } else if str_eq_ignore_case(s, "conservation") || str_eq_ignore_case(s, "cons") {
            Some(ColorScheme::Conservation)
        } else if str_eq_ignore_case(s, "compensatory") || str_eq_ignore_case(s, "comp") {
            Some(ColorScheme::Compensatory)
        } else {
            None
        }
    }
}

/// A file write requested by a command, handed to the I/O layer to perform.
pub struct SaveRequest {
    /// Where to write the alignment.
    pub path: String,
    /// Quit once the write has succeeded (the `wq` command).
    pub quit_after: bool,
}

/// Index of the consensus secondary structure annotation in the alignment's
/// per-column annotations, or -1 when there is none.
pub open spec fn ss_cons_index(al: AlignmentModel) -> int {
    find_tagged(al.column_annotations, "SS_cons"@)
}

/// The editing session state.
pub struct App {
    /// Current alignment.
    pub alignment: Alignment,
    /// Path of the loaded file, if any (a plain string; the I/O layer owns
    /// the real path value).
    pub file_path: Option<String>,
    /// Whether the alignment has been modified since the last save.
    pub modified: bool,
    /// Current cursor row (sequence index).
    pub cursor_row: usize,
    /// Current cursor column.
    pub cursor_col: usize,
    /// Viewport offset (row).
    pub viewport_row: usize,
    /// Viewport offset (column).
    pub viewport_col: usize,
    /// Current editor mode.
    pub mode: Mode,
    /// Command line buffer (for command mode).
    pub command_buffer: Vec<char>,
    /// Status message.
    pub status_message: Option<String>,
    /// Gap character inserted by edits.
    pub gap_char: char,
    /// Characters considered as gaps.
    pub gap_chars: Vec<char>,
    /// Color scheme.
    pub color_scheme: ColorScheme,
    /// Structure cache.
    pub structure_cache: StructureCache,
    /// Undo/redo history.
    pub history: History,
    /// Should quit.
    pub should_quit: bool,
    /// Reference sequence index for compensatory coloring.
    pub reference_seq: usize,
    /// File write requested by the last command, if any; the I/O layer
    /// takes it, performs it, and reports back via `complete_save`.
    pub save_request: Option<SaveRequest>,
}

impl App {
    /// The structure cache is not stale: if the alignment carries a
    /// consensus structure annotation, the cache was built from it.
    pub open spec fn cache_in_sync(self) -> bool {
        ss_cons_index(self.alignment@) >= 0 ==> self.structure_cache.source_view()
            == self.alignment@.column_annotations[ss_cons_index(self.alignment@)].data
    }

    /// Create a session with default state.
    pub fn new() -> (r: Self)
        ensures
            r.alignment@.sequences.len() == 0,
            r.alignment@.file_annotations.len() == 0,
            r.alignment@.sequence_annotations.len() == 0,
            r.alignment@.column_annotations.len() == 0,
            r.alignment@.residue_annotations.len() == 0,
            r.file_path is None,
            !r.modified,
            r.cursor_row == 0,
            r.cursor_col == 0,
            r.viewport_row == 0,
            r.viewport_col == 0,
            r.mode == Mode::Normal,
            r.command_buffer@.len() == 0,
            r.status_message is None,
            r.gap_char == '.',
            r.gap_chars@ == seq!['.', '-', '_', '~', ':'],
            r.color_scheme == ColorScheme::Plain,
            r.structure_cache.source_view().len() == 0,
            r.history.undo_snapshots().len() == 0,
            r.history.redo_snapshots().len() == 0,
            !r.should_quit,
            r.reference_seq == 0,
            r.save_request is None,
    {
        let mut gap_chars: Vec<char> = Vec::new();
        gap_chars.push('.');
        gap_chars.push('-');
        gap_chars.push('_');
        gap_chars.push('~');
        gap_chars.push(':');
        proof {
            assert(gap_chars@ =~= seq!['.', '-', '_', '~', ':']);
        }
        App {
            alignment: Alignment::new(),
            file_path: None,
            modified: false,
            cursor_row: 0,
            cursor_col: 0,
            viewport_row: 0,
            viewport_col: 0,
            mode: Mode::Normal,
            command_buffer: Vec::new(),
            status_message: None,
            gap_char: '.',
            gap_chars,
            color_scheme: ColorScheme::Plain,
            structure_cache: StructureCache::new(),
            history: History::new(),
            should_quit: false,
            reference_seq: 0,
            save_request: None,
        }
    }

    /// Set a status message.
    pub fn set_status(&mut self, message: &str)
        ensures
            *final(self) == (App { status_message: final(self).status_message, ..*old(self) }),
            final(self).status_message matches Some(m) && m@ == message@,
    {
        self.status_message = Some(String::from_str(message));
    }

    /// Clear the status message.
    pub fn clear_status(&mut self)
        ensures
            *final(self) == (App { status_message: None, ..*old(self) }),
    {
        self.status_message = None;
    }

    /// Mark the alignment as modified.
    pub fn mark_modified(&mut self)
        ensures
            *final(self) == (App { modified: true, ..*old(self) }),
    {
        self.modified = true;
    }

    /// The character under the cursor.
    pub fn current_char(&self) -> (r: Option<char>)
        ensures
            r == self.alignment@.char_at(self.cursor_row as int, self.cursor_col as int),
    {
        self.alignment.get_char(self.cursor_row, self.cursor_col)
    }

    /// Is the character under the cursor a gap symbol?
    pub fn is_current_gap(&self) -> (r: bool)
        ensures
            r == (self.alignment@.char_at(self.cursor_row as int, self.cursor_col as int)
                matches Some(c) && self.gap_chars@.contains(c)),
    {
        match self.current_char() {
            Some(c) => crate::chars::char_in(&self.gap_chars, c),
            None => false,
        }
    }

    /// Move the cursor up one sequence.
    pub fn cursor_up(&mut self)
        ensures
            *final(self) == (App { cursor_row: final(self).cursor_row, ..*old(self) }),
            final(self).cursor_row == (if old(self).cursor_row > 0 {
                old(self).cursor_row - 1
            } else {
                0int
            }),
    {
        if self.cursor_row > 0 {
            self.cursor_row = self.cursor_row - 1;
        }
    }

    /// Move the cursor down one sequence.
    pub fn cursor_down(&mut self)
        ensures
            *final(self) == (App { cursor_row: final(self).cursor_row, ..*old(self) }),
            final(self).cursor_row == (if old(self).cursor_row + 1
                < old(self).alignment@.sequences.len() {
                old(self).cursor_row + 1
            } else {
                old(self).cursor_row as int
            }),
    {
        let n = self.alignment.num_sequences();
        if n > 0 && self.cursor_row < n - 1 {
            self.cursor_row = self.cursor_row + 1;
        }
    }

    /// Move the cursor left one column.
    pub fn cursor_left(&mut self)
        ensures
            *final(self) == (App { cursor_col: final(self).cursor_col, ..*old(self) }),
            final(self).cursor_col == (if old(self).cursor_col > 0 {
                old(self).cursor_col - 1
            } else {
                0int
            }),
    {
        if self.cursor_col > 0 {
            self.cursor_col = self.cursor_col - 1;
        }
    }

    /// Move the cursor right one column.
    pub fn cursor_right(&mut self)
        ensures
            *final(self) == (App { cursor_col: final(self).cursor_col, ..*old(self) }),
            final(self).cursor_col == (if old(self).cursor_col + 1 < old(self).alignment@.width() {
                old(self).cursor_col + 1
            } else {
                old(self).cursor_col as int
            }),
    {
        let w = self.alignment.width();
        if w > 0 && self.cursor_col < w - 1 {
            self.cursor_col = self.cursor_col + 1;
        }
    }

    /// Move the cursor to the first column.
    pub fn cursor_line_start(&mut self)
        ensures
            *final(self) == (App { cursor_col: 0, ..*old(self) }),
    {
        self.cursor_col = 0;
    }

    /// Move the cursor to the last column.
    pub fn cursor_line_end(&mut self)
        ensures
            *final(self) == (App { cursor_col: final(self).cursor_col, ..*old(self) }),
            final(self).cursor_col == (if old(self).alignment@.width() > 0 {
                old(self).alignment@.width() - 1
            } else {
                0int
            }),
    {
        let w = self.alignment.width();
        if w > 0 {
            self.cursor_col = w - 1;
        } else {
            self.cursor_col = 0;
        }
    }

    /// Move the cursor to the first sequence.
    pub fn cursor_first_sequence(&mut self)
        ensures
            *final(self) == (App { cursor_row: 0, ..*old(self) }),
    {
        self.cursor_row = 0;
    }

    /// Move the cursor to the last sequence.
    pub fn cursor_last_sequence(&mut self)
        ensures
            *final(self) == (App { cursor_row: final(self).cursor_row, ..*old(self) }),
            final(self).cursor_row == (if old(self).alignment@.sequences.len() > 0 {
                old(self).alignment@.sequences.len() - 1
            } else {
                0int
            }),
    {
        let n = self.alignment.num_sequences();
        if n > 0 {
            self.cursor_row = n - 1;
        } else {
            self.cursor_row = 0;
        }
    }

    /// Jump to the column paired with the cursor column, when the structure
    /// cache pairs it with one.
    pub fn goto_pair(&mut self)
        ensures
            *final(self) == (App { cursor_col: final(self).cursor_col, ..*old(self) }),
            (match spec_pair(old(self).structure_cache.source_view(), old(self).cursor_col as int) {
                Some(j) => final(self).cursor_col == j,
                None => final(self).cursor_col == old(self).cursor_col,
            }),
    {
        match self.structure_cache.get_pair(self.cursor_col) {
            Some(paired) => {
                self.cursor_col = paired;
            },
            None => {},
        }
    }

    /// Move the cursor down a page.
    pub fn page_down(&mut self, page_size: usize)
        ensures
            *final(self) == (App { cursor_row: final(self).cursor_row, ..*old(self) }),
            final(self).cursor_row == ({
                let max_row = if old(self).alignment@.sequences.len() > 0 {
                    old(self).alignment@.sequences.len() - 1
                } else {
                    0int
                };
                if old(self).cursor_row + page_size <= max_row {
                    old(self).cursor_row + page_size
                } else {
                    max_row
                }
            }),
    {
        let n = self.alignment.num_sequences();
        let max_row = if n > 0 {
            n - 1
        } else {
            0
        };
        if page_size <= max_row && self.cursor_row <= max_row - page_size {
            self.cursor_row = self.cursor_row + page_size;
        } else {
            self.cursor_row = max_row;
        }
    }

    /// Move the cursor up a page.
    pub fn page_up(&mut self, page_size: usize)
        ensures
            *final(self) == (App { cursor_row: final(self).cursor_row, ..*old(self) }),
            final(self).cursor_row == (if old(self).cursor_row >= page_size {
                old(self).cursor_row - page_size
            } else {
                0int
            }),
    {
        if self.cursor_row >= page_size {
            self.cursor_row = self.cursor_row - page_size;
        } else {
            self.cursor_row = 0;
        }
    }

    /// Move the cursor down half a page.
    pub fn half_page_down(&mut self, page_size: usize)
        ensures
            *final(self) == (App { cursor_row: final(self).cursor_row, ..*old(self) }),
            final(self).cursor_row == ({
                let max_row = if old(self).alignment@.sequences.len() > 0 {
                    old(self).alignment@.sequences.len() - 1
                } else {
                    0int
                };
                if old(self).cursor_row + page_size / 2 <= max_row {
                    old(self).cursor_row + page_size / 2
                } else {
                    max_row
                }
            }),
    {
        self.page_down(page_size / 2);
    }

    /// Move the cursor up half a page.
    pub fn half_page_up(&mut self, page_size: usize)
        ensures
            *final(self) == (App { cursor_row: final(self).cursor_row, ..*old(self) }),
            final(self).cursor_row == (if old(self).cursor_row >= page_size / 2 {
                old(self).cursor_row - page_size / 2
            } else {
                0int
            }),
    {
        self.page_up(page_size / 2);
    }

    /// Move the cursor right by `amount` columns, clamped to the last
    /// column.
    pub fn scroll_right(&mut self, amount: usize)
        ensures
            *final(self) == (App { cursor_col: final(self).cursor_col, ..*old(self) }),
            final(self).cursor_col == ({
                let max_col = if old(self).alignment@.width() > 0 {
                    old(self).alignment@.width() - 1
                } else {
                    0int
                };
                if old(self).cursor_col + amount <= max_col {
                    old(self).cursor_col + amount
                } else {
                    max_col
                }
            }),
    {
        let w = self.alignment.width();
        let max_col = if w > 0 {
            w - 1
        } else {
            0
        };
        if amount <= max_col && self.cursor_col <= max_col - amount {
            self.cursor_col = self.cursor_col + amount;
        } else {
            self.cursor_col = max_col;
        }
    }

    /// Move the cursor left by `amount` columns.
    pub fn scroll_left(&mut self, amount: usize)
        ensures
            *final(self) == (App { cursor_col: final(self).cursor_col, ..*old(self) }),
            final(self).cursor_col == (if old(self).cursor_col >= amount {
                old(self).cursor_col - amount
            } else {
                0int
            }),
    {
        if self.cursor_col >= amount {
            self.cursor_col = self.cursor_col - amount;
        } else {
            self.cursor_col = 0;
        }
    }

    /// Enter insert mode.
    pub fn enter_insert_mode(&mut self)
        ensures
            *final(self) == (App { mode: Mode::Insert, ..*old(self) }),
    {
        self.mode = Mode::Insert;
    }

    /// Enter command mode with an empty command line.
    pub fn enter_command_mode(&mut self)
        ensures
            *final(self) == (App {
                mode: Mode::Command,
                command_buffer: final(self).command_buffer,
                ..*old(self)
            }),
            final(self).command_buffer@.len() == 0,
    {
        self.mode = Mode::Command;
        self.command_buffer.clear();
    }

    /// Return to normal mode, discarding the command line.
    pub fn enter_normal_mode(&mut self)
        ensures
            *final(self) == (App {
                mode: Mode::Normal,
                command_buffer: final(self).command_buffer,
                ..*old(self)
            }),
            final(self).command_buffer@.len() == 0,
    {
        self.mode = Mode::Normal;
        self.command_buffer.clear();
    }

    /// Refresh the structure cache if the alignment's consensus structure
    /// annotation changed since it was last computed.
    pub fn update_structure_cache(&mut self)
        ensures
            *final(self) == (App {
                structure_cache: final(self).structure_cache,
                ..*old(self)
            }),
            final(self).cache_in_sync(),
            ss_cons_index(old(self).alignment@) < 0 ==> final(self).structure_cache == old(
                self,
            ).structure_cache,
    {
        match self.alignment.ss_cons() {
            Some(ss) => {
                if !self.structure_cache.is_valid_for(&ss) {
                    let _malformed = self.structure_cache.update(&ss);
                }
            },
            None => {},
        }
    }

    /// Clamp the cursor to the current alignment bounds.
    pub fn clamp_cursor(&mut self)
        ensures
            *final(self) == (App {
                cursor_row: final(self).cursor_row,
                cursor_col: final(self).cursor_col,
                ..*old(self)
            }),
            final(self).cursor_row == ({
                let max_row = if old(self).alignment@.sequences.len() > 0 {
                    old(self).alignment@.sequences.len() - 1
                } else {
                    0int
                };
                if old(self).cursor_row <= max_row {
                    old(self).cursor_row as int
                } else {
                    max_row
                }
            }),
            final(self).cursor_col == ({
                let max_col = if old(self).alignment@.width() > 0 {
                    old(self).alignment@.width() - 1
                } else {
                    0int
                };
                if old(self).cursor_col <= max_col {
                    old(self).cursor_col as int
                } else {
                    max_col
                }
            }),
    {
        let n = self.alignment.num_sequences();
        let max_row = if n > 0 {
            n - 1
        } else {
            0
        };
        if self.cursor_row > max_row {
            self.cursor_row = max_row;
        }
        let w = self.alignment.width();
        let max_col = if w > 0 {
            w - 1
        } else {
            0
        };
        if self.cursor_col > max_col {
            self.cursor_col = max_col;
        }
    }

    /// Adjust the viewport offsets so the cursor stays visible in a window
    /// of the given dimensions.
    pub fn adjust_viewport(&mut self, visible_rows: usize, visible_cols: usize)
        requires
            visible_rows >= 1,
            visible_cols >= 1,
        ensures
            *final(self) == (App {
                viewport_row: final(self).viewport_row,
                viewport_col: final(self).viewport_col,
                ..*old(self)
            }),
            final(self).viewport_row == (if old(self).cursor_row < old(self).viewport_row {
                old(self).cursor_row as int
            } else if old(self).cursor_row >= old(self).viewport_row + visible_rows {
                old(self).cursor_row - visible_rows + 1
            } else {
                old(self).viewport_row as int
            }),
            final(self).viewport_col == (if old(self).cursor_col < old(self).viewport_col {
                old(self).cursor_col as int
            } else if old(self).cursor_col >= old(self).viewport_col + visible_cols {
                old(self).cursor_col - visible_cols + 1
            } else {
                old(self).viewport_col as int
            }),
    {
        if self.cursor_row < self.viewport_row {
            self.viewport_row = self.cursor_row;
        } else if self.cursor_row - self.viewport_row >= visible_rows {
            self.viewport_row = self.cursor_row - visible_rows + 1;
        }
        if self.cursor_col < self.viewport_col {
            self.viewport_col = self.cursor_col;
        } else if self.cursor_col - self.viewport_col >= visible_cols {
            self.viewport_col = self.cursor_col - visible_cols + 1;
        }
    }

    /// Install a freshly loaded alignment (the I/O layer parses the file
    /// and hands the value over): reset cursor, viewport and history,
    /// refresh the structure cache, and report the load in the status line.
    pub fn install_alignment(&mut self, alignment: Alignment, path: String)
        ensures
            final(self).alignment@ == alignment@,
            final(self).file_path matches Some(p) && p@ == path@,
            !final(self).modified,
            final(self).cursor_row == 0,
            final(self).cursor_col == 0,
            final(self).viewport_row == 0,
            final(self).viewport_col == 0,
            final(self).history.undo_snapshots().len() == 0,
            final(self).history.redo_snapshots().len() == 0,
            final(self).cache_in_sync(),
            final(self).status_message matches Some(m) && m@ == "Loaded "@ + path@,
            final(self).mode == old(self).mode,
            final(self).command_buffer == old(self).command_buffer,
            final(self).gap_char == old(self).gap_char,
            final(self).gap_chars == old(self).gap_chars,
            final(self).color_scheme == old(self).color_scheme,
            final(self).should_quit == old(self).should_quit,
            final(self).reference_seq == old(self).reference_seq,
            final(self).save_request is None,
    {
        let mut message = String::from_str("Loaded ");
        message.append(path.as_str());
        self.alignment = alignment;
        self.file_path = Some(path);
        self.modified = false;
        self.cursor_row = 0;
        self.cursor_col = 0;
        self.viewport_row = 0;
        self.viewport_col = 0;
        self.history.clear();
        self.save_request = None;
        self.update_structure_cache();
        self.status_message = Some(message);
    }

    /// Record that the I/O layer completed a requested file write: the
    /// session is clean, the path becomes current, and a `wq` request quits.
    pub fn complete_save(&mut self, request: SaveRequest)
        ensures
            !final(self).modified,
            final(self).file_path matches Some(p) && p@ == request.path@,
            final(self).should_quit == (old(self).should_quit || request.quit_after),
            final(self).status_message matches Some(m) && m@ == "Saved "@ + request.path@,
            final(self).alignment == old(self).alignment,
            final(self).cursor_row == old(self).cursor_row,
            final(self).cursor_col == old(self).cursor_col,
            final(self).viewport_row == old(self).viewport_row,
            final(self).viewport_col == old(self).viewport_col,
            final(self).mode == old(self).mode,
            final(self).command_buffer == old(self).command_buffer,
            final(self).gap_char == old(self).gap_char,
            final(self).gap_chars == old(self).gap_chars,
            final(self).color_scheme == old(self).color_scheme,
            final(self).structure_cache == old(self).structure_cache,
            final(self).history == old(self).history,
            final(self).reference_seq == old(self).reference_seq,
            final(self).save_request == old(self).save_request,
    {
        let mut message = String::from_str("Saved ");
        message.append(request.path.as_str());
        self.modified = false;
        if request.quit_after {
            self.should_quit = true;
        }
        self.file_path = Some(request.path);
        self.status_message = Some(message);
    }
}

impl Default for App {
    /// A fresh session with default state.
    fn default() -> (r: Self)
        ensures
            r.alignment@.sequences.len() == 0,
            r.file_path is None,
            !r.modified,
            r.cursor_row == 0,
            r.cursor_col == 0,
            r.mode == Mode::Normal,
            r.gap_char == '.',
            r.gap_chars@ == seq!['.', '-', '_', '~', ':'],
            !r.should_quit,
    {
        App::new()
    }
}

} // verus!
