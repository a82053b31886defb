//! UI theme colors.
//!
//! Plain color data consumed by the rendering layer; the defaults below
//! are the built-in theme.

use vstd::prelude::*;

verus! {

/// RGB color value.
#[derive(Debug, Clone, Copy, PartialEq, Eq, Structural)]
pub struct Rgb {
    pub r: u8,
    pub g: u8,
    pub b: u8,
}

impl Rgb {
    /// Build a color from its three components.
    pub fn new(r: u8, g: u8, b: u8) -> (c: Self)
        ensures
            c == (Rgb { r, g, b }),
    {
        Rgb { r, g, b }
    }
}

/// Border colors for panes.
#[derive(Debug, Clone)]
pub struct BorderColors {
    pub active: Rgb,
    pub inactive: Rgb,
}

impl Default for BorderColors {
    /// Cyan active border over a dark gray inactive one.
    fn default() -> (c: Self)
        ensures
            c == (BorderColors {
                active: Rgb { r: 0, g: 255, b: 255 },
                inactive: Rgb { r: 128, g: 128, b: 128 },
            }),
    {
        BorderColors { active: Rgb::new(0, 255, 255), inactive: Rgb::new(128, 128, 128) }
    }
}

/// Ruler display colors.
#[derive(Debug, Clone)]
pub struct RulerColors {
    pub numbers: Rgb,
    pub ticks: Rgb,
    pub pair_line: Rgb,
}

impl Default for RulerColors {
    /// Dark gray ruler with a magenta pair line.
    fn default() -> (c: Self)
        ensures
            c == (RulerColors {
                numbers: Rgb { r: 128, g: 128, b: 128 },
                ticks: Rgb { r: 128, g: 128, b: 128 },
                pair_line: Rgb { r: 255, g: 0, b: 255 },
            }),
    {
        RulerColors {
            numbers: Rgb::new(128, 128, 128),
            ticks: Rgb::new(128, 128, 128),
            pair_line: Rgb::new(255, 0, 255),
        }
    }
}

/// Status bar mode indicator colors.
#[derive(Debug, Clone)]
pub struct ModeColors {
    pub normal_bg: Rgb,
    pub normal_fg: Rgb,
    pub insert_bg: Rgb,
    pub insert_fg: Rgb,
    pub command_bg: Rgb,
    pub command_fg: Rgb,
    pub search_bg: Rgb,
    pub search_fg: Rgb,
    pub visual_bg: Rgb,
    pub visual_fg: Rgb,
}

impl Default for ModeColors {
    /// One background/foreground pair per editor mode.
    fn default() -> (c: Self)
        ensures
            c == (ModeColors {
                normal_bg: Rgb { r: 0, g: 0, b: 255 },
                normal_fg: Rgb { r: 255, g: 255, b: 255 },
                insert_bg: Rgb { r: 0, g: 128, b: 0 },
                insert_fg: Rgb { r: 0, g: 0, b: 0 },
                command_bg: Rgb { r: 255, g: 255, b: 0 },
                command_fg: Rgb { r: 0, g: 0, b: 0 },
                search_bg: Rgb { r: 255, g: 0, b: 255 },
                search_fg: Rgb { r: 255, g: 255, b: 255 },
                visual_bg: Rgb { r: 100, g: 100, b: 180 },
                visual_fg: Rgb { r: 255, g: 255, b: 255 },
            }),
    {
        ModeColors {
            normal_bg: Rgb::new(0, 0, 255),
            normal_fg: Rgb::new(255, 255, 255),
            insert_bg: Rgb::new(0, 128, 0),
            insert_fg: Rgb::new(0, 0, 0),
            command_bg: Rgb::new(255, 255, 0),
            command_fg: Rgb::new(0, 0, 0),
            search_bg: Rgb::new(255, 0, 255),
            search_fg: Rgb::new(255, 255, 255),
            visual_bg: Rgb::new(100, 100, 180),
            visual_fg: Rgb::new(255, 255, 255),
        }
    }
}

/// Status bar colors.
#[derive(Debug, Clone)]
pub struct StatusBarColors {
    pub background: Rgb,
    pub position: Rgb,
    pub alignment_info: Rgb,
    pub sequence_type: Rgb,
    pub color_scheme: Rgb,
    pub structure_info: Rgb,
    pub selection_info: Rgb,
    pub modes: ModeColors,
}

impl Default for StatusBarColors {
    /// Dark gray bar with per-field accent colors.
    fn default() -> (c: Self)
        ensures
            c.background == (Rgb { r: 128, g: 128, b: 128 }),
            c.position == (Rgb { r: 255, g: 255, b: 255 }),
            c.alignment_info == (Rgb { r: 0, g: 255, b: 255 }),
            c.sequence_type == (Rgb { r: 0, g: 128, b: 0 }),
            c.color_scheme == (Rgb { r: 255, g: 0, b: 255 }),
            c.structure_info == (Rgb { r: 255, g: 255, b: 0 }),
            c.selection_info == (Rgb { r: 173, g: 216, b: 230 }),
    {
        StatusBarColors {
            background: Rgb::new(128, 128, 128),
            position: Rgb::new(255, 255, 255),
            alignment_info: Rgb::new(0, 255, 255),
            sequence_type: Rgb::new(0, 128, 0),
            color_scheme: Rgb::new(255, 0, 255),
            structure_info: Rgb::new(255, 255, 0),
            selection_info: Rgb::new(173, 216, 230),
            modes: ModeColors::default(),
        }
    }
}

/// Identifier column colors.
#[derive(Debug, Clone)]
pub struct IdColumnColors {
    pub text: Rgb,
    pub selected_bg: Rgb,
    pub selected_fg: Rgb,
}

impl Default for IdColumnColors {
    /// Cyan identifiers; purple-ish selection.
    fn default() -> (c: Self)
        ensures
            c == (IdColumnColors {
                text: Rgb { r: 0, g: 255, b: 255 },
                selected_bg: Rgb { r: 80, g: 80, b: 140 },
                selected_fg: Rgb { r: 255, g: 255, b: 255 },
            }),
    {
        IdColumnColors {
            text: Rgb::new(0, 255, 255),
            selected_bg: Rgb::new(80, 80, 140),
            selected_fg: Rgb::new(255, 255, 255),
        }
    }
}

/// Annotation bar colors.
#[derive(Debug, Clone)]
pub struct AnnotationColors {
    pub ss_cons_fg: Rgb,
    pub ss_cons_bg: Rgb,
    pub ss_cons_paired_fg: Rgb,
    pub ss_cons_paired_bg: Rgb,
    pub rf_conserved_fg: Rgb,
    pub rf_conserved_bg: Rgb,
    pub rf_variable_fg: Rgb,
    pub rf_variable_bg: Rgb,
    pub pp_cons_bg: Rgb,
    pub consensus_fg: Rgb,
    pub consensus_bg: Rgb,
    pub conservation_bg: Rgb,
    pub label_ss_cons_fg: Rgb,
    pub label_rf_fg: Rgb,
    pub label_pp_cons_fg: Rgb,
    pub label_consensus_fg: Rgb,
    pub label_conservation_fg: Rgb,
}

impl Default for AnnotationColors {
    /// Yellow structure row, green reference row, cyan consensus row.
    fn default() -> (c: Self)
        ensures
            c.ss_cons_fg == (Rgb { r: 255, g: 255, b: 0 }),
            c.ss_cons_bg == (Rgb { r: 30, g: 30, b: 40 }),
            c.ss_cons_paired_fg == (Rgb { r: 0, g: 0, b: 0 }),
            c.ss_cons_paired_bg == (Rgb { r: 255, g: 255, b: 0 }),
            c.rf_conserved_fg == (Rgb { r: 0, g: 128, b: 0 }),
            c.rf_conserved_bg == (Rgb { r: 30, g: 40, b: 30 }),
            c.rf_variable_fg == (Rgb { r: 128, g: 128, b: 128 }),
            c.rf_variable_bg == (Rgb { r: 30, g: 30, b: 30 }),
            c.pp_cons_bg == (Rgb { r: 30, g: 30, b: 40 }),
            c.consensus_fg == (Rgb { r: 0, g: 255, b: 255 }),
            c.consensus_bg == (Rgb { r: 30, g: 40, b: 30 }),
            c.conservation_bg == (Rgb { r: 40, g: 30, b: 40 }),
            c.label_ss_cons_fg == (Rgb { r: 255, g: 255, b: 0 }),
            c.label_rf_fg == (Rgb { r: 0, g: 128, b: 0 }),
            c.label_pp_cons_fg == (Rgb { r: 255, g: 255, b: 0 }),
            c.label_consensus_fg == (Rgb { r: 0, g: 255, b: 255 }),
            c.label_conservation_fg == (Rgb { r: 255, g: 0, b: 255 }),
    {
        AnnotationColors {
            ss_cons_fg: Rgb::new(255, 255, 0),
            ss_cons_bg: Rgb::new(30, 30, 40),
            ss_cons_paired_fg: Rgb::new(0, 0, 0),
            ss_cons_paired_bg: Rgb::new(255, 255, 0),
            rf_conserved_fg: Rgb::new(0, 128, 0),
            rf_conserved_bg: Rgb::new(30, 40, 30),
            rf_variable_fg: Rgb::new(128, 128, 128),
            rf_variable_bg: Rgb::new(30, 30, 30),
            pp_cons_bg: Rgb::new(30, 30, 40),
            consensus_fg: Rgb::new(0, 255, 255),
            consensus_bg: Rgb::new(30, 40, 30),
            conservation_bg: Rgb::new(40, 30, 40),
            label_ss_cons_fg: Rgb::new(255, 255, 0),
            label_rf_fg: Rgb::new(0, 128, 0),
            label_pp_cons_fg: Rgb::new(255, 255, 0),
            label_consensus_fg: Rgb::new(0, 255, 255),
            label_conservation_fg: Rgb::new(255, 0, 255),
        }
    }
}

/// Selection and highlight colors.
#[derive(Debug, Clone)]
pub struct SelectionColors {
    pub visual_bg: Rgb,
    pub visual_fg: Rgb,
    pub search_current_bg: Rgb,
    pub search_current_fg: Rgb,
    pub search_other_bg: Rgb,
    pub search_other_fg: Rgb,
    pub pair_highlight_bg: Rgb,
    pub pair_highlight_fg: Rgb,
    pub gap_column_bg: Rgb,
}

impl Default for SelectionColors {
    /// Yellow current match, magenta pair highlight, dim red gap columns.
    fn default() -> (c: Self)
        ensures
            c.visual_bg == (Rgb { r: 80, g: 80, b: 140 }),
            c.visual_fg == (Rgb { r: 255, g: 255, b: 255 }),
            c.search_current_bg == (Rgb { r: 255, g: 255, b: 0 }),
            c.search_current_fg == (Rgb { r: 0, g: 0, b: 0 }),
            c.search_other_bg == (Rgb { r: 100, g: 100, b: 50 }),
            c.search_other_fg == (Rgb { r: 255, g: 255, b: 255 }),
            c.pair_highlight_bg == (Rgb { r: 255, g: 0, b: 255 }),
            c.pair_highlight_fg == (Rgb { r: 255, g: 255, b: 255 }),
            c.gap_column_bg == (Rgb { r: 80, g: 50, b: 50 }),
    {
        SelectionColors {
            visual_bg: Rgb::new(80, 80, 140),
            visual_fg: Rgb::new(255, 255, 255),
            search_current_bg: Rgb::new(255, 255, 0),
            search_current_fg: Rgb::new(0, 0, 0),
            search_other_bg: Rgb::new(100, 100, 50),
            search_other_fg: Rgb::new(255, 255, 255),
            pair_highlight_bg: Rgb::new(255, 0, 255),
            pair_highlight_fg: Rgb::new(255, 255, 255),
            gap_column_bg: Rgb::new(80, 50, 50),
        }
    }
}

/// Command and search line colors.
#[derive(Debug, Clone)]
pub struct CommandLineColors {
    pub command_prefix: Rgb,
    pub search_prefix: Rgb,
    pub help_hint: Rgb,
}

impl Default for CommandLineColors {
    /// Yellow command prompt, magenta search prompt.
    fn default() -> (c: Self)
        ensures
            c == (CommandLineColors {
                command_prefix: Rgb { r: 255, g: 255, b: 0 },
                search_prefix: Rgb { r: 255, g: 0, b: 255 },
                help_hint: Rgb { r: 128, g: 128, b: 128 },
            }),
    {
        CommandLineColors {
            command_prefix: Rgb::new(255, 255, 0),
            search_prefix: Rgb::new(255, 0, 255),
            help_hint: Rgb::new(128, 128, 128),
        }
    }
}

/// Separator and miscellaneous UI colors.
#[derive(Debug, Clone)]
pub struct MiscColors {
    pub separator: Rgb,
    pub tree_dark_theme: Rgb,
    pub tree_light_theme: Rgb,
}

impl Default for MiscColors {
    /// Dark gray separators; white-on-dark and black-on-light tree text.
    fn default() -> (c: Self)
        ensures
            c == (MiscColors {
                separator: Rgb { r: 128, g: 128, b: 128 },
                tree_dark_theme: Rgb { r: 255, g: 255, b: 255 },
                tree_light_theme: Rgb { r: 0, g: 0, b: 0 },
            }),
    {
        MiscColors {
            separator: Rgb::new(128, 128, 128),
            tree_dark_theme: Rgb::new(255, 255, 255),
            tree_light_theme: Rgb::new(0, 0, 0),
        }
    }
}

/// Complete UI theme containing all color settings.
#[derive(Debug, Clone)]
pub struct Theme {
    pub border: BorderColors,
    pub ruler: RulerColors,
    pub status_bar: StatusBarColors,
    pub id_column: IdColumnColors,
    pub annotations: AnnotationColors,
    pub selection: SelectionColors,
    pub command_line: CommandLineColors,
    pub misc: MiscColors,
}

impl Default for Theme {
    /// The built-in theme: every section at its default.
    fn default() -> (c: Self)
        ensures
            c.border.active == (Rgb { r: 0, g: 255, b: 255 }),
            c.ruler.pair_line == (Rgb { r: 255, g: 0, b: 255 }),
            c.annotations.ss_cons_fg == (Rgb { r: 255, g: 255, b: 0 }),
            c.misc.separator == (Rgb { r: 128, g: 128, b: 128 }),
    {
        Theme {
            border: BorderColors::default(),
            ruler: RulerColors::default(),
            status_bar: StatusBarColors::default(),
            id_column: IdColumnColors::default(),
            annotations: AnnotationColors::default(),
            selection: SelectionColors::default(),
            command_line: CommandLineColors::default(),
            misc: MiscColors::default(),
        }
    }
}

} // verus!
