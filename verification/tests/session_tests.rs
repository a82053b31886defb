//! Tests for the editing session: commands, undo/redo, the command line
//! and the display configuration.

use alnedit::grid::ColumnAnnotation;
use alnedit::grid::ResidueAnnotation;
use alnedit::grid::ResidueAnnotationGroup;
use alnedit::grid::Sequence;
use alnedit::session::App;
use alnedit::session::ColorScheme;
use alnedit::session::Mode;
use alnedit::theme::BorderColors;
use alnedit::theme::Rgb;
use alnedit::theme::Theme;

fn chars(s: &str) -> Vec<char> {
    s.chars().collect()
}

fn app_with(rows: &[(&str, &str)]) -> App {
    let mut app = App::new();
    for (id, data) in rows {
        app.alignment.sequences.push(Sequence::new(id, data));
    }
    app
}

#[test]
fn test_undo_redo_round_trip() {
    // an edit, undone, restores the starting state; redone, restores the
    // edit together with the cursor position at the time of the edit
    let mut app = app_with(&[("s1", "ACGU")]);
    app.cursor_col = 2;
    app.insert_gap_column();
    assert_eq!(app.alignment.sequences[0].data, chars("AC.GU"));

    app.cursor_col = 0;
    app.undo();
    assert_eq!(app.alignment.sequences[0].data, chars("ACGU"));
    assert_eq!(app.cursor_col, 2);
    assert_eq!(app.status_message, Some("Undo".to_string()));
    assert_eq!(app.history.undo_depth(), 0);
    assert_eq!(app.history.redo_depth(), 1);

    app.redo();
    assert_eq!(app.alignment.sequences[0].data, chars("AC.GU"));
    assert_eq!(app.cursor_col, 0);
    assert_eq!(app.status_message, Some("Redo".to_string()));
}

#[test]
fn test_undo_with_empty_history() {
    let mut app = app_with(&[("s1", "ACGU")]);
    app.undo();
    assert_eq!(app.status_message, Some("Nothing to undo".to_string()));
    assert_eq!(app.alignment.sequences[0].data, chars("ACGU"));
    app.redo();
    assert_eq!(app.status_message, Some("Nothing to redo".to_string()));
}

#[test]
fn test_throw_left_on_packed_row() {
    // no gap lies left of the cursor: zero shifts, "no gaps found"
    let mut app = app_with(&[("s1", "ACGU")]);
    app.cursor_col = 2;
    app.throw_sequence_left();
    assert_eq!(app.alignment.sequences[0].data, chars("ACGU"));
    assert!(!app.modified);
    assert_eq!(
        app.status_message,
        Some("Cannot throw left (no gaps found)".to_string())
    );
}

#[test]
fn test_throw_left_packs_row() {
    let mut app = app_with(&[("s1", ".A.CG")]);
    app.cursor_col = 4;
    app.throw_sequence_left();
    assert!(app.modified);
    assert_eq!(app.alignment.sequences[0].data, chars("ACG.."));
}

#[test]
fn test_shift_commands_mirror_residue_annotations() {
    let mut app = app_with(&[("s1", "A.CGU")]);
    app.alignment.residue_annotations.push(ResidueAnnotationGroup {
        id: "s1".to_string(),
        rows: vec![ResidueAnnotation { tag: "PP".to_string(), data: chars("9.876") }],
    });
    app.cursor_col = 2;
    assert!(app.shift_sequence_left());
    assert_eq!(app.alignment.sequences[0].data, chars("AC.GU"));
    assert_eq!(app.alignment.residue_annotations[0].rows[0].data, chars("98.76"));
}

#[test]
fn test_insert_and_delete_gap_at_cursor() {
    let mut app = app_with(&[("s1", "ACGU")]);
    app.cursor_col = 1;
    app.insert_gap();
    assert_eq!(app.alignment.sequences[0].data, chars("A.CGU"));
    assert_eq!(app.cursor_col, 2);
    app.cursor_col = 1;
    assert!(app.delete_gap());
    assert_eq!(app.alignment.sequences[0].data, chars("ACGU"));
    // the cursor now sits on "C", which is not a gap
    assert!(!app.delete_gap());
    assert_eq!(app.status_message, Some("Not a gap character".to_string()));
}

#[test]
fn test_delete_gap_column_command_rejects_non_gap() {
    let mut app = app_with(&[("s1", "A-C"), ("s2", "A A")]);
    app.gap_chars = vec!['-'];
    app.cursor_col = 1;
    assert!(!app.delete_gap_column());
    assert_eq!(app.alignment.sequences[0].data, chars("A-C"));
    assert_eq!(app.alignment.sequences[1].data, chars("A A"));
    assert_eq!(
        app.status_message,
        Some("Column contains non-gap characters".to_string())
    );
}

#[test]
fn test_delete_sequence_command() {
    let mut app = app_with(&[("s1", "ACGU"), ("s2", "ACGU")]);
    app.alignment.residue_annotations.push(ResidueAnnotationGroup {
        id: "s1".to_string(),
        rows: vec![ResidueAnnotation { tag: "PP".to_string(), data: chars("9999") }],
    });
    app.cursor_row = 0;
    app.delete_sequence();
    assert_eq!(app.alignment.sequences.len(), 1);
    assert_eq!(app.alignment.sequences[0].id, "s2".to_string());
    assert!(app.alignment.residue_annotations.is_empty());
}

#[test]
fn test_case_and_alphabet_conversions() {
    let mut app = app_with(&[("s1", "acgT")]);
    app.uppercase_alignment();
    assert_eq!(app.alignment.sequences[0].data, chars("ACGT"));
    app.convert_t_to_u();
    assert_eq!(app.alignment.sequences[0].data, chars("ACGU"));
    app.convert_u_to_t();
    assert_eq!(app.alignment.sequences[0].data, chars("ACGT"));
    app.lowercase_alignment();
    assert_eq!(app.alignment.sequences[0].data, chars("acgt"));
}

#[test]
fn test_goto_pair_follows_structure() {
    let mut app = app_with(&[("s1", "ACCGGU")]);
    app.alignment.column_annotations.push(ColumnAnnotation {
        tag: "SS_cons".to_string(),
        data: chars("((..))"),
    });
    app.update_structure_cache();
    app.cursor_col = 0;
    app.goto_pair();
    assert_eq!(app.cursor_col, 5);
    app.goto_pair();
    assert_eq!(app.cursor_col, 0);
    // an unpaired column stays put
    app.cursor_col = 2;
    app.goto_pair();
    assert_eq!(app.cursor_col, 2);
}

#[test]
fn test_structure_cache_refresh_after_column_edit() {
    let mut app = app_with(&[("s1", "ACCGGU")]);
    app.alignment.column_annotations.push(ColumnAnnotation {
        tag: "SS_cons".to_string(),
        data: chars("((..))"),
    });
    app.update_structure_cache();
    app.cursor_col = 2;
    app.insert_gap_column();
    // the cache was refreshed against the widened structure string
    assert_eq!(app.structure_cache.get_pair(0), Some(6));
    assert_eq!(app.structure_cache.get_pair(1), Some(5));
}

#[test]
fn test_cursor_movement_and_clamping() {
    let mut app = app_with(&[("s1", "ACGU"), ("s2", "ACGU"), ("s3", "ACGU")]);
    app.cursor_down();
    app.cursor_down();
    app.cursor_down();
    assert_eq!(app.cursor_row, 2);
    app.cursor_up();
    assert_eq!(app.cursor_row, 1);
    app.cursor_line_end();
    assert_eq!(app.cursor_col, 3);
    app.cursor_right();
    assert_eq!(app.cursor_col, 3);
    app.cursor_left();
    assert_eq!(app.cursor_col, 2);
    app.cursor_line_start();
    assert_eq!(app.cursor_col, 0);
    app.cursor_row = 99;
    app.cursor_col = 99;
    app.clamp_cursor();
    assert_eq!(app.cursor_row, 2);
    assert_eq!(app.cursor_col, 3);
    app.page_down(10);
    assert_eq!(app.cursor_row, 2);
    app.page_up(1);
    assert_eq!(app.cursor_row, 1);
    app.scroll_right(2);
    assert_eq!(app.cursor_col, 3);
    app.scroll_left(10);
    assert_eq!(app.cursor_col, 0);
}

#[test]
fn test_execute_command_quit() {
    let mut app = App::new();
    app.command_buffer = chars("q");
    app.execute_command();
    assert!(app.should_quit);

    let mut app = App::new();
    app.modified = true;
    app.command_buffer = chars("q");
    app.execute_command();
    assert!(!app.should_quit);
    assert_eq!(
        app.status_message,
        Some("No write since last change (use :q! to force)".to_string())
    );

    app.command_buffer = chars("q!");
    app.execute_command();
    assert!(app.should_quit);
}

#[test]
fn test_execute_command_color() {
    let mut app = App::new();
    app.command_buffer = chars("color ss");
    app.execute_command();
    assert_eq!(app.color_scheme, ColorScheme::Structure);
    assert_eq!(app.status_message, Some("Color scheme: structure".to_string()));

    app.command_buffer = chars("color nonsense");
    app.execute_command();
    assert_eq!(
        app.status_message,
        Some("Unknown color scheme: nonsense".to_string())
    );
    assert_eq!(app.color_scheme, ColorScheme::Structure);
}

#[test]
fn test_execute_command_set_gap() {
    let mut app = App::new();
    app.command_buffer = chars("set gap=-");
    app.execute_command();
    assert_eq!(app.gap_char, '-');
    assert_eq!(app.status_message, Some("Gap character: '-'".to_string()));

    app.command_buffer = chars("set speed=9");
    app.execute_command();
    assert_eq!(app.status_message, Some("Unknown setting: speed".to_string()));
}

#[test]
fn test_execute_command_write_requests_save() {
    let mut app = App::new();
    app.command_buffer = chars("w");
    app.execute_command();
    assert_eq!(app.status_message, Some("No file path set".to_string()));
    assert!(app.save_request.is_none());

    app.command_buffer = chars("w out.sto");
    app.execute_command();
    let request = app.save_request.take().expect("a save was requested");
    assert_eq!(request.path, "out.sto".to_string());
    assert!(!request.quit_after);
    app.complete_save(request);
    assert_eq!(app.file_path, Some("out.sto".to_string()));
    assert!(!app.modified);
    assert_eq!(app.status_message, Some("Saved out.sto".to_string()));

    app.command_buffer = chars("wq");
    app.execute_command();
    let request = app.save_request.take().expect("a save was requested");
    assert!(request.quit_after);
    app.complete_save(request);
    assert!(app.should_quit);
}

#[test]
fn test_execute_command_unknown() {
    let mut app = App::new();
    app.command_buffer = chars("  frobnicate now  ");
    app.execute_command();
    assert_eq!(app.mode, Mode::Normal);
    assert!(app.command_buffer.is_empty());
    assert_eq!(
        app.status_message,
        Some("Unknown command: frobnicate now".to_string())
    );
}

#[test]
fn test_mode_and_scheme_names() {
    assert_eq!(Mode::Normal.as_str(), "NORMAL");
    assert_eq!(Mode::Insert.as_str(), "INSERT");
    assert_eq!(Mode::Command.as_str(), "COMMAND");
    assert_eq!(ColorScheme::from_str("SS"), Some(ColorScheme::Structure));
    assert_eq!(ColorScheme::from_str("off"), Some(ColorScheme::Plain));
    assert_eq!(ColorScheme::from_str("comp"), Some(ColorScheme::Compensatory));
    assert_eq!(ColorScheme::from_str("zzz"), None);
    assert_eq!(ColorScheme::Base.as_str(), "base");
}

#[test]
fn test_mode_transitions() {
    let mut app = App::new();
    app.enter_insert_mode();
    assert_eq!(app.mode, Mode::Insert);
    app.enter_command_mode();
    assert_eq!(app.mode, Mode::Command);
    app.command_buffer.push('q');
    app.enter_normal_mode();
    assert_eq!(app.mode, Mode::Normal);
    assert!(app.command_buffer.is_empty());
}

#[test]
fn test_install_alignment_resets_session() {
    let mut app = app_with(&[("s1", "ACGU")]);
    app.cursor_col = 3;
    app.insert_gap_column();
    assert!(app.history.undo_depth() > 0);

    let mut loaded = alnedit::grid::Alignment::new();
    loaded.sequences.push(Sequence::new("t1", "GGCC"));
    app.install_alignment(loaded, "aln.sto".to_string());
    assert_eq!(app.alignment.sequences[0].data, chars("GGCC"));
    assert_eq!(app.file_path, Some("aln.sto".to_string()));
    assert_eq!(app.cursor_row, 0);
    assert_eq!(app.cursor_col, 0);
    assert_eq!(app.history.undo_depth(), 0);
    assert!(!app.modified);
    assert_eq!(app.status_message, Some("Loaded aln.sto".to_string()));
}

#[test]
fn test_adjust_viewport_tracks_cursor() {
    let mut app = app_with(&[("s1", "ACGUACGUACGU")]);
    app.cursor_col = 10;
    app.adjust_viewport(5, 4);
    assert_eq!(app.viewport_col, 7);
    app.cursor_col = 2;
    app.adjust_viewport(5, 4);
    assert_eq!(app.viewport_col, 2);
}

#[test]
fn test_current_char_and_gap_check() {
    let mut app = app_with(&[("s1", "A.GU")]);
    app.cursor_col = 1;
    assert_eq!(app.current_char(), Some('.'));
    assert!(app.is_current_gap());
    app.cursor_col = 0;
    assert!(!app.is_current_gap());
}

#[test]
fn test_theme_defaults() {
    let theme = Theme::default();
    assert_eq!(theme.border.active, Rgb::new(0, 255, 255));
    assert_eq!(theme.ruler.pair_line, Rgb::new(255, 0, 255));
    assert_eq!(theme.status_bar.modes.normal_bg, Rgb::new(0, 0, 255));
    let border = BorderColors::default();
    assert_eq!(border.inactive, Rgb::new(128, 128, 128));
}
