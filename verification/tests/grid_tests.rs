//! Tests for the aligned grid: sequences, annotations and the
//! column-synchronized editing operations.

use alnedit::grid::Alignment;
use alnedit::grid::ColumnAnnotation;
use alnedit::grid::ResidueAnnotation;
use alnedit::grid::ResidueAnnotationGroup;
use alnedit::grid::Sequence;
use alnedit::grid::SequenceAnnotation;
use alnedit::grid::SequenceAnnotationGroup;

fn chars(s: &str) -> Vec<char> {
    s.chars().collect()
}

#[test]
fn test_alignment_width() {
    let mut alignment = Alignment::new();
    alignment.sequences.push(Sequence::new("seq1", "ACGU..ACGU"));
    alignment.sequences.push(Sequence::new("seq2", "ACGU..ACGU"));
    assert_eq!(alignment.width(), 10);
}

#[test]
fn test_insert_gap_column() {
    let mut alignment = Alignment::new();
    alignment.sequences.push(Sequence::new("seq1", "ACGU"));
    alignment.insert_gap_column(2, '.');
    assert_eq!(alignment.sequences[0].data, chars("AC.GU"));
}

#[test]
fn test_sequence_shift_left() {
    let mut seq = Sequence::new("test", "A.CGU");
    assert!(seq.shift_left(2, &vec!['.']));
    assert_eq!(seq.data, chars("AC.GU"));
}

#[test]
fn test_sequence_shift_right() {
    let mut seq = Sequence::new("test", "ACG.U");
    assert!(seq.shift_right(2, &vec!['.']));
    assert_eq!(seq.data, chars("AC.GU"));
}

#[test]
fn test_shift_round_trip() {
    // the left shift at column 2 consumes the gap at column 1; the right
    // shift at that column puts it back (the search left and right of the
    // cursor is exclusive of the cursor column itself)
    let mut seq = Sequence::new("test", "A.CGU");
    assert!(seq.shift_left(2, &vec!['.']));
    assert_eq!(seq.data, chars("AC.GU"));
    assert!(seq.shift_right(1, &vec!['.']));
    assert_eq!(seq.data, chars("A.CGU"));
}

#[test]
fn test_shift_left_without_gap_fails() {
    let mut seq = Sequence::new("test", "ACGU");
    assert!(!seq.shift_left(2, &vec!['.']));
    assert_eq!(seq.data, chars("ACGU"));
}

#[test]
fn test_delete_gap_column_rejects_non_gap() {
    // space is not a gap symbol here, so the column must survive untouched
    let mut alignment = Alignment::new();
    alignment.sequences.push(Sequence::new("s1", "A-C"));
    alignment.sequences.push(Sequence::new("s2", "A A"));
    assert!(!alignment.delete_gap_column(1, &vec!['-']));
    assert_eq!(alignment.sequences[0].data, chars("A-C"));
    assert_eq!(alignment.sequences[1].data, chars("A A"));
}

#[test]
fn test_gap_column_round_trip() {
    // insert a gap column into every row, then delete it again
    let mut alignment = Alignment::new();
    alignment.sequences.push(Sequence::new("s1", "ACGU"));
    alignment.column_annotations.push(ColumnAnnotation {
        tag: "SS_cons".to_string(),
        data: chars("<..>"),
    });
    alignment.insert_gap_column(2, '.');
    assert_eq!(alignment.width(), 5);
    assert_eq!(alignment.sequences[0].data, chars("AC.GU"));
    assert_eq!(alignment.column_annotations[0].data, chars("<...>"));
    assert!(alignment.delete_gap_column(2, &vec!['.']));
    assert_eq!(alignment.width(), 4);
    assert_eq!(alignment.sequences[0].data, chars("ACGU"));
    assert_eq!(alignment.column_annotations[0].data, chars("<..>"));
}

#[test]
fn test_insert_gap_column_reaches_residue_annotations() {
    let mut alignment = Alignment::new();
    alignment.sequences.push(Sequence::new("s1", "ACGU"));
    alignment.residue_annotations.push(ResidueAnnotationGroup {
        id: "s1".to_string(),
        rows: vec![ResidueAnnotation { tag: "PP".to_string(), data: chars("9999") }],
    });
    alignment.insert_gap_column(1, '-');
    assert_eq!(alignment.sequences[0].data, chars("A-CGU"));
    assert_eq!(alignment.residue_annotations[0].rows[0].data, chars("9-999"));
}

#[test]
fn test_get_and_set_char() {
    let mut alignment = Alignment::new();
    alignment.sequences.push(Sequence::new("s1", "ACGU"));
    assert_eq!(alignment.get_char(0, 2), Some('G'));
    assert_eq!(alignment.get_char(0, 9), None);
    assert_eq!(alignment.get_char(3, 0), None);
    assert!(alignment.set_char(0, 2, 'N'));
    assert_eq!(alignment.get_char(0, 2), Some('N'));
    assert!(!alignment.set_char(0, 9, 'N'));
}

#[test]
fn test_is_valid_and_max_id_len() {
    let mut alignment = Alignment::new();
    assert!(alignment.is_valid());
    assert_eq!(alignment.max_id_len(), 0);
    alignment.sequences.push(Sequence::new("longname", "ACGU"));
    alignment.sequences.push(Sequence::new("s2", "ACGU"));
    assert!(alignment.is_valid());
    assert_eq!(alignment.max_id_len(), 8);
    alignment.sequences.push(Sequence::new("s3", "ACG"));
    assert!(!alignment.is_valid());
}

#[test]
fn test_ss_cons_and_rf_lookup() {
    let mut alignment = Alignment::new();
    assert!(alignment.ss_cons().is_none());
    alignment.column_annotations.push(ColumnAnnotation {
        tag: "RF".to_string(),
        data: chars("xxxx"),
    });
    alignment.column_annotations.push(ColumnAnnotation {
        tag: "SS_cons".to_string(),
        data: chars("<..>"),
    });
    assert_eq!(alignment.ss_cons(), Some(chars("<..>")));
    assert_eq!(alignment.rf(), Some(chars("xxxx")));
    assert!(alignment.set_ss_cons(chars("....")));
    assert_eq!(alignment.ss_cons(), Some(chars("....")));
}

#[test]
fn test_remove_sequence_drops_annotations() {
    // every annotation group keyed by the removed id goes with it
    let mut alignment = Alignment::new();
    alignment.sequences.push(Sequence::new("s1", "ACGU"));
    alignment.sequences.push(Sequence::new("s2", "ACGU"));
    alignment.sequence_annotations.push(SequenceAnnotationGroup {
        id: "s1".to_string(),
        entries: vec![SequenceAnnotation { tag: "DE".to_string(), value: "x".to_string() }],
    });
    alignment.residue_annotations.push(ResidueAnnotationGroup {
        id: "s1".to_string(),
        rows: vec![ResidueAnnotation { tag: "PP".to_string(), data: chars("9999") }],
    });
    alignment.residue_annotations.push(ResidueAnnotationGroup {
        id: "s2".to_string(),
        rows: vec![ResidueAnnotation { tag: "PP".to_string(), data: chars("8888") }],
    });
    assert!(alignment.remove_sequence(0));
    assert_eq!(alignment.sequences.len(), 1);
    assert_eq!(alignment.sequences[0].id, "s2".to_string());
    assert!(alignment.sequence_annotations.is_empty());
    assert_eq!(alignment.residue_annotations.len(), 1);
    assert_eq!(alignment.residue_annotations[0].id, "s2".to_string());
}

#[test]
fn test_sequence_insert_and_delete_gap() {
    let mut seq = Sequence::new("s", "AC");
    seq.insert_gap(1, '.');
    assert_eq!(seq.data, chars("A.C"));
    // position beyond the row is ignored
    seq.insert_gap(9, '.');
    assert_eq!(seq.data, chars("A.C"));
    assert!(seq.delete_gap(1, &vec!['.']));
    assert_eq!(seq.data, chars("AC"));
    // not a gap: nothing happens
    assert!(!seq.delete_gap(0, &vec!['.']));
    assert_eq!(seq.data, chars("AC"));
}
