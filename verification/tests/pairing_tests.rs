//! Tests for the pairing resolver and the structure cache.

use alnedit::cache::StructureCache;
use alnedit::pairing::resolve;

fn chars(s: &str) -> Vec<char> {
    s.chars().collect()
}

#[test]
fn test_nested_pairs() {
    let r = resolve(&chars("((..))"));
    assert_eq!(r.table.pairs, vec![Some(5), Some(4), None, None, Some(1), Some(0)]);
    assert!(r.malformed.is_empty());
}

#[test]
fn test_channel_isolation() {
    // two channels interleave; each matches only within itself and
    // nothing is reported malformed
    let r = resolve(&chars("(.[.).]"));
    assert_eq!(
        r.table.pairs,
        vec![Some(4), None, Some(6), None, Some(0), None, Some(2)]
    );
    assert!(r.malformed.is_empty());
}

#[test]
fn test_letter_channels() {
    // upper-case letters open, matching lower-case letters close
    let r = resolve(&chars("AA.aa"));
    assert_eq!(r.table.pairs, vec![Some(4), Some(3), None, Some(1), Some(0)]);
    assert!(r.malformed.is_empty());
}

#[test]
fn test_table_is_symmetric() {
    let r = resolve(&chars("((<..>.))"));
    for (i, entry) in r.table.pairs.iter().enumerate() {
        if let Some(j) = entry {
            assert_eq!(r.table.pairs[*j], Some(i));
        }
    }
}

#[test]
fn test_unmatched_closers_and_openers() {
    // the two closers come first in scan order, then the leftover openers
    let r = resolve(&chars("))(("));
    assert_eq!(r.table.pairs, vec![None, None, None, None]);
    assert_eq!(r.malformed, vec![0, 1, 2, 3]);
}

#[test]
fn test_mismatched_channel_reported() {
    // "]" never closes "(": both columns are malformed, nothing pairs
    let r = resolve(&chars("(.]"));
    assert_eq!(r.table.pairs, vec![None, None, None]);
    assert_eq!(r.malformed, vec![2, 0]);
}

#[test]
fn test_cache_update_and_get_pair() {
    let mut cache = StructureCache::new();
    let source = chars("((..))");
    assert!(!cache.is_valid_for(&source));
    assert!(cache.update(&source).is_ok());
    assert!(cache.is_valid_for(&source));
    assert_eq!(cache.get_pair(0), Some(5));
    assert_eq!(cache.get_pair(5), Some(0));
    assert_eq!(cache.get_pair(2), None);
    assert_eq!(cache.get_pair(99), None);
    assert!(cache.is_paired(1));
    assert!(!cache.is_paired(3));
}

#[test]
fn test_cache_reports_malformed_but_keeps_table() {
    let mut cache = StructureCache::new();
    let source = chars("((..)");
    let err = cache.update(&source).unwrap_err();
    // the unmatched opener is reported ...
    assert_eq!(err.columns, vec![0]);
    // ... and the matched pair is still in the table
    assert_eq!(cache.get_pair(1), Some(4));
    assert_eq!(cache.get_pair(0), None);
}

#[test]
fn test_gap_symbols_stay_unpaired() {
    let r = resolve(&chars(".-~x5"));
    assert_eq!(r.table.pairs, vec![None, None, None, None, None]);
    // "x" closes the X channel with nothing open, so it is malformed
    assert_eq!(r.malformed, vec![3]);
}
