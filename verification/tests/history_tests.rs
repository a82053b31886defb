//! Tests for the command/search input history.

use alnedit::history::InputHistory;

#[test]
fn test_empty_history() {
    let mut history = InputHistory::new();
    assert!(history.prev("current").is_none());
    assert!(history.next().is_none());
}

#[test]
fn test_navigation() {
    let mut history = InputHistory::new();
    history.push("first".to_string());
    history.push("second".to_string());
    history.push("third".to_string());

    // Navigate back
    assert_eq!(history.prev("current"), Some("third".to_string()));
    assert_eq!(history.prev("current"), Some("second".to_string()));
    assert_eq!(history.prev("current"), Some("first".to_string()));
    // At oldest, stays there
    assert_eq!(history.prev("current"), Some("first".to_string()));

    // Navigate forward
    assert_eq!(history.next(), Some("second".to_string()));
    assert_eq!(history.next(), Some("third".to_string()));
    // At end, restores saved
    assert_eq!(history.next(), Some("current".to_string()));
}

#[test]
fn test_avoids_duplicates() {
    let mut history = InputHistory::new();
    history.push("same".to_string());
    history.push("same".to_string());
    history.push("different".to_string());
    history.push("different".to_string());

    assert_eq!(history.prev(""), Some("different".to_string()));
    assert_eq!(history.prev(""), Some("same".to_string()));
    assert!(history.prev("").is_some()); // stays at oldest
}

#[test]
fn test_reset_navigation() {
    let mut history = InputHistory::new();
    history.push("one".to_string());
    assert_eq!(history.prev("typing"), Some("one".to_string()));
    assert!(history.is_browsing());
    history.reset_navigation();
    assert!(!history.is_browsing());
    // the saved input was discarded with the navigation state
    assert_eq!(history.prev("later"), Some("one".to_string()));
    assert_eq!(history.next(), Some("later".to_string()));
}
