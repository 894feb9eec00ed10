use ai_bot::turns::{cancelled, TurnBook};
use std::sync::atomic::{AtomicBool, Ordering};
use std::sync::Arc;

#[test]
fn begin_replaces_and_recall_cancels_once() {
    let mut book = TurnBook::new();
    assert_eq!(book.begin("g", "m1", 1), None);
    assert_eq!(book.begin("h", "x", 2), None);
    assert_eq!(book.begin("g", "m2", 3), Some(1));
    assert_eq!(book.current("g"), Some(("m2".to_string(), 3)));
    assert_eq!(book.cancel_for_message("g", "m1"), None);
    assert_eq!(book.cancel_for_message("g", "m2"), Some(3));
    assert_eq!(book.cancel_for_message("g", "m2"), None);
    assert_eq!(book.current("g"), None);
    assert_eq!(book.current("h"), Some(("x".to_string(), 2)));
}

#[test]
fn finish_spares_newer_turn() {
    let mut book = TurnBook::new();
    book.begin("g", "m1", 1);
    book.begin("g", "m2", 2);
    assert_eq!(book.finish("g", "m1"), None);
    assert_eq!(book.current("g"), Some(("m2".to_string(), 2)));
    assert_eq!(book.finish("g", "m2"), Some(2));
    assert_eq!(book.current("g"), None);
}

#[test]
fn cancel_flag() {
    let f = Arc::new(AtomicBool::new(false));
    assert!(!cancelled(&f));
    f.store(true, Ordering::SeqCst);
    assert!(cancelled(&f));
}
