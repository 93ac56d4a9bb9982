use fsmon::dedup::DedupWindow;

/// Two identical serialized events inside one second publish once; the
/// same pair a second and a half apart publishes twice.
#[test]
fn test_dedup_window() {
    let e = "{\"path\":\"C:\\\\w\\\\a.txt\"}".to_string();
    let mut w = DedupWindow::new();
    assert!(w.observe(&e, 10_000));
    assert!(!w.observe(&e, 10_500));
    let mut w = DedupWindow::new();
    assert!(w.observe(&e, 10_000));
    assert!(w.observe(&e, 11_500));
}

/// The window compares exact text: a different serialization passes.
#[test]
fn test_dedup_distinguishes_text() {
    let a = "event-a".to_string();
    let b = "event-b".to_string();
    let mut w = DedupWindow::new();
    assert!(w.observe(&a, 0));
    assert!(w.observe(&b, 1));
    assert!(!w.observe(&a, 2));
    assert!(!w.observe(&b, 2));
}

/// The window boundary: a repeat exactly one window later publishes
/// again.
#[test]
fn test_dedup_boundary() {
    let e = "event".to_string();
    let mut w = DedupWindow::new();
    assert!(w.observe(&e, 1000));
    assert!(!w.observe(&e, 1999));
    assert!(w.observe(&e, 2000));
}

/// A suppressed repeat does not extend the window: the instant of the
/// last publication decides.
#[test]
fn test_dedup_suppression_does_not_refresh() {
    let e = "event".to_string();
    let mut w = DedupWindow::new();
    assert!(w.observe(&e, 0));
    assert!(!w.observe(&e, 900));
    assert!(w.observe(&e, 1000));
}
