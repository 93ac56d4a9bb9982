use fsmon::normalize::{NormalizeOutcome, normalize};
use fsmon::ops::OperationKind;
use fsmon::wire::DriverMessage;

fn units(s: &str) -> Vec<u16> {
    s.encode_utf16().collect()
}

fn ext_field(s: &str) -> Vec<u16> {
    let mut u = units(s);
    while u.len() < 12 {
        u.push(0);
    }
    u
}

fn message(file_change: u8, irp_op: u8, path: &str, time_ms: u64, file_size: i64) -> DriverMessage {
    DriverMessage {
        file_change,
        irp_op,
        pid: 77,
        file_size,
        entropy_bits: 123,
        gid: 9,
        time_ms,
        extension: ext_field("txt"),
        path: units(path),
    }
}

/// A rename inside one directory becomes a renamed-from/renamed-to
/// pair: same size on both, timestamps exactly one millisecond apart.
#[test]
fn test_rename_same_directory() {
    let msg = message(4, 3, "C:\\watched\\a.txt|C:\\watched\\b.txt", 5000, 42);
    match normalize(&msg) {
        NormalizeOutcome::Pair(f, t) => {
            assert_eq!(f.path, "C:\\watched\\a.txt");
            assert_eq!(t.path, "C:\\watched\\b.txt");
            assert!(matches!(f.kind, OperationKind::RenamedFrom));
            assert!(matches!(t.kind, OperationKind::RenamedTo));
            assert_eq!(f.file_size, 42);
            assert_eq!(t.file_size, 42);
            assert_eq!(f.time_ms, 5000);
            assert_eq!(t.time_ms, 5001);
            assert_eq!(t.time_ms - f.time_ms, 1);
            assert_eq!(f.pid, 77);
            assert_eq!(t.pid, 77);
            assert_eq!(f.gid, 9);
            assert_eq!(f.extension, "txt");
            assert_eq!(t.extension, "txt");
        }
        _ => panic!("expected a pair"),
    }
}

/// A rename across directories becomes a moved-from/moved-to pair.
#[test]
fn test_rename_across_directories() {
    let msg = message(4, 3, "C:\\one\\a.txt|C:\\two\\a.txt", 5000, 7);
    match normalize(&msg) {
        NormalizeOutcome::Pair(f, t) => {
            assert!(matches!(f.kind, OperationKind::MovedFrom));
            assert!(matches!(t.kind, OperationKind::MovedTo));
            assert_eq!(f.path, "C:\\one\\a.txt");
            assert_eq!(t.path, "C:\\two\\a.txt");
            assert_eq!(f.file_size, 7);
            assert_eq!(t.file_size, 7);
        }
        _ => panic!("expected a pair"),
    }
}

/// A rename-class message without a delimiter is a protocol violation:
/// reported as malformed, never split and never published.
#[test]
fn test_rename_without_delimiter_is_malformed() {
    let msg = message(4, 3, "C:\\watched\\a.txt", 5000, 42);
    assert!(matches!(normalize(&msg), NormalizeOutcome::Malformed));
}

/// Recognized chatter is suppressed before normalization.
#[test]
fn test_noise_is_suppressed() {
    assert!(matches!(
        normalize(&message(1, 4, "C:\\w\\a", 1, 0)),
        NormalizeOutcome::Suppressed
    ));
    assert!(matches!(
        normalize(&message(0, 4, "C:\\w\\a", 1, 0)),
        NormalizeOutcome::Suppressed
    ));
    assert!(matches!(
        normalize(&message(0, 3, "C:\\w\\a", 1, 0)),
        NormalizeOutcome::Suppressed
    ));
}

/// An ordinary operation code maps one message to one event of the
/// code's kind.
#[test]
fn test_single_event() {
    let msg = message(2, 2, "C:\\watched\\a.txt", 900, 16);
    match normalize(&msg) {
        NormalizeOutcome::Single(e) => {
            assert!(matches!(e.kind, OperationKind::Write));
            assert_eq!(e.path, "C:\\watched\\a.txt");
            assert_eq!(e.time_ms, 900);
            assert_eq!(e.file_size, 16);
            assert_eq!(e.extension, "txt");
            assert_eq!(e.irp_op, 2);
        }
        _ => panic!("expected a single event"),
    }
}

/// A code outside the table yields an event of unknown kind rather
/// than a crash.
#[test]
fn test_unknown_code() {
    let msg = message(42, 2, "C:\\watched\\a.txt", 900, 16);
    match normalize(&msg) {
        NormalizeOutcome::Single(e) => {
            assert!(matches!(e.kind, OperationKind::Unknown));
        }
        _ => panic!("expected a single event"),
    }
}
