use fsmon::dedup::DedupWindow;
use fsmon::metadata::{LookupError, MetadataSnapshot, StatInfo, metadata_snapshot};
use fsmon::normalize::{NormalizeOutcome, normalize};
use fsmon::pipeline::emit_for_outcome;
use fsmon::wire::decode_messages;

fn push_u16(buf: &mut Vec<u8>, v: u16) {
    buf.push((v & 0xff) as u8);
    buf.push((v >> 8) as u8);
}

fn record(file_change: u8, irp_op: u8, time_ms: u64, path: &str) -> Vec<u8> {
    let mut b: Vec<u8> = Vec::new();
    b.push(file_change);
    b.push(irp_op);
    b.extend_from_slice(&4321u32.to_le_bytes());
    b.extend_from_slice(&16i64.to_le_bytes());
    b.extend_from_slice(&0u64.to_le_bytes());
    b.extend_from_slice(&1u64.to_le_bytes());
    b.extend_from_slice(&time_ms.to_le_bytes());
    let ext: Vec<u16> = "txt".encode_utf16().collect();
    for i in 0..12 {
        push_u16(&mut b, if i < ext.len() { ext[i] } else { 0 });
    }
    let units: Vec<u16> = path.encode_utf16().collect();
    push_u16(&mut b, units.len() as u16);
    for u in units {
        push_u16(&mut b, u);
    }
    b
}

fn snapshot() -> MetadataSnapshot {
    let si = StatInfo {
        size: 16,
        created: Ok(0),
        modified: Ok(0),
        accessed: Ok(0),
        readonly: false,
    };
    metadata_snapshot(&Ok(si), &Ok(0))
}

/// Creating, writing and renaming a file under a watch root publishes,
/// in order: a created event, a write event, then a renamed-from event
/// immediately followed by a renamed-to event, all under the root.
#[test]
fn test_create_write_rename_stream() {
    let mut buf: Vec<u8> = Vec::new();
    buf.extend(record(3, 4, 1000, "C:\\watched\\a.txt"));
    buf.extend(record(2, 2, 1500, "C:\\watched\\a.txt"));
    buf.extend(record(4, 3, 2000, "C:\\watched\\a.txt|C:\\watched\\b.txt"));
    let msgs = decode_messages(3, &buf);
    assert_eq!(msgs.len(), 3);

    let dirs = vec!["C:\\watched".to_string()];
    let md = snapshot();
    let mut published: Vec<String> = Vec::new();
    let mut dedup = DedupWindow::new();
    for msg in &msgs {
        let outcome = normalize(msg);
        let lines = emit_for_outcome(
            &outcome,
            &dirs,
            &md,
            "notepad.exe",
            "C:\\Windows\\notepad.exe",
            "0.5",
        );
        for line in lines {
            if dedup.observe(&line, msg.time_ms) {
                published.push(line);
            }
        }
    }

    assert_eq!(published.len(), 4);
    let parsed: Vec<serde_json::Value> = published
        .iter()
        .map(|l| serde_json::from_str(l).expect("well-formed JSON"))
        .collect();
    assert_eq!(parsed[0]["event_type"], "Created");
    assert_eq!(parsed[0]["path"], "C:\\watched\\a.txt");
    assert_eq!(parsed[1]["event_type"], "Write");
    assert_eq!(parsed[1]["path"], "C:\\watched\\a.txt");
    assert_eq!(parsed[2]["event_type"], "Renamed From");
    assert_eq!(parsed[2]["path"], "C:\\watched\\a.txt");
    assert_eq!(parsed[3]["event_type"], "Renamed To");
    assert_eq!(parsed[3]["path"], "C:\\watched\\b.txt");
    for p in &parsed {
        assert_eq!(p["watcher"], "C:\\watched");
        assert_eq!(p["pid"], "4321");
    }
    assert!(parsed[2]["timestamp"].as_str().unwrap() < parsed[3]["timestamp"].as_str().unwrap());
}

/// Events outside every watch root are not published.
#[test]
fn test_unwatched_path_dropped() {
    let buf = record(2, 2, 1000, "D:\\elsewhere\\a.txt");
    let msgs = decode_messages(1, &buf);
    let outcome = normalize(&msgs[0]);
    let dirs = vec!["C:\\watched".to_string()];
    let lines = emit_for_outcome(&outcome, &dirs, &snapshot(), "p.exe", "C:\\p.exe", "0");
    assert!(lines.is_empty());
}

/// Events attributed to the OS indexing process are dropped as noise.
#[test]
fn test_indexing_process_dropped() {
    let buf = record(2, 2, 1000, "C:\\watched\\a.txt");
    let msgs = decode_messages(1, &buf);
    let outcome = normalize(&msgs[0]);
    let dirs = vec!["C:\\watched".to_string()];
    let lines = emit_for_outcome(
        &outcome,
        &dirs,
        &snapshot(),
        "SearchProtocolHost.exe",
        "C:\\Windows\\System32\\SearchProtocolHost.exe",
        "0",
    );
    assert!(lines.is_empty());
}

/// A move pair whose source lies under no root publishes under the
/// destination's root.
#[test]
fn test_move_pair_fallback_root() {
    let buf = record(4, 3, 1000, "D:\\outside\\a.txt|C:\\watched\\a.txt");
    let msgs = decode_messages(1, &buf);
    let outcome = normalize(&msgs[0]);
    assert!(matches!(outcome, NormalizeOutcome::Pair(_, _)));
    let dirs = vec!["C:\\watched".to_string()];
    let lines = emit_for_outcome(&outcome, &dirs, &snapshot(), "p.exe", "C:\\p.exe", "0");
    assert_eq!(lines.len(), 2);
    let from: serde_json::Value = serde_json::from_str(&lines[0]).unwrap();
    let to: serde_json::Value = serde_json::from_str(&lines[1]).unwrap();
    assert_eq!(from["event_type"], "Moved From");
    assert_eq!(to["event_type"], "Moved To");
    assert_eq!(from["watcher"], "C:\\watched");
    assert_eq!(to["watcher"], "C:\\watched");
}

/// A suppressed chatter record never reaches publication.
#[test]
fn test_noise_never_published() {
    let buf = record(0, 3, 1000, "C:\\watched\\a.txt");
    let msgs = decode_messages(1, &buf);
    let outcome = normalize(&msgs[0]);
    let dirs = vec!["C:\\watched".to_string()];
    let lines = emit_for_outcome(&outcome, &dirs, &snapshot(), "p.exe", "C:\\p.exe", "0");
    assert!(lines.is_empty());
}

/// An identical event re-sent by the driver inside the dedup window is
/// published once.
#[test]
fn test_duplicate_event_suppressed() {
    let buf = record(2, 2, 1000, "C:\\watched\\a.txt");
    let msgs = decode_messages(1, &buf);
    let outcome = normalize(&msgs[0]);
    let dirs = vec!["C:\\watched".to_string()];
    let lines = emit_for_outcome(&outcome, &dirs, &snapshot(), "p.exe", "C:\\p.exe", "0");
    assert_eq!(lines.len(), 1);
    let mut dedup = DedupWindow::new();
    assert!(dedup.observe(&lines[0], 1000));
    assert!(!dedup.observe(&lines[0], 1400));
    assert!(dedup.observe(&lines[0], 2500));
}
