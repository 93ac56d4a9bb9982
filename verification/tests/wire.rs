use fsmon::wire::decode_messages;

fn push_u16(buf: &mut Vec<u8>, v: u16) {
    buf.push((v & 0xff) as u8);
    buf.push((v >> 8) as u8);
}

fn record(
    file_change: u8,
    irp_op: u8,
    pid: u32,
    file_size: i64,
    entropy_bits: u64,
    gid: u64,
    time_ms: u64,
    extension: &str,
    path: &str,
) -> Vec<u8> {
    let mut b: Vec<u8> = Vec::new();
    b.push(file_change);
    b.push(irp_op);
    b.extend_from_slice(&pid.to_le_bytes());
    b.extend_from_slice(&file_size.to_le_bytes());
    b.extend_from_slice(&entropy_bits.to_le_bytes());
    b.extend_from_slice(&gid.to_le_bytes());
    b.extend_from_slice(&time_ms.to_le_bytes());
    let ext_units: Vec<u16> = extension.encode_utf16().collect();
    assert!(ext_units.len() <= 12);
    for i in 0..12 {
        push_u16(&mut b, if i < ext_units.len() { ext_units[i] } else { 0 });
    }
    let path_units: Vec<u16> = path.encode_utf16().collect();
    push_u16(&mut b, path_units.len() as u16);
    for u in path_units {
        push_u16(&mut b, u);
    }
    b
}

/// A buffer holding as many records as `num_ops` decodes to exactly
/// that many messages.
#[test]
fn test_decode_yields_num_ops() {
    let mut buf: Vec<u8> = Vec::new();
    buf.extend(record(3, 4, 11, 5, 0, 1, 1000, "txt", "C:\\w\\a.txt"));
    buf.extend(record(2, 2, 11, 9, 0, 2, 1001, "txt", "C:\\w\\a.txt"));
    buf.extend(record(8, 3, 12, -1, 0, 3, 1002, "", "C:\\w\\b.log"));
    let msgs = decode_messages(3, &buf);
    assert_eq!(msgs.len(), 3);
    assert_eq!(msgs[0].file_change, 3);
    assert_eq!(msgs[0].irp_op, 4);
    assert_eq!(msgs[0].pid, 11);
    assert_eq!(msgs[0].file_size, 5);
    assert_eq!(msgs[0].gid, 1);
    assert_eq!(msgs[0].time_ms, 1000);
    assert_eq!(msgs[2].file_size, -1);
    let path: Vec<u16> = "C:\\w\\b.log".encode_utf16().collect();
    assert_eq!(msgs[2].path, path);
    assert_eq!(msgs[0].extension.len(), 12);
}

/// Decoding stops after `num_ops` records even when the buffer holds
/// more.
#[test]
fn test_decode_stops_at_num_ops() {
    let mut buf: Vec<u8> = Vec::new();
    buf.extend(record(2, 2, 1, 1, 0, 1, 1, "a", "C:\\x"));
    buf.extend(record(2, 2, 2, 2, 0, 2, 2, "b", "C:\\y"));
    let msgs = decode_messages(1, &buf);
    assert_eq!(msgs.len(), 1);
    assert_eq!(msgs[0].pid, 1);
}

/// Decoding stops on buffer exhaustion rather than reading past the
/// end.
#[test]
fn test_decode_truncated_buffer() {
    let mut buf: Vec<u8> = Vec::new();
    buf.extend(record(2, 2, 1, 1, 0, 1, 1, "a", "C:\\x"));
    let whole = record(2, 2, 2, 2, 0, 2, 2, "b", "C:\\y");
    buf.extend_from_slice(&whole[..whole.len() - 1]);
    let msgs = decode_messages(5, &buf);
    assert_eq!(msgs.len(), 1);
    let empty = decode_messages(4, &[0u8; 10]);
    assert_eq!(empty.len(), 0);
    let none = decode_messages(0, &buf);
    assert_eq!(none.len(), 0);
}

/// A record carrying the largest field values round-trips.
#[test]
fn test_decode_extreme_values() {
    let buf = record(
        255,
        255,
        u32::MAX,
        i64::MIN,
        u64::MAX,
        u64::MAX,
        u64::MAX,
        "abcdefghijkl",
        "",
    );
    let msgs = decode_messages(1, &buf);
    assert_eq!(msgs.len(), 1);
    assert_eq!(msgs[0].pid, u32::MAX);
    assert_eq!(msgs[0].file_size, i64::MIN);
    assert_eq!(msgs[0].entropy_bits, u64::MAX);
    assert_eq!(msgs[0].gid, u64::MAX);
    assert_eq!(msgs[0].time_ms, u64::MAX);
    assert_eq!(msgs[0].path.len(), 0);
    let ext: Vec<u16> = "abcdefghijkl".encode_utf16().collect();
    assert_eq!(msgs[0].extension, ext);
}
