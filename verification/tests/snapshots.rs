use fsmon::metadata::{LookupError, MetadataSnapshot, StatInfo, metadata_snapshot};
use fsmon::time::timestamp_text;

fn stat(size: u64, t: u64, readonly: bool) -> StatInfo {
    StatInfo {
        size,
        created: Ok(t),
        modified: Ok(t + 1),
        accessed: Ok(t + 2),
        readonly,
    }
}

fn fields(md: &MetadataSnapshot) -> Vec<String> {
    vec![
        md.size.clone(),
        md.created.clone(),
        md.modified.clone(),
        md.accessed.clone(),
        md.readonly.clone(),
        md.is_hidden.clone(),
        md.is_temporary.clone(),
        md.is_encrypted.clone(),
    ]
}

/// A path that cannot be stat'ed yields a snapshot, not an error, and
/// every field carries the same sentinel.
#[test]
fn test_missing_file_floods_sentinel() {
    let md = metadata_snapshot(&Err(LookupError::NotFound), &Err(LookupError::NotFound));
    for f in fields(&md) {
        assert_eq!(f, "File Not Found");
    }
    let md = metadata_snapshot(&Err(LookupError::AccessDenied), &Ok(0));
    for f in fields(&md) {
        assert_eq!(f, "Access Denied");
    }
    let md = metadata_snapshot(&Err(LookupError::Other("boom".to_string())), &Ok(0));
    for f in fields(&md) {
        assert_eq!(f, "Error: boom");
    }
}

/// A failed attribute lookup degrades only the three attribute fields.
#[test]
fn test_attribute_failure_keeps_stat_fields() {
    let md = metadata_snapshot(&Ok(stat(1234567, 947638923004, true)), &Err(LookupError::AccessDenied));
    assert_eq!(md.size, "1,234,567 bytes");
    assert_eq!(md.readonly, "true");
    assert_eq!(md.created, "2000-01-12T01:02:03.004Z");
    assert_eq!(md.modified, "2000-01-12T01:02:03.005Z");
    assert_eq!(md.accessed, "2000-01-12T01:02:03.006Z");
    assert_eq!(md.is_hidden, "Access Denied");
    assert_eq!(md.is_temporary, "Access Denied");
    assert_eq!(md.is_encrypted, "Access Denied");
}

/// Attribute bits decide the three boolean attribute fields.
#[test]
fn test_attribute_bits() {
    let md = metadata_snapshot(&Ok(stat(0, 0, false)), &Ok(0x2 | 0x4000));
    assert_eq!(md.is_hidden, "true");
    assert_eq!(md.is_encrypted, "true");
    assert_eq!(md.is_temporary, "false");
    assert_eq!(md.readonly, "false");
    assert_eq!(md.size, "0 bytes");
    let md = metadata_snapshot(&Ok(stat(0, 0, false)), &Ok(0x100));
    assert_eq!(md.is_temporary, "true");
    assert_eq!(md.is_hidden, "false");
}

/// Timestamps render as millisecond-precision UTC ISO-8601 text with a
/// `Z` suffix, clamped at the calendar's end.
#[test]
fn test_timestamp_text() {
    assert_eq!(timestamp_text(0), "1970-01-01T00:00:00.000Z");
    assert_eq!(timestamp_text(947638923004), "2000-01-12T01:02:03.004Z");
    assert_eq!(timestamp_text(253402300799999), "9999-12-31T23:59:59.999Z");
    assert_eq!(timestamp_text(u64::MAX), "9999-12-31T23:59:59.999Z");
}

/// A timestamp the platform could not report degrades to its sentinel
/// while the others keep their values.
#[test]
fn test_partial_time_failure() {
    let si = StatInfo {
        size: 5,
        created: Err(LookupError::AccessDenied),
        modified: Ok(0),
        accessed: Err(LookupError::Other("io".to_string())),
        readonly: false,
    };
    let md = metadata_snapshot(&Ok(si), &Ok(0));
    assert_eq!(md.created, "Access Denied");
    assert_eq!(md.modified, "1970-01-01T00:00:00.000Z");
    assert_eq!(md.accessed, "Error: io");
    assert_eq!(md.size, "5 bytes");
}
