use fsmon::numfmt::{dec_string, format_file_size, format_file_size_i64};

/// Byte counts render with thousands-comma grouping.
#[test]
fn test_format_file_size() {
    assert_eq!(format_file_size(0), "0 bytes");
    assert_eq!(format_file_size(1), "1 bytes");
    assert_eq!(format_file_size(999), "999 bytes");
    assert_eq!(format_file_size(1000), "1,000 bytes");
    assert_eq!(format_file_size(1234567), "1,234,567 bytes");
}

#[test]
fn test_format_file_size_large() {
    assert_eq!(format_file_size(u64::MAX), "18,446,744,073,709,551,615 bytes");
    assert_eq!(format_file_size(100), "100 bytes");
    assert_eq!(format_file_size(10000), "10,000 bytes");
    assert_eq!(format_file_size(100000), "100,000 bytes");
    assert_eq!(format_file_size(1000000), "1,000,000 bytes");
}

#[test]
fn test_format_file_size_i64_signs() {
    assert_eq!(format_file_size_i64(1234567), "1,234,567 bytes");
    assert_eq!(format_file_size_i64(0), "0 bytes");
    assert_eq!(format_file_size_i64(-1), "Unknown size");
    assert_eq!(format_file_size_i64(i64::MIN), "Unknown size");
}

#[test]
fn test_dec_string() {
    assert_eq!(dec_string(0), "0");
    assert_eq!(dec_string(7), "7");
    assert_eq!(dec_string(4242), "4242");
    assert_eq!(dec_string(u64::MAX), "18446744073709551615");
}
