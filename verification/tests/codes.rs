use fsmon::ops::{OperationKind, file_change_to_string, irp_op_to_string, is_noise_record};

/// The driver-side mnemonics of the raw operation codes.
#[test]
fn test_file_change_to_string() {
    assert_eq!(file_change_to_string(0), "NotSet");
    assert_eq!(file_change_to_string(1), "OpenDirectory");
    assert_eq!(file_change_to_string(2), "Write");
    assert_eq!(file_change_to_string(3), "NewFile");
    assert_eq!(file_change_to_string(4), "RenameFile");
    assert_eq!(file_change_to_string(5), "ExtensionChanged");
    assert_eq!(file_change_to_string(6), "DeleteFile");
    assert_eq!(file_change_to_string(7), "DeleteNewFile");
    assert_eq!(file_change_to_string(8), "OverwriteFile");
    assert_eq!(file_change_to_string(255), "Unknown");
}

#[test]
fn test_irp_op_to_string() {
    assert_eq!(irp_op_to_string(0), "NONE");
    assert_eq!(irp_op_to_string(1), "READ");
    assert_eq!(irp_op_to_string(2), "WRITE");
    assert_eq!(irp_op_to_string(3), "SETINFO");
    assert_eq!(irp_op_to_string(4), "CREATE");
    assert_eq!(irp_op_to_string(5), "CLEANUP");
    assert_eq!(irp_op_to_string(200), "UNKNOWN");
}

#[test]
fn test_operation_kind_labels() {
    assert_eq!(OperationKind::from_code(0).label(), "Unchanged");
    assert_eq!(OperationKind::from_code(1).label(), "Opened");
    assert_eq!(OperationKind::from_code(2).label(), "Write");
    assert_eq!(OperationKind::from_code(3).label(), "Created");
    assert_eq!(OperationKind::from_code(5).label(), "Renamed To");
    assert_eq!(OperationKind::from_code(6).label(), "Renamed From");
    assert_eq!(OperationKind::from_code(7).label(), "Extension Changed");
    assert_eq!(OperationKind::from_code(8).label(), "Deleted");
    assert_eq!(OperationKind::from_code(9).label(), "DeleteNewFile");
    assert_eq!(OperationKind::from_code(10).label(), "Overwrite");
    assert_eq!(OperationKind::from_code(12).label(), "Moved To");
    assert_eq!(OperationKind::from_code(13).label(), "Moved From");
    assert_eq!(OperationKind::from_code(11).label(), "Unknown");
    assert_eq!(OperationKind::from_code(99).label(), "Unknown");
}

#[test]
fn test_noise_codes() {
    assert!(is_noise_record(1, 4));
    assert!(is_noise_record(0, 4));
    assert!(is_noise_record(0, 3));
    assert!(!is_noise_record(2, 2));
    assert!(!is_noise_record(1, 3));
    assert!(!is_noise_record(3, 4));
}
