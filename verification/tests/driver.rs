use fsmon::driverctl::{
    driver_listed, load_driver_outcome, prepare_registry_editor_path, regedit_last_key_script,
    sanitize_registry_path, unload_driver_outcome,
};

/// The editor-pointing command quotes the key path with doubled
/// quotes.
#[test]
fn test_regedit_last_key_script() {
    assert_eq!(
        regedit_last_key_script("HKLM\\SOFTWARE"),
        "Set-ItemProperty -Path 'HKCU:\\Software\\Microsoft\\Windows\\CurrentVersion\\Applets\\Regedit' -Name 'LastKey' -Value 'HKLM\\SOFTWARE'"
    );
    assert_eq!(
        regedit_last_key_script("a'b"),
        "Set-ItemProperty -Path 'HKCU:\\Software\\Microsoft\\Windows\\CurrentVersion\\Applets\\Regedit' -Name 'LastKey' -Value 'a''b'"
    );
}

/// The filter listing decides whether the driver is loaded, case
/// insensitively.
#[test]
fn test_driver_listed() {
    assert!(driver_listed("Filter Name\n------\nsnFilter    389800"));
    assert!(driver_listed("SNFILTER"));
    assert!(!driver_listed("Filter Name\n------\nluafv    135000"));
    assert!(!driver_listed(""));
}

/// A load attempt succeeds, is tolerated when already loaded, or fails
/// with both output streams.
#[test]
fn test_load_driver_outcome() {
    assert!(load_driver_outcome(true, "", "").is_ok());
    assert!(load_driver_outcome(false, "snFilter already loaded", "").is_ok());
    assert!(load_driver_outcome(false, "", "already loaded").is_ok());
    assert_eq!(
        load_driver_outcome(false, "out", "err").unwrap_err(),
        "Failed to load driver: out err"
    );
}

/// An unload attempt succeeds or fails with both output streams.
#[test]
fn test_unload_driver_outcome() {
    assert!(unload_driver_outcome(true, "ignored", "ignored").is_ok());
    assert_eq!(
        unload_driver_outcome(false, "out", "err").unwrap_err(),
        "Failed to unload driver: out err"
    );
}

/// Sanitization keeps only the conservative character set.
#[test]
fn test_sanitize_registry_path() {
    assert_eq!(
        sanitize_registry_path("HKCU\\Software'; rm -rf $(evil) \"x\""),
        "HKCU\\Softwarerm-rfevilx"
    );
    assert_eq!(
        sanitize_registry_path("HKLM\\SYSTEM\\Current-Control_Set:1"),
        "HKLM\\SYSTEM\\Current-Control_Set:1"
    );
}

/// A prepared path must name a known registry root after sanitization.
#[test]
fn test_prepare_registry_editor_path() {
    assert_eq!(
        prepare_registry_editor_path("HKEY_LOCAL_MACHINE\\SOFTWARE").unwrap(),
        "HKEY_LOCAL_MACHINE\\SOFTWARE"
    );
    assert_eq!(prepare_registry_editor_path("HKCU\\Run").unwrap(), "HKCU\\Run");
    assert_eq!(
        prepare_registry_editor_path("C:\\not\\registry").unwrap_err(),
        "Invalid registry path: must start with a valid registry root"
    );
    assert_eq!(
        prepare_registry_editor_path("'HKCU'\\Run").unwrap(),
        "HKCU\\Run"
    );
}
