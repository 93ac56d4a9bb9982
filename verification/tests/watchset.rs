use fsmon::monitor::{FileMonitor, find_watcher, find_watcher_for_pair};

fn dirs(list: &[&str]) -> Vec<String> {
    list.iter().map(|d| d.to_string()).collect()
}

/// Starting twice is rejected; the first session stays.
#[test]
fn test_double_start_rejected() {
    let mut m = FileMonitor::new();
    assert!(m.start_monitoring(dirs(&["C:\\watched"])).is_ok());
    let second = m.start_monitoring(dirs(&["C:\\other"]));
    assert_eq!(second.unwrap_err(), "Monitoring is already active");
    assert_eq!(m.get_watched_directories().unwrap(), dirs(&["C:\\watched"]));
}

/// Adding a directory twice keeps it exactly once and both calls
/// succeed.
#[test]
fn test_add_directory_idempotent() {
    let mut m = FileMonitor::new();
    m.start_monitoring(dirs(&["C:\\watched"])).unwrap();
    assert!(m.add_directory("D:\\data".to_string()).is_ok());
    assert!(m.add_directory("D:\\data".to_string()).is_ok());
    let watched = m.get_watched_directories().unwrap();
    assert_eq!(watched, dirs(&["C:\\watched", "D:\\data"]));
    assert_eq!(watched.iter().filter(|d| d.as_str() == "D:\\data").count(), 1);
}

/// Every mutator before a start is an error, never a panic.
#[test]
fn test_mutators_before_start_fail() {
    let mut m = FileMonitor::new();
    assert_eq!(
        m.remove_directory("C:\\watched".to_string()).unwrap_err(),
        "Monitoring has not been started"
    );
    assert_eq!(
        m.add_directory("C:\\watched".to_string()).unwrap_err(),
        "Monitoring has not been started"
    );
    assert_eq!(
        m.update_monitoring_directories(dirs(&["C:\\x"])).unwrap_err(),
        "Monitoring has not been started"
    );
    assert_eq!(
        m.get_watched_directories().unwrap_err(),
        "Monitoring has not been started"
    );
}

/// Removing a watched directory takes it out; removing an absent one
/// is an error.
#[test]
fn test_remove_directory() {
    let mut m = FileMonitor::new();
    m.start_monitoring(dirs(&["C:\\a", "C:\\b"])).unwrap();
    assert!(m.remove_directory("C:\\a".to_string()).is_ok());
    assert_eq!(m.get_watched_directories().unwrap(), dirs(&["C:\\b"]));
    assert_eq!(
        m.remove_directory("C:\\a".to_string()).unwrap_err(),
        "Directory is not being monitored"
    );
}

/// Replacing the watch-set swaps the whole list.
#[test]
fn test_update_monitoring_directories() {
    let mut m = FileMonitor::new();
    m.start_monitoring(dirs(&["C:\\a"])).unwrap();
    m.update_monitoring_directories(dirs(&["D:\\x", "D:\\y"])).unwrap();
    assert_eq!(m.get_watched_directories().unwrap(), dirs(&["D:\\x", "D:\\y"]));
}

/// Stopping clears the session; mutators fail again afterwards.
#[test]
fn test_stop_monitoring_clears_session() {
    let mut m = FileMonitor::new();
    m.start_monitoring(dirs(&["C:\\a"])).unwrap();
    m.stop_monitoring();
    assert!(m.get_watched_directories().is_err());
    assert!(m.start_monitoring(dirs(&["C:\\b"])).is_ok());
}

/// A directory owns a path by whole components, not by raw text.
#[test]
fn test_find_watcher_component_matching() {
    let d = dirs(&["C:\\watched", "C:\\other"]);
    assert_eq!(find_watcher(&d, "C:\\watched\\a.txt"), Some(0));
    assert_eq!(find_watcher(&d, "C:\\other\\deep\\b.txt"), Some(1));
    assert_eq!(find_watcher(&d, "C:\\watchedextra\\a.txt"), None);
    assert_eq!(find_watcher(&d, "C:\\watched"), Some(0));
    assert_eq!(find_watcher(&d, "D:\\elsewhere\\a.txt"), None);
}

/// For a pair the source path's root wins; the destination's root is
/// the fallback.
#[test]
fn test_find_watcher_for_pair_prefers_source() {
    let d = dirs(&["C:\\two", "C:\\one"]);
    assert_eq!(
        find_watcher_for_pair(&d, "C:\\one\\a.txt", "C:\\two\\a.txt"),
        Some(1)
    );
    assert_eq!(
        find_watcher_for_pair(&d, "D:\\none\\a.txt", "C:\\two\\a.txt"),
        Some(0)
    );
    assert_eq!(
        find_watcher_for_pair(&d, "D:\\none\\a.txt", "D:\\none\\b.txt"),
        None
    );
}
