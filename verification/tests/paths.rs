use fsmon::path::{file_name, find_char, parent_dir, path_starts_with};

/// The parent of a path is the text ahead of its last separator.
#[test]
fn test_parent_dir() {
    assert_eq!(parent_dir("C:\\watched\\a.txt"), "C:\\watched");
    assert_eq!(parent_dir("C:\\watched\\deep\\a.txt"), "C:\\watched\\deep");
    assert_eq!(parent_dir("a.txt"), "");
    assert_eq!(parent_dir("dir/a.txt"), "dir");
}

/// The file name of a path is the text behind its last separator.
#[test]
fn test_file_name() {
    assert_eq!(file_name("C:\\watched\\a.txt"), "a.txt");
    assert_eq!(file_name("a.txt"), "a.txt");
    assert_eq!(file_name("C:\\dir\\"), "");
    assert_eq!(file_name("dir/a.txt"), "a.txt");
}

/// The delimiter search finds the first occurrence only.
#[test]
fn test_find_char() {
    assert_eq!(find_char("a|b|c", '|'), Some(1));
    assert_eq!(find_char("abc", '|'), None);
    assert_eq!(find_char("|", '|'), Some(0));
    assert_eq!(find_char("", '|'), None);
}

/// Ownership is decided by whole path components.
#[test]
fn test_path_starts_with() {
    assert!(path_starts_with("C:\\w\\a.txt", "C:\\w"));
    assert!(path_starts_with("C:\\w", "C:\\w"));
    assert!(!path_starts_with("C:\\wide\\a.txt", "C:\\w"));
    assert!(path_starts_with("C:\\w\\a.txt", "C:\\w\\"));
    assert!(!path_starts_with("C:\\v\\a.txt", "C:\\w"));
}
