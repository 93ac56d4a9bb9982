use fsmon::attribution::{ProcessRecord, get_process_name_and_path, query_process_info, wmi_process_query};
use fsmon::kill::{direct_kill_response, kill_by_name_response};

/// A non-empty executable-path hint decides the attribution with no
/// further lookup.
#[test]
fn test_attribution_from_hint() {
    let r = get_process_name_and_path(
        "C:\\Windows\\System32\\notepad.exe",
        Err("unused".to_string()),
    )
    .unwrap();
    assert_eq!(r.0, "notepad.exe");
    assert_eq!(r.1, "C:\\Windows\\System32\\notepad.exe");
    let r = get_process_name_and_path("bare", Err("unused".to_string())).unwrap();
    assert_eq!(r.0, "bare");
    assert_eq!(r.1, "bare");
    let r = get_process_name_and_path("C:\\dir\\", Err("unused".to_string())).unwrap();
    assert_eq!(r.0, "Unknown");
    assert_eq!(r.1, "C:\\dir\\");
}

/// An empty hint defers to the process-table fallback, whatever it
/// answered.
#[test]
fn test_attribution_fallback() {
    let ok = get_process_name_and_path("", Ok(("svc.exe".to_string(), "C:\\svc.exe".to_string())));
    assert_eq!(ok.unwrap(), ("svc.exe".to_string(), "C:\\svc.exe".to_string()));
    let err = get_process_name_and_path("", Err("no table".to_string()));
    assert_eq!(err.unwrap_err(), "no table");
}

/// The first row of the table answers; a missing path degrades to a
/// note; an empty answer is an error naming the pid.
#[test]
fn test_query_process_info() {
    let rows = vec![
        ProcessRecord {
            name: "a.exe".to_string(),
            executable_path: Some("C:\\a.exe".to_string()),
            process_id: 5,
        },
        ProcessRecord {
            name: "b.exe".to_string(),
            executable_path: None,
            process_id: 5,
        },
    ];
    assert_eq!(
        query_process_info(5, &rows).unwrap(),
        ("a.exe".to_string(), "C:\\a.exe".to_string())
    );
    let rows = vec![ProcessRecord {
        name: "b.exe".to_string(),
        executable_path: None,
        process_id: 5,
    }];
    assert_eq!(
        query_process_info(5, &rows).unwrap(),
        ("b.exe".to_string(), "Path not available".to_string())
    );
    assert_eq!(
        query_process_info(4321, &Vec::new()).unwrap_err(),
        "Process with PID 4321 not found."
    );
}

/// The query text sent to the process table names the pid.
#[test]
fn test_wmi_process_query_text() {
    assert_eq!(
        wmi_process_query(1234),
        "SELECT Name, ExecutablePath, ProcessId FROM Win32_Process WHERE ProcessId = 1234"
    );
}

/// The kill responses for a target addressed by pid.
#[test]
fn test_direct_kill_response() {
    let r = direct_kill_response(true);
    assert!(r.success);
    assert_eq!(r.message, "Success!");
    let r = direct_kill_response(false);
    assert!(!r.success);
    assert_eq!(r.message, "Failed (Insufficient permissions)");
}

/// The kill responses for a target searched by name.
#[test]
fn test_kill_by_name_response() {
    let r = kill_by_name_response(0, false, "x.exe");
    assert!(!r.success);
    assert_eq!(r.message, "Failed (Process not found)");
    let r = kill_by_name_response(1, true, "x.exe");
    assert!(r.success);
    assert_eq!(r.message, "Success! (PID Changed)");
    let r = kill_by_name_response(1, false, "x.exe");
    assert!(!r.success);
    assert_eq!(r.message, "Failed (Insufficient permissions)");
    let r = kill_by_name_response(3, true, "x.exe");
    assert!(!r.success);
    assert_eq!(r.message, "Failed (PID Changed, multiple x.exes found)");
}
