//! Process attribution: resolving the process behind an event to a
//! name and an executable path.
//!
//! The fast path derives both from the per-event executable-path hint
//! the driver provides, with no further lookup.  Only when the hint is
//! empty does the pipeline fall back to the out-of-process process
//! table keyed by pid; that query runs on a dedicated worker outside
//! this crate, which hands the returned rows to [`query_process_info`]
//! for the decision.  Attribution failure never drops an event.

use vstd::prelude::*;
use crate::numfmt::{dec_rep, dec_string};
use crate::path::{file_name_of, file_name};

verus! {

/// One row of the process table, as the query service reports it.
pub struct ProcessRecord {
    /// Process name.
    pub name: String,
    /// Executable path, when the table knows one.
    pub executable_path: Option<String>,
    /// Process id.
    pub process_id: u32,
}

/// The query sent to the process table for one pid.
pub open spec fn process_query_text(pid: u32) -> Seq<char> {
    "SELECT Name, ExecutablePath, ProcessId FROM Win32_Process WHERE ProcessId = "@ + dec_rep(
        pid as nat,
    )
}

/// Renders the process-table query for one pid.
pub fn wmi_process_query(pid: u32) -> (r: String)
    ensures
        r@ == process_query_text(pid),
{
    let mut r = String::from_str(
        "SELECT Name, ExecutablePath, ProcessId FROM Win32_Process WHERE ProcessId = ",
    );
    let digits = dec_string(pid as u64);
    r.append(digits.as_str());
    r
}

/// Decides the attribution from the rows the process table returned
/// for `pid`: the first row's name and path win, a missing path
/// degrades to a fixed note, and an empty answer is an error naming
/// the pid.
pub fn query_process_info(pid: u32, rows: &Vec<ProcessRecord>) -> (r: Result<
    (String, String),
    String,
>)
    ensures
        rows@.len() > 0 ==> (r matches Ok(p) && p.0@ == rows@[0].name@ && p.1@ == (
        match rows@[0].executable_path {
            Some(ep) => ep@,
            None => "Path not available"@,
        })),
        rows@.len() == 0 ==> (r matches Err(m) && m@ == "Process with PID "@ + dec_rep(
            pid as nat,
        ) + " not found."@),
{
    if rows.len() > 0 {
        let row = &rows[0];
        let name = row.name.clone();
        let path = match &row.executable_path {
            Some(ep) => ep.clone(),
            None => String::from_str("Path not available"),
        };
        Ok((name, path))
    } else {
        let mut m = String::from_str("Process with PID ");
        let digits = dec_string(pid as u64);
        m.append(digits.as_str());
        m.append(" not found.");
        Err(m)
    }
}

/// Resolves a process to `(name, executable path)`.
///
/// A non-empty hint decides alone: the path is the hint and the name
/// is its final component, `"Unknown"` when the hint has none.  An
/// empty hint defers to the fallback answer of the process table,
/// whatever it was.
pub fn get_process_name_and_path(exepath: &str, fallback: Result<(String, String), String>) -> (r:
    Result<(String, String), String>)
    ensures
        exepath@.len() > 0 ==> (r matches Ok(p) && p.1@ == exepath@ && p.0@ == (
        if file_name_of(exepath@).len() > 0 {
            file_name_of(exepath@)
        } else {
            "Unknown"@
        })),
        exepath@.len() == 0 ==> r == fallback,
{
    if exepath.unicode_len() > 0 {
        let name = file_name(exepath);
        let name = if name.unicode_len() == 0 {
            String::from_str("Unknown")
        } else {
            name
        };
        Ok((name, exepath.to_owned()))
    } else {
        fallback
    }
}

} // verus!
