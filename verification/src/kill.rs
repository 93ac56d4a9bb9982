//! Responses of the kill-process command.
//!
//! The process table itself lives outside this crate; these functions
//! decide the response the command returns, for the two ways a target
//! can be addressed: directly by its process id, or — when the id is
//! stale or mismatched — by searching the table for its name.

use vstd::prelude::*;

verus! {

/// Outcome of a kill-process command.
pub struct KillProcessResponse {
    /// Whether the process was terminated.
    pub success: bool,
    /// Human-readable account of the outcome.
    pub message: String,
}

/// Request to terminate a process.
pub struct ProcessInfo {
    /// Process id the caller believes the target has.
    pub pid: u32,
    /// Process name the caller believes the target has.
    pub name: String,
}

/// Response when the target was addressed by its process id and the
/// kill was attempted.
pub fn direct_kill_response(kill_succeeded: bool) -> (r: KillProcessResponse)
    ensures
        r.success == kill_succeeded,
        kill_succeeded ==> r.message@ == "Success!"@,
        !kill_succeeded ==> r.message@ == "Failed (Insufficient permissions)"@,
{
    if kill_succeeded {
        KillProcessResponse { success: true, message: String::from_str("Success!") }
    } else {
        KillProcessResponse {
            success: false,
            message: String::from_str("Failed (Insufficient permissions)"),
        }
    }
}

/// Response when the target was searched by name: exactly one match
/// may be killed; none or several matches fail with an account naming
/// the situation.
pub fn kill_by_name_response(match_count: usize, kill_succeeded: bool, name: &str) -> (r:
    KillProcessResponse)
    ensures
        r.success <==> (match_count == 1 && kill_succeeded),
        match_count == 0 ==> r.message@ == "Failed (Process not found)"@,
        match_count == 1 && kill_succeeded ==> r.message@ == "Success! (PID Changed)"@,
        match_count == 1 && !kill_succeeded ==> r.message@
            == "Failed (Insufficient permissions)"@,
        match_count > 1 ==> r.message@ == "Failed (PID Changed, multiple "@ + name@
            + "s found)"@,
{
    if match_count == 0 {
        KillProcessResponse {
            success: false,
            message: String::from_str("Failed (Process not found)"),
        }
    } else if match_count == 1 {
        if kill_succeeded {
            KillProcessResponse { success: true, message: String::from_str(
                "Success! (PID Changed)",
            ) }
        } else {
            KillProcessResponse {
                success: false,
                message: String::from_str("Failed (Insufficient permissions)"),
            }
        }
    } else {
        let mut m = String::from_str("Failed (PID Changed, multiple ");
        m.append(name);
        m.append("s found)");
        KillProcessResponse { success: false, message: m }
    }
}

} // verus!
