//! The consumer step of the pipeline: from a normalization outcome to
//! the JSON texts to publish.
//!
//! The step filters by the watch-set (a rename or move pair prefers
//! the root owning its source path), drops events attributed to the
//! OS indexing process as noise, and renders each surviving event.
//! Both events of a pair share one watch root and one metadata
//! snapshot, taken on the destination path.  Deduplication is a
//! separate stage ([`crate::dedup::DedupWindow`]); the driver-fed
//! pipeline may publish this step's output directly.

use vstd::prelude::*;
use crate::json::{event_json, render_event_json};
use crate::metadata::MetadataSnapshot;
use crate::monitor::{find_watcher, find_watcher_for_pair, first_owner, pair_owner};
use crate::normalize::NormalizeOutcome;
use crate::strutil::str_eq;

verus! {

/// Holds for the process name whose events are dropped as indexing
/// noise.
pub open spec fn is_blacklisted_process(pname: Seq<char>) -> bool {
    pname == "SearchProtocolHost.exe"@
}

/// Decides whether a process name is the blacklisted indexing process.
pub fn blacklisted_process(pname: &str) -> (r: bool)
    ensures
        r == is_blacklisted_process(pname@),
{
    str_eq(pname, "SearchProtocolHost.exe")
}

/// The JSON texts to publish for one normalization outcome.
///
/// Nothing is published for suppressed or malformed messages, for
/// events attributed to the blacklisted indexing process, or for
/// events no watch root owns.  A single event publishes under the
/// first root owning its path; a pair publishes both events, in
/// from-to order, under the pair's root.
pub fn emit_for_outcome(
    outcome: &NormalizeOutcome,
    dirs: &Vec<String>,
    md: &MetadataSnapshot,
    process_name: &str,
    process_path: &str,
    entropy_text: &str,
) -> (r: Vec<String>)
    ensures
        outcome is Suppressed ==> r@.len() == 0,
        outcome is Malformed ==> r@.len() == 0,
        is_blacklisted_process(process_name@) ==> r@.len() == 0,
        !is_blacklisted_process(process_name@) ==> (outcome matches NormalizeOutcome::Single(e)
            ==> match first_owner(dirs.deep_view(), e@.path) {
            Some(i) => r.deep_view() == seq![
                event_json(
                    e@,
                    md@,
                    dirs.deep_view()[i],
                    process_name@,
                    process_path@,
                    entropy_text@,
                ),
            ],
            None => r@.len() == 0,
        }),
        !is_blacklisted_process(process_name@) ==> (outcome matches NormalizeOutcome::Pair(f, t)
            ==> match pair_owner(dirs.deep_view(), f@.path, t@.path) {
            Some(i) => r.deep_view() == seq![
                event_json(
                    f@,
                    md@,
                    dirs.deep_view()[i],
                    process_name@,
                    process_path@,
                    entropy_text@,
                ),
                event_json(
                    t@,
                    md@,
                    dirs.deep_view()[i],
                    process_name@,
                    process_path@,
                    entropy_text@,
                ),
            ],
            None => r@.len() == 0,
        }),
{
    let mut r: Vec<String> = Vec::new();
    if blacklisted_process(process_name) {
        return r;
    }
    match outcome {
        NormalizeOutcome::Suppressed => r,
        NormalizeOutcome::Malformed => r,
        NormalizeOutcome::Single(e) => {
            match find_watcher(dirs, e.path.as_str()) {
                Some(i) => {
                    let line = render_event_json(
                        e,
                        md,
                        dirs[i].as_str(),
                        process_name,
                        process_path,
                        entropy_text,
                    );
                    proof {
                        assert(dirs@[i as int]@ == dirs.deep_view()[i as int]);
                    }
                    r.push(line);
                    proof {
                        assert(r.deep_view() =~= seq![line@]);
                    }
                    r
                },
                None => r,
            }
        },
        NormalizeOutcome::Pair(f, t) => {
            match find_watcher_for_pair(dirs, f.path.as_str(), t.path.as_str()) {
                Some(i) => {
                    proof {
                        assert(dirs@[i as int]@ == dirs.deep_view()[i as int]);
                    }
                    let from_line = render_event_json(
                        f,
                        md,
                        dirs[i].as_str(),
                        process_name,
                        process_path,
                        entropy_text,
                    );
                    let to_line = render_event_json(
                        t,
                        md,
                        dirs[i].as_str(),
                        process_name,
                        process_path,
                        entropy_text,
                    );
                    r.push(from_line);
                    r.push(to_line);
                    proof {
                        assert(r.deep_view() =~= seq![from_line@, to_line@]);
                    }
                    r
                },
                None => r,
            }
        },
    }
}

} // verus!
