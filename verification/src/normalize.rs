//! The event normalizer: from raw driver messages to canonical events.
//!
//! Most operation codes map one driver message to one event.  The
//! rename-class code instead carries two paths joined by a pipe
//! delimiter; it is resolved into a directional pair: a `from` event
//! for the first path and a `to` event for the second, renames when the
//! two paths share a parent directory, moves otherwise.  Both events of
//! a pair carry the file size of the original message, and the `to`
//! event's timestamp is nudged one millisecond forward so that ordering
//! by timestamp keeps `from` strictly ahead of `to`.  A rename-class
//! message without a delimiter is a protocol violation and is reported
//! as malformed, never split.  Recognized chatter (see
//! [`crate::ops::is_noise`]) is suppressed before any of this.

use vstd::prelude::*;
use crate::ops::{OperationKind, kind_of_code, is_noise, is_noise_record, RENAME_CLASS_CODE};
use crate::path::{first_index_of, parent_of, find_char, parent_dir};
use crate::utf16::{utf16_decode, until_nul, utf16_to_string, wchar_array_to_string};
use crate::wire::{DriverMessage, DriverMessageModel};

verus! {

/// One canonical event, ready for enrichment and publication.
pub struct NormalizedEvent {
    /// Absolute path the event is about.
    pub path: String,
    /// Semantic operation kind.
    pub kind: OperationKind,
    /// Id of the process that performed the operation.
    pub pid: u32,
    /// Timestamp in milliseconds since the epoch.
    pub time_ms: u64,
    /// File size as the driver reported it; negative when unknown.
    pub file_size: i64,
    /// Raw bits of the driver's entropy estimate.
    pub entropy_bits: u64,
    /// Extension text of the file.
    pub extension: String,
    /// Monotonic group id.
    pub gid: u64,
    /// I/O request packet code the message arrived on.
    pub irp_op: u8,
}

/// Mathematical image of a normalized event.
pub struct NormalizedEventModel {
    pub path: Seq<char>,
    pub kind: OperationKind,
    pub pid: u32,
    pub time_ms: u64,
    pub file_size: i64,
    pub entropy_bits: u64,
    pub extension: Seq<char>,
    pub gid: u64,
    pub irp_op: u8,
}

impl View for NormalizedEvent {
    type V = NormalizedEventModel;

    open spec fn view(&self) -> NormalizedEventModel {
        NormalizedEventModel {
            path: self.path@,
            kind: self.kind,
            pid: self.pid,
            time_ms: self.time_ms,
            file_size: self.file_size,
            entropy_bits: self.entropy_bits,
            extension: self.extension@,
            gid: self.gid,
            irp_op: self.irp_op,
        }
    }
}

/// What became of one driver message.
pub enum NormalizeOutcome {
    /// Recognized chatter; nothing reaches consumers.
    Suppressed,
    /// A rename-class message without a delimiter: a protocol
    /// violation, dropped without crashing the pipeline.
    Malformed,
    /// One event.
    Single(NormalizedEvent),
    /// A directional pair; the `from` event comes first.
    Pair(NormalizedEvent, NormalizedEvent),
}

/// The path text of a driver message.
pub open spec fn message_path_text(m: DriverMessageModel) -> Seq<char> {
    utf16_decode(m.path)
}

/// The extension text of a driver message.
pub open spec fn message_extension_text(m: DriverMessageModel) -> Seq<char> {
    utf16_decode(until_nul(m.extension))
}

/// Holds when an event carries the per-message fields of `m`
/// unchanged: process id, file size, entropy, group id and packet code,
/// and the message's extension text.
pub open spec fn carries_message_fields(e: NormalizedEventModel, m: DriverMessageModel) -> bool {
    &&& e.pid == m.pid
    &&& e.file_size == m.file_size
    &&& e.entropy_bits == m.entropy_bits
    &&& e.gid == m.gid
    &&& e.irp_op == m.irp_op
    &&& e.extension == message_extension_text(m)
}

/// Timestamp of the `to` event of a pair: one millisecond behind the
/// message's own, saturating at the largest representable instant.
pub open spec fn nudged_time(t: u64) -> u64 {
    if t == u64::MAX {
        t
    } else {
        (t + 1) as u64
    }
}

/// Normalizes one driver message.
///
/// The contract carries the pipeline's normalization guarantees:
/// chatter is suppressed; a rename-class message with a delimiter
/// yields exactly two events whose kinds are decided by the parents of
/// the two paths, whose sizes both equal the message's size, and whose
/// timestamps differ by exactly one millisecond with `from` first; a
/// rename-class message without a delimiter is malformed; every other
/// message yields exactly one event under the code's kind.
pub fn normalize(msg: &DriverMessage) -> (r: NormalizeOutcome)
    ensures
        ({
            let m = msg@;
            let ptext = message_path_text(m);
            &&& (r is Suppressed <==> is_noise(m.file_change, m.irp_op))
            &&& !is_noise(m.file_change, m.irp_op) && m.file_change == RENAME_CLASS_CODE
                ==> match first_index_of(ptext, '|') {
                Some(i) => (r matches NormalizeOutcome::Pair(f, t) && {
                    let first = ptext.take(i);
                    let second = ptext.skip(i + 1);
                    let same = parent_of(first) == parent_of(second);
                    &&& f@.path == first
                    &&& t@.path == second
                    &&& f@.kind == (if same {
                        OperationKind::RenamedFrom
                    } else {
                        OperationKind::MovedFrom
                    })
                    &&& t@.kind == (if same {
                        OperationKind::RenamedTo
                    } else {
                        OperationKind::MovedTo
                    })
                    &&& f@.time_ms == m.time_ms
                    &&& t@.time_ms == nudged_time(m.time_ms)
                    &&& f@.time_ms <= t@.time_ms
                    &&& m.time_ms < u64::MAX ==> t@.time_ms - f@.time_ms == 1
                    &&& carries_message_fields(f@, m)
                    &&& carries_message_fields(t@, m)
                }),
                None => r is Malformed,
            }
            &&& !is_noise(m.file_change, m.irp_op) && m.file_change != RENAME_CLASS_CODE
                ==> (r matches NormalizeOutcome::Single(e) && e@.path == ptext && e@.kind
                == kind_of_code(m.file_change) && e@.time_ms == m.time_ms
                && carries_message_fields(e@, m))
        }),
{
    if is_noise_record(msg.file_change, msg.irp_op) {
        return NormalizeOutcome::Suppressed;
    }
    let path_text = utf16_to_string(msg.path.as_slice());
    let extension = wchar_array_to_string(msg.extension.as_slice());
    if msg.file_change == RENAME_CLASS_CODE {
        match find_char(path_text.as_str(), '|') {
            Some(i) => {
                let n: usize = path_text.as_str().unicode_len();
                proof {
                    lemma_first_index_in_range(path_text@, '|');
                }
                let first = path_text.as_str().substring_char(0, i).to_owned();
                let second = path_text.as_str().substring_char(i + 1, n).to_owned();
                proof {
                    assert(first@ =~= message_path_text(msg@).take(i as int));
                    assert(second@ =~= message_path_text(msg@).skip(i + 1));
                }
                let first_parent = parent_dir(first.as_str());
                let second_parent = parent_dir(second.as_str());
                let same = first_parent == second_parent;
                let (from_kind, to_kind) = if same {
                    (OperationKind::RenamedFrom, OperationKind::RenamedTo)
                } else {
                    (OperationKind::MovedFrom, OperationKind::MovedTo)
                };
                let to_time = if msg.time_ms == u64::MAX {
                    msg.time_ms
                } else {
                    msg.time_ms + 1
                };
                let from_event = NormalizedEvent {
                    path: first,
                    kind: from_kind,
                    pid: msg.pid,
                    time_ms: msg.time_ms,
                    file_size: msg.file_size,
                    entropy_bits: msg.entropy_bits,
                    extension: extension.clone(),
                    gid: msg.gid,
                    irp_op: msg.irp_op,
                };
                let to_event = NormalizedEvent {
                    path: second,
                    kind: to_kind,
                    pid: msg.pid,
                    time_ms: to_time,
                    file_size: msg.file_size,
                    entropy_bits: msg.entropy_bits,
                    extension,
                    gid: msg.gid,
                    irp_op: msg.irp_op,
                };
                NormalizeOutcome::Pair(from_event, to_event)
            },
            None => NormalizeOutcome::Malformed,
        }
    } else {
        NormalizeOutcome::Single(
            NormalizedEvent {
                path: path_text,
                kind: OperationKind::from_code(msg.file_change),
                pid: msg.pid,
                time_ms: msg.time_ms,
                file_size: msg.file_size,
                entropy_bits: msg.entropy_bits,
                extension,
                gid: msg.gid,
                irp_op: msg.irp_op,
            },
        )
    }
}

/// A found delimiter index lies inside the text.
pub proof fn lemma_first_index_in_range(s: Seq<char>, c: char)
    ensures
        match first_index_of(s, c) {
            Some(i) => 0 <= i < s.len() && s[i] == c,
            None => true,
        },
    decreases s.len(),
{
    if s.len() > 0 && s[0] != c {
        lemma_first_index_in_range(s.skip(1), c);
    }
}

} // verus!
