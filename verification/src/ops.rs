//! Operation codes of the driver wire protocol and the canonical
//! operation kinds of the published event stream.
//!
//! The driver reports two small integers with every record: a
//! `file_change` code describing what happened to the file and an
//! `irp_op` code naming the I/O request packet that carried the
//! notification.  `file_change_to_string` and `irp_op_to_string` give the
//! driver-side mnemonics of those raw codes.  The event stream instead
//! speaks of [`OperationKind`], a closed set of semantic kinds; the
//! ambiguous rename-class code is never turned into a kind directly, the
//! normalizer always resolves it into a directional from/to pair first.

use vstd::prelude::*;

verus! {

/// Raw `file_change` code that asks the normalizer to split the record
/// into a directional from/to pair.
pub const RENAME_CLASS_CODE: u8 = 4;

/// Semantic kind of a normalized event: the closed set exposed to
/// consumers.  No variant stands for the ambiguous rename-class wire
/// code; the normalizer resolves that code before a kind is assigned.
#[derive(Clone, Copy, Debug, PartialEq, Eq, Structural)]
pub enum OperationKind {
    Unchanged,
    Opened,
    Write,
    Created,
    RenamedTo,
    RenamedFrom,
    ExtensionChanged,
    Deleted,
    DeleteNewFile,
    Overwrite,
    MovedTo,
    MovedFrom,
    Unknown,
}

/// Kind assigned to a non-rename-class `file_change` code.  The
/// rename-class code itself and every code outside the table map to
/// `Unknown`; the normalizer never consults this table for the
/// rename-class code.
pub open spec fn kind_of_code(code: u8) -> OperationKind {
    if code == 0 {
        OperationKind::Unchanged
    } else if code == 1 {
        OperationKind::Opened
    } else if code == 2 {
        OperationKind::Write
    } else if code == 3 {
        OperationKind::Created
    } else if code == 5 {
        OperationKind::RenamedTo
    } else if code == 6 {
        OperationKind::RenamedFrom
    } else if code == 7 {
        OperationKind::ExtensionChanged
    } else if code == 8 {
        OperationKind::Deleted
    } else if code == 9 {
        OperationKind::DeleteNewFile
    } else if code == 10 {
        OperationKind::Overwrite
    } else if code == 12 {
        OperationKind::MovedTo
    } else if code == 13 {
        OperationKind::MovedFrom
    } else {
        OperationKind::Unknown
    }
}

/// Name of an operation kind as it appears in the `event_type` field of
/// a published event.
pub open spec fn label_of(kind: OperationKind) -> Seq<char> {
    match kind {
        OperationKind::Unchanged => "Unchanged"@,
        OperationKind::Opened => "Opened"@,
        OperationKind::Write => "Write"@,
        OperationKind::Created => "Created"@,
        OperationKind::RenamedTo => "Renamed To"@,
        OperationKind::RenamedFrom => "Renamed From"@,
        OperationKind::ExtensionChanged => "Extension Changed"@,
        OperationKind::Deleted => "Deleted"@,
        OperationKind::DeleteNewFile => "DeleteNewFile"@,
        OperationKind::Overwrite => "Overwrite"@,
        OperationKind::MovedTo => "Moved To"@,
        OperationKind::MovedFrom => "Moved From"@,
        OperationKind::Unknown => "Unknown"@,
    }
}

impl OperationKind {
    /// Resolves a non-rename-class wire code to its kind.
    pub fn from_code(code: u8) -> (r: OperationKind)
        ensures
            r == kind_of_code(code),
    {
        match code {
            0 => OperationKind::Unchanged,
            1 => OperationKind::Opened,
            2 => OperationKind::Write,
            3 => OperationKind::Created,
            5 => OperationKind::RenamedTo,
            6 => OperationKind::RenamedFrom,
            7 => OperationKind::ExtensionChanged,
            8 => OperationKind::Deleted,
            9 => OperationKind::DeleteNewFile,
            10 => OperationKind::Overwrite,
            12 => OperationKind::MovedTo,
            13 => OperationKind::MovedFrom,
            _ => OperationKind::Unknown,
        }
    }

    /// Name of this kind in the `event_type` field of a published event.
    pub fn label(&self) -> (r: &'static str)
        ensures
            r@ == label_of(*self),
    {
        match self {
            OperationKind::Unchanged => "Unchanged",
            OperationKind::Opened => "Opened",
            OperationKind::Write => "Write",
            OperationKind::Created => "Created",
            OperationKind::RenamedTo => "Renamed To",
            OperationKind::RenamedFrom => "Renamed From",
            OperationKind::ExtensionChanged => "Extension Changed",
            OperationKind::Deleted => "Deleted",
            OperationKind::DeleteNewFile => "DeleteNewFile",
            OperationKind::Overwrite => "Overwrite",
            OperationKind::MovedTo => "Moved To",
            OperationKind::MovedFrom => "Moved From",
            OperationKind::Unknown => "Unknown",
        }
    }
}

/// Driver-side mnemonic of a raw `file_change` code, as the driver's own
/// headers name the codes.
pub fn file_change_to_string(file_change: u8) -> (r: &'static str)
    ensures
        file_change == 0 ==> r@ == "NotSet"@,
        file_change == 1 ==> r@ == "OpenDirectory"@,
        file_change == 2 ==> r@ == "Write"@,
        file_change == 3 ==> r@ == "NewFile"@,
        file_change == 4 ==> r@ == "RenameFile"@,
        file_change == 5 ==> r@ == "ExtensionChanged"@,
        file_change == 6 ==> r@ == "DeleteFile"@,
        file_change == 7 ==> r@ == "DeleteNewFile"@,
        file_change == 8 ==> r@ == "OverwriteFile"@,
        file_change > 8 ==> r@ == "Unknown"@,
{
    match file_change {
        0 => "NotSet",
        1 => "OpenDirectory",
        2 => "Write",
        3 => "NewFile",
        4 => "RenameFile",
        5 => "ExtensionChanged",
        6 => "DeleteFile",
        7 => "DeleteNewFile",
        8 => "OverwriteFile",
        _ => "Unknown",
    }
}

/// Mnemonic of the I/O request packet code a record arrived on.
pub open spec fn irp_label_of(irp_op: u8) -> Seq<char> {
    if irp_op == 0 {
        "NONE"@
    } else if irp_op == 1 {
        "READ"@
    } else if irp_op == 2 {
        "WRITE"@
    } else if irp_op == 3 {
        "SETINFO"@
    } else if irp_op == 4 {
        "CREATE"@
    } else if irp_op == 5 {
        "CLEANUP"@
    } else {
        "UNKNOWN"@
    }
}

/// Renders the mnemonic of the I/O request packet code a record
/// arrived on.
pub fn irp_op_to_string(irp_op: u8) -> (r: &'static str)
    ensures
        r@ == irp_label_of(irp_op),
{
    match irp_op {
        0 => "NONE",
        1 => "READ",
        2 => "WRITE",
        3 => "SETINFO",
        4 => "CREATE",
        5 => "CLEANUP",
        _ => "UNKNOWN",
    }
}

/// Holds when a record is pure file-system chatter with no observable
/// effect: a no-change or open-only notification on a create packet, or
/// a no-change notification on a set-information packet.  Such records
/// are suppressed before normalization.
pub open spec fn is_noise(file_change: u8, irp_op: u8) -> bool {
    ||| (file_change == 1 && irp_op == 4)
    ||| (file_change == 0 && irp_op == 4)
    ||| (file_change == 0 && irp_op == 3)
}

/// Decides whether a record is noise to be suppressed.
pub fn is_noise_record(file_change: u8, irp_op: u8) -> (r: bool)
    ensures
        r == is_noise(file_change, irp_op),
{
    (file_change == 1 && irp_op == 4) || (file_change == 0 && irp_op == 4)
        || (file_change == 0 && irp_op == 3)
}

} // verus!
