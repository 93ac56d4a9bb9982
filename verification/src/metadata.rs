//! The metadata snapshot attached to every published event.
//!
//! Enrichment never fails as a whole.  The operating-system lookups
//! happen outside this crate and hand in plain values: a stat result
//! (size, three timestamps, the read-only flag) and an attribute
//! bitmask, each independently fallible.  When the stat fails, every
//! field of the snapshot carries the same error sentinel.  When only
//! the attribute lookup fails, the three attribute fields degrade to
//! its sentinel while the fields already obtained keep their values.

use vstd::prelude::*;
use crate::numfmt::{dec_rep, grouped, format_file_size};
use crate::time::{timestamp_text_of, timestamp_text};

verus! {

/// Windows attribute bit of a hidden file.
pub const ATTR_HIDDEN: u32 = 0x2;

/// Windows attribute bit of a temporary file.
pub const ATTR_TEMPORARY: u32 = 0x100;

/// Windows attribute bit of an encrypted file.
pub const ATTR_ENCRYPTED: u32 = 0x4000;

/// Why a per-path lookup failed.
#[derive(Clone, Debug)]
pub enum LookupError {
    /// The caller may not read the path.
    AccessDenied,
    /// The path does not exist.
    NotFound,
    /// Any other failure, with the reported reason.
    Other(String),
}

/// Sentinel text of a lookup failure, as it appears in snapshot fields.
pub open spec fn sentinel_text(e: LookupError) -> Seq<char> {
    match e {
        LookupError::AccessDenied => "Access Denied"@,
        LookupError::NotFound => "File Not Found"@,
        LookupError::Other(msg) => "Error: "@ + msg@,
    }
}

impl LookupError {
    /// Renders the sentinel text of this failure.
    pub fn sentinel(&self) -> (r: String)
        ensures
            r@ == sentinel_text(*self),
    {
        match self {
            LookupError::AccessDenied => String::from_str("Access Denied"),
            LookupError::NotFound => String::from_str("File Not Found"),
            LookupError::Other(msg) => {
                let mut r = String::from_str("Error: ");
                r.append(msg.as_str());
                r
            },
        }
    }
}

/// What a successful stat of a path reports.  The three timestamps are
/// independently fallible, as the platform reports them.
pub struct StatInfo {
    /// File size in bytes.
    pub size: u64,
    /// Creation time, milliseconds since the epoch.
    pub created: Result<u64, LookupError>,
    /// Last-modification time, milliseconds since the epoch.
    pub modified: Result<u64, LookupError>,
    /// Last-access time, milliseconds since the epoch.
    pub accessed: Result<u64, LookupError>,
    /// Whether the file is read-only.
    pub readonly: bool,
}

/// The snapshot published with an event: every field is either a value
/// or an error sentinel, never absent.
pub struct MetadataSnapshot {
    pub size: String,
    pub created: String,
    pub modified: String,
    pub accessed: String,
    pub readonly: String,
    pub is_hidden: String,
    pub is_temporary: String,
    pub is_encrypted: String,
}

/// Mathematical image of a snapshot.
pub struct MetadataSnapshotModel {
    pub size: Seq<char>,
    pub created: Seq<char>,
    pub modified: Seq<char>,
    pub accessed: Seq<char>,
    pub readonly: Seq<char>,
    pub is_hidden: Seq<char>,
    pub is_temporary: Seq<char>,
    pub is_encrypted: Seq<char>,
}

impl View for MetadataSnapshot {
    type V = MetadataSnapshotModel;

    open spec fn view(&self) -> MetadataSnapshotModel {
        MetadataSnapshotModel {
            size: self.size@,
            created: self.created@,
            modified: self.modified@,
            accessed: self.accessed@,
            readonly: self.readonly@,
            is_hidden: self.is_hidden@,
            is_temporary: self.is_temporary@,
            is_encrypted: self.is_encrypted@,
        }
    }
}

/// Text of a boolean snapshot field.
pub open spec fn bool_text(b: bool) -> Seq<char> {
    if b {
        "true"@
    } else {
        "false"@
    }
}

/// Renders a boolean snapshot field.
pub fn bool_string(b: bool) -> (r: String)
    ensures
        r@ == bool_text(b),
{
    if b {
        String::from_str("true")
    } else {
        String::from_str("false")
    }
}

/// Text of a fallible timestamp field.
pub open spec fn time_field_text(t: Result<u64, LookupError>) -> Seq<char> {
    match t {
        Ok(ms) => timestamp_text_of(ms),
        Err(e) => sentinel_text(e),
    }
}

/// Renders a fallible timestamp field.
fn time_field(t: &Result<u64, LookupError>) -> (r: String)
    ensures
        r@ == time_field_text(*t),
{
    match t {
        Ok(ms) => timestamp_text(*ms),
        Err(e) => e.sentinel(),
    }
}

/// The snapshot of a path, assembled from the two independent lookups.
///
/// A failed stat floods every field with its sentinel; the attribute
/// lookup is not even consulted then.  A failed attribute lookup
/// degrades only the three attribute fields and keeps the stat fields.
pub fn metadata_snapshot(
    stat: &Result<StatInfo, LookupError>,
    attrs: &Result<u32, LookupError>,
) -> (r: MetadataSnapshot)
    ensures
        stat matches Err(e) ==> {
            let s = sentinel_text(*e);
            &&& r@.size == s
            &&& r@.created == s
            &&& r@.modified == s
            &&& r@.accessed == s
            &&& r@.readonly == s
            &&& r@.is_hidden == s
            &&& r@.is_temporary == s
            &&& r@.is_encrypted == s
        },
        stat matches Ok(si) ==> {
            &&& r@.size == grouped(dec_rep(si.size as nat)) + " bytes"@
            &&& r@.created == time_field_text(si.created)
            &&& r@.modified == time_field_text(si.modified)
            &&& r@.accessed == time_field_text(si.accessed)
            &&& r@.readonly == bool_text(si.readonly)
            &&& attrs matches Ok(a) ==> r@.is_hidden == bool_text(a & ATTR_HIDDEN != 0)
                && r@.is_temporary == bool_text(a & ATTR_TEMPORARY != 0) && r@.is_encrypted
                == bool_text(a & ATTR_ENCRYPTED != 0)
            &&& attrs matches Err(ae) ==> r@.is_hidden == sentinel_text(*ae) && r@.is_temporary
                == sentinel_text(*ae) && r@.is_encrypted == sentinel_text(*ae)
        },
{
    match stat {
        Err(e) => {
            let s = e.sentinel();
            MetadataSnapshot {
                size: s.clone(),
                created: s.clone(),
                modified: s.clone(),
                accessed: s.clone(),
                readonly: s.clone(),
                is_hidden: s.clone(),
                is_temporary: s.clone(),
                is_encrypted: s,
            }
        },
        Ok(si) => {
            let (is_hidden, is_temporary, is_encrypted) = match attrs {
                Ok(a) => (
                    bool_string(*a & ATTR_HIDDEN != 0),
                    bool_string(*a & ATTR_TEMPORARY != 0),
                    bool_string(*a & ATTR_ENCRYPTED != 0),
                ),
                Err(ae) => (ae.sentinel(), ae.sentinel(), ae.sentinel()),
            };
            MetadataSnapshot {
                size: format_file_size(si.size),
                created: time_field(&si.created),
                modified: time_field(&si.modified),
                accessed: time_field(&si.accessed),
                readonly: bool_string(si.readonly),
                is_hidden,
                is_temporary,
                is_encrypted,
            }
        },
    }
}

} // verus!
