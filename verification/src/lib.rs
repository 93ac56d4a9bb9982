//! Verified core of a driver-fed file-system activity monitor.
//!
//! A kernel minifilter driver reports file-system operations as densely
//! packed binary records.  This library decodes those records, normalizes
//! them into canonical events (resolving raw rename notifications into
//! directional from/to pairs), assembles per-file metadata snapshots,
//! attributes events to processes, filters them against a watch-set of
//! root directories, deduplicates repeats inside a sliding time window,
//! and renders the surviving events as JSON text ready for publication.
//!
//! All I/O (the driver handle, stat calls, process-table queries, thread
//! plumbing) lives outside this crate; every function here computes from
//! plain values and carries a contract.

pub mod attribution;
pub mod dedup;
pub mod driverctl;
pub mod json;
pub mod kill;
pub mod metadata;
pub mod monitor;
pub mod normalize;
pub mod numfmt;
pub mod path;
pub mod ops;
pub mod pipeline;
pub mod registry;
pub mod regvalue;
pub mod strutil;
pub mod time;
pub mod utf16;
pub mod wire;
