//! The driver wire protocol: decoding the packed reply buffer into
//! driver messages.
//!
//! A reply from the driver carries an operation count (`num_ops`) and a
//! byte buffer of consecutive records.  Each record is a fixed 64-byte
//! header followed by the path text as UTF-16 code units:
//!
//! | offset | size | field                               |
//! |--------|------|-------------------------------------|
//! | 0      | 1    | `file_change` operation code        |
//! | 1      | 1    | `irp_op` request packet code        |
//! | 2      | 4    | process id, little endian           |
//! | 6      | 8    | file size, little-endian two's complement |
//! | 14     | 8    | entropy estimate, raw bits          |
//! | 22     | 8    | group id, little endian             |
//! | 30     | 8    | timestamp, milliseconds since epoch |
//! | 38     | 24   | extension, twelve UTF-16 units      |
//! | 62     | 2    | path length in UTF-16 units         |
//! | 64     | 2*n  | path text                           |
//!
//! Decoding never reads past the buffer: it stops after exactly
//! `num_ops` records, or earlier on buffer exhaustion.

use vstd::prelude::*;

verus! {

/// Bytes of the fixed part of a record.
pub const RECORD_HEADER_BYTES: usize = 64;

/// UTF-16 units of the extension field.
pub const EXTENSION_UNITS: usize = 12;

/// One decoded driver message.
pub struct DriverMessage {
    /// Raw operation code.
    pub file_change: u8,
    /// I/O request packet code.
    pub irp_op: u8,
    /// Id of the process that performed the operation.
    pub pid: u32,
    /// File size as the driver saw it; negative when unknown.
    pub file_size: i64,
    /// Raw bits of the driver's entropy estimate, carried opaquely.
    pub entropy_bits: u64,
    /// Monotonic group id.
    pub gid: u64,
    /// Timestamp in milliseconds since the epoch.
    pub time_ms: u64,
    /// Extension field, as UTF-16 units.
    pub extension: Vec<u16>,
    /// Path text, as UTF-16 units; holds two pipe-delimited paths for a
    /// rename-class record.
    pub path: Vec<u16>,
}

/// Mathematical image of a driver message.
pub struct DriverMessageModel {
    pub file_change: u8,
    pub irp_op: u8,
    pub pid: u32,
    pub file_size: i64,
    pub entropy_bits: u64,
    pub gid: u64,
    pub time_ms: u64,
    pub extension: Seq<u16>,
    pub path: Seq<u16>,
}

impl View for DriverMessage {
    type V = DriverMessageModel;

    open spec fn view(&self) -> DriverMessageModel {
        DriverMessageModel {
            file_change: self.file_change,
            irp_op: self.irp_op,
            pid: self.pid,
            file_size: self.file_size,
            entropy_bits: self.entropy_bits,
            gid: self.gid,
            time_ms: self.time_ms,
            extension: self.extension@,
            path: self.path@,
        }
    }
}

impl DeepView for DriverMessage {
    type V = DriverMessageModel;

    open spec fn deep_view(&self) -> DriverMessageModel {
        self.view()
    }
}

/// Value of `n` little-endian bytes of `b` starting at `off`.
pub open spec fn le_bytes(b: Seq<u8>, off: int, n: nat) -> nat
    decreases n,
{
    if n == 0 {
        0
    } else {
        (b[off] + 256 * le_bytes(b, off + 1, (n - 1) as nat)) as nat
    }
}

/// The extension units of the record at `off`.
pub open spec fn record_extension(b: Seq<u8>, off: int) -> Seq<u16> {
    Seq::new(EXTENSION_UNITS as nat, |i: int| le_bytes(b, off + 38 + 2 * i, 2) as u16)
}

/// Path length in UTF-16 units of the record at `off`.
pub open spec fn record_path_units(b: Seq<u8>, off: int) -> nat {
    le_bytes(b, off + 62, 2)
}

/// The path units of the record at `off`.
pub open spec fn record_path(b: Seq<u8>, off: int) -> Seq<u16> {
    Seq::new(record_path_units(b, off), |i: int| le_bytes(b, off + 64 + 2 * i, 2) as u16)
}

/// Total bytes of the record at `off`.
pub open spec fn record_size(b: Seq<u8>, off: int) -> int {
    RECORD_HEADER_BYTES + 2 * record_path_units(b, off)
}

/// Holds when a whole record fits in the buffer at `off`.
pub open spec fn record_fits(b: Seq<u8>, off: int) -> bool {
    &&& 0 <= off
    &&& off + RECORD_HEADER_BYTES <= b.len()
    &&& off + record_size(b, off) <= b.len()
}

/// The record at `off`, as a message model.
pub open spec fn record_at(b: Seq<u8>, off: int) -> DriverMessageModel {
    DriverMessageModel {
        file_change: b[off],
        irp_op: b[off + 1],
        pid: le_bytes(b, off + 2, 4) as u32,
        file_size: le_bytes(b, off + 6, 8) as u64 as i64,
        entropy_bits: le_bytes(b, off + 14, 8) as u64,
        gid: le_bytes(b, off + 22, 8) as u64,
        time_ms: le_bytes(b, off + 30, 8) as u64,
        extension: record_extension(b, off),
        path: record_path(b, off),
    }
}

/// The sequence of messages decoded from `b` at `off`, reading at most
/// `k` records and stopping early on buffer exhaustion.
pub open spec fn spec_decode(b: Seq<u8>, off: int, k: nat) -> Seq<DriverMessageModel>
    decreases k,
{
    if k == 0 || !record_fits(b, off) {
        Seq::empty()
    } else {
        seq![record_at(b, off)] + spec_decode(b, off + record_size(b, off), (k - 1) as nat)
    }
}

/// Holds when `k` consecutive records fit in `b` starting at `off`.
pub open spec fn records_fit(b: Seq<u8>, off: int, k: nat) -> bool
    decreases k,
{
    k == 0 || (record_fits(b, off) && records_fit(b, off + record_size(b, off), (k - 1) as nat))
}

/// Decoding is bounded: it never yields more than `k` messages, and
/// whenever `k` records fit in the buffer it yields exactly `k`.
pub proof fn law_decode_bounded_read(b: Seq<u8>, off: int, k: nat)
    ensures
        spec_decode(b, off, k).len() <= k,
        records_fit(b, off, k) ==> spec_decode(b, off, k).len() == k,
    decreases k,
{
    if k > 0 && record_fits(b, off) {
        law_decode_bounded_read(b, off + record_size(b, off), (k - 1) as nat);
    }
}

/// Reads two little-endian bytes.
fn read_u16(buf: &[u8], off: usize) -> (r: u16)
    requires
        off + 2 <= buf@.len(),
    ensures
        r as nat == le_bytes(buf@, off as int, 2),
{
    proof {
        reveal_with_fuel(le_bytes, 3);
    }
    (buf[off] as u16) + 256 * (buf[off + 1] as u16)
}

/// Reads four little-endian bytes.
fn read_u32(buf: &[u8], off: usize) -> (r: u32)
    requires
        off + 4 <= buf@.len(),
    ensures
        r as nat == le_bytes(buf@, off as int, 4),
{
    proof {
        reveal_with_fuel(le_bytes, 5);
    }
    (buf[off] as u32) + 256 * ((buf[off + 1] as u32) + 256 * ((buf[off + 2] as u32) + 256 * (
    buf[off + 3] as u32)))
}

/// Reads eight little-endian bytes.
fn read_u64(buf: &[u8], off: usize) -> (r: u64)
    requires
        off + 8 <= buf@.len(),
    ensures
        r as nat == le_bytes(buf@, off as int, 8),
{
    proof {
        reveal_with_fuel(le_bytes, 9);
    }
    (buf[off] as u64) + 256 * ((buf[off + 1] as u64) + 256 * ((buf[off + 2] as u64) + 256 * ((
    buf[off + 3] as u64) + 256 * ((buf[off + 4] as u64) + 256 * ((buf[off + 5] as u64) + 256 * ((
    buf[off + 6] as u64) + 256 * (buf[off + 7] as u64)))))))
}

/// Reads `count` little-endian UTF-16 units.
fn read_u16_array(buf: &[u8], off: usize, count: usize) -> (r: Vec<u16>)
    requires
        off + 2 * count <= buf@.len(),
    ensures
        r@ == Seq::new(count as nat, |i: int| le_bytes(buf@, off + 2 * i, 2) as u16),
{
    let len: usize = buf.len();
    let mut r: Vec<u16> = Vec::new();
    let mut i: usize = 0;
    while i < count
        invariant
            i <= count,
            len == buf@.len(),
            off + 2 * count <= len,
            r@ == Seq::new(i as nat, |j: int| le_bytes(buf@, off + 2 * j, 2) as u16),
        decreases count - i,
    {
        r.push(read_u16(buf, off + 2 * i));
        proof {
            assert(r@ =~= Seq::new((i + 1) as nat, |j: int| le_bytes(buf@, off + 2 * j, 2) as u16));
        }
        i = i + 1;
    }
    r
}

/// Decodes the record at `off`.
fn decode_record(buf: &[u8], off: usize) -> (r: DriverMessage)
    requires
        record_fits(buf@, off as int),
    ensures
        r@ == record_at(buf@, off as int),
        r.path@.len() == record_path_units(buf@, off as int),
{
    let len: usize = buf.len();
    let path_units = read_u16(buf, off + 62) as usize;
    let extension = read_u16_array(buf, off + 38, EXTENSION_UNITS);
    let path = read_u16_array(buf, off + 64, path_units);
    proof {
        assert(extension@ =~= record_extension(buf@, off as int));
        assert(path@ =~= record_path(buf@, off as int));
    }
    DriverMessage {
        file_change: buf[off],
        irp_op: buf[off + 1],
        pid: read_u32(buf, off + 2),
        file_size: read_u64(buf, off + 6) as i64,
        entropy_bits: read_u64(buf, off + 14),
        gid: read_u64(buf, off + 22),
        time_ms: read_u64(buf, off + 30),
        extension,
        path,
    }
}

/// Decodes up to `num_ops` records from a driver reply buffer.  The
/// result follows the buffer record by record and stops after exactly
/// `num_ops` messages, or earlier when the rest of the buffer holds no
/// whole record.
pub fn decode_messages(num_ops: u32, buf: &[u8]) -> (r: Vec<DriverMessage>)
    ensures
        r.deep_view() == spec_decode(buf@, 0, num_ops as nat),
        r@.len() <= num_ops,
        records_fit(buf@, 0, num_ops as nat) ==> r@.len() == num_ops,
{
    let len: usize = buf.len();
    let mut r: Vec<DriverMessage> = Vec::new();
    let mut off: usize = 0;
    let mut produced: u32 = 0;
    while produced < num_ops
        invariant
            off <= len,
            len == buf@.len(),
            produced <= num_ops,
            r@.len() == produced,
            spec_decode(buf@, 0, num_ops as nat) == r.deep_view() + spec_decode(
                buf@,
                off as int,
                (num_ops - produced) as nat,
            ),
            records_fit(buf@, 0, num_ops as nat) ==> records_fit(
                buf@,
                off as int,
                (num_ops - produced) as nat,
            ),
        decreases num_ops - produced,
    {
        if len - off < RECORD_HEADER_BYTES {
            proof {
                assert(!record_fits(buf@, off as int));
                assert(spec_decode(buf@, off as int, (num_ops - produced) as nat)
                    =~= Seq::<DriverMessageModel>::empty());
                assert(r.deep_view() + Seq::<DriverMessageModel>::empty() =~= r.deep_view());
            }
            return r;
        }
        let path_units = read_u16(buf, off + 62) as usize;
        if len - off - RECORD_HEADER_BYTES < 2 * path_units {
            proof {
                assert(!record_fits(buf@, off as int));
                assert(spec_decode(buf@, off as int, (num_ops - produced) as nat)
                    =~= Seq::<DriverMessageModel>::empty());
                assert(r.deep_view() + Seq::<DriverMessageModel>::empty() =~= r.deep_view());
            }
            return r;
        }
        proof {
            assert(record_fits(buf@, off as int));
        }
        let msg = decode_record(buf, off);
        let ghost k = (num_ops - produced) as nat;
        let ghost prev = r.deep_view();
        r.push(msg);
        proof {
            assert(r.deep_view() =~= prev.push(msg@));
            assert(spec_decode(buf@, off as int, k) == seq![record_at(buf@, off as int)]
                + spec_decode(
                buf@,
                off + record_size(buf@, off as int),
                (k - 1) as nat,
            ));
            assert(prev.push(msg@) =~= prev + seq![record_at(buf@, off as int)]);
            assert(prev + spec_decode(buf@, off as int, k) =~= prev + seq![
                record_at(buf@, off as int),
            ] + spec_decode(buf@, off + record_size(buf@, off as int), (k - 1) as nat));
        }
        off = off + RECORD_HEADER_BYTES + 2 * path_units;
        produced = produced + 1;
    }
    proof {
        assert(spec_decode(buf@, off as int, 0) =~= Seq::<DriverMessageModel>::empty());
        assert(r.deep_view() + Seq::<DriverMessageModel>::empty() =~= r.deep_view());
        law_decode_bounded_read(buf@, 0, num_ops as nat);
    }
    r
}

} // verus!
