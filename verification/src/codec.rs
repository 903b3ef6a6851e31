//! Binary wire codec for telemetry snapshots.
//!
//! Schema, in this fixed field order (the controller process decodes the same
//! way): fixed-width integers travel least-significant byte first; 32-bit
//! IEEE-754 fields travel as their raw bit patterns (`u32`); a text field is a
//! LEB128 length prefix followed by its UTF-8 bytes; the disk list is a LEB128
//! count followed by that many `{name, used, max}` records.

use vstd::bytes::*;
use vstd::prelude::*;

verus! {

/// One disk's usage record. The name carries the UTF-8 bytes of the disk's
/// display name.
#[derive(Debug, Clone, PartialEq)]
pub struct DiskRecord {
    pub name: Vec<u8>,
    pub used_bytes: u64,
    pub max_bytes: u64,
}

/// Mathematical value of a `DiskRecord`.
pub ghost struct DiskView {
    pub name: Seq<u8>,
    pub used_bytes: u64,
    pub max_bytes: u64,
}

impl View for DiskRecord {
    type V = DiskView;

    open spec fn view(&self) -> DiskView {
        DiskView { name: self.name@, used_bytes: self.used_bytes, max_bytes: self.max_bytes }
    }
}

/// One immutable capture of host telemetry. Text fields hold UTF-8 bytes;
/// the `_bits` fields hold the raw bit patterns of 32-bit IEEE-754 values, so
/// that the wire image is pinned down exactly.
#[derive(Debug, Clone, PartialEq)]
pub struct MetricsSnapshot {
    pub capture_time_nanos: u128,
    pub uptime_seconds: u64,
    pub network_report: Vec<u8>,
    pub socket_stats_report: Vec<u8>,
    pub memory_used_bytes: u64,
    pub memory_max_bytes: u64,
    pub memory_detail: Vec<u8>,
    pub swap_used_bytes: u64,
    pub swap_max_bytes: u64,
    pub swap_detail: Vec<u8>,
    pub cpu_user_pct_bits: u32,
    pub cpu_nice_pct_bits: u32,
    pub cpu_system_pct_bits: u32,
    pub cpu_intr_pct_bits: u32,
    pub cpu_idle_pct_bits: u32,
    pub load1m_bits: u32,
    pub load5m_bits: u32,
    pub load15m_bits: u32,
    pub cpu_temp_bits: u32,
    pub disks: Vec<DiskRecord>,
}

/// Mathematical value of a `MetricsSnapshot`, field for field.
pub ghost struct SnapshotView {
    pub capture_time_nanos: u128,
    pub uptime_seconds: u64,
    pub network_report: Seq<u8>,
    pub socket_stats_report: Seq<u8>,
    pub memory_used_bytes: u64,
    pub memory_max_bytes: u64,
    pub memory_detail: Seq<u8>,
    pub swap_used_bytes: u64,
    pub swap_max_bytes: u64,
    pub swap_detail: Seq<u8>,
    pub cpu_user_pct_bits: u32,
    pub cpu_nice_pct_bits: u32,
    pub cpu_system_pct_bits: u32,
    pub cpu_intr_pct_bits: u32,
    pub cpu_idle_pct_bits: u32,
    pub load1m_bits: u32,
    pub load5m_bits: u32,
    pub load15m_bits: u32,
    pub cpu_temp_bits: u32,
    pub disks: Seq<DiskView>,
}

impl View for MetricsSnapshot {
    type V = SnapshotView;

    open spec fn view(&self) -> SnapshotView {
        SnapshotView {
            capture_time_nanos: self.capture_time_nanos,
            uptime_seconds: self.uptime_seconds,
            network_report: self.network_report@,
            socket_stats_report: self.socket_stats_report@,
            memory_used_bytes: self.memory_used_bytes,
            memory_max_bytes: self.memory_max_bytes,
            memory_detail: self.memory_detail@,
            swap_used_bytes: self.swap_used_bytes,
            swap_max_bytes: self.swap_max_bytes,
            swap_detail: self.swap_detail@,
            cpu_user_pct_bits: self.cpu_user_pct_bits,
            cpu_nice_pct_bits: self.cpu_nice_pct_bits,
            cpu_system_pct_bits: self.cpu_system_pct_bits,
            cpu_intr_pct_bits: self.cpu_intr_pct_bits,
            cpu_idle_pct_bits: self.cpu_idle_pct_bits,
            load1m_bits: self.load1m_bits,
            load5m_bits: self.load5m_bits,
            load15m_bits: self.load15m_bits,
            cpu_temp_bits: self.cpu_temp_bits,
            disks: self.disks@.map_values(|d: DiskRecord| d@),
        }
    }
}

// ---------------------------------------------------------------------------
// Encoding, as a mathematical function of the snapshot value.
// ---------------------------------------------------------------------------

/// LEB128 encoding of an unsigned value: seven value bits per byte, least
/// significant group first, high bit set on every byte but the last.
pub open spec fn spec_varint(n: nat) -> Seq<u8>
    decreases n,
{
    if n < 128 {
        seq![n as u8]
    } else {
        seq![(n % 128 + 128) as u8] + spec_varint(n / 128)
    }
}

/// A length-prefixed byte field: LEB128 length, then the bytes themselves.
pub open spec fn spec_enc_bytes(b: Seq<u8>) -> Seq<u8> {
    spec_varint(b.len()) + b
}

/// One disk record: length-prefixed name, then used and max byte counts.
pub open spec fn spec_enc_disk(d: DiskView) -> Seq<u8> {
    spec_enc_bytes(d.name) + spec_u64_to_le_bytes(d.used_bytes) + spec_u64_to_le_bytes(d.max_bytes)
}

/// The disk records back to back, without the count prefix.
pub open spec fn spec_enc_disk_list(ds: Seq<DiskView>) -> Seq<u8>
    decreases ds.len(),
{
    if ds.len() == 0 {
        seq![]
    } else {
        spec_enc_disk(ds[0]) + spec_enc_disk_list(ds.drop_first())
    }
}

/// The disk section: LEB128 count, then exactly one record per disk.
pub open spec fn spec_enc_disks(ds: Seq<DiskView>) -> Seq<u8> {
    spec_varint(ds.len()) + spec_enc_disk_list(ds)
}

/// Every field before the disk section, in the frozen wire order.
pub open spec fn spec_enc_fixed(v: SnapshotView) -> Seq<u8> {
    spec_u128_to_le_bytes(v.capture_time_nanos) + spec_u64_to_le_bytes(v.uptime_seconds)
        + spec_enc_bytes(v.network_report) + spec_enc_bytes(v.socket_stats_report)
        + spec_u64_to_le_bytes(v.memory_used_bytes) + spec_u64_to_le_bytes(v.memory_max_bytes)
        + spec_enc_bytes(v.memory_detail) + spec_u64_to_le_bytes(v.swap_used_bytes)
        + spec_u64_to_le_bytes(v.swap_max_bytes) + spec_enc_bytes(v.swap_detail)
        + spec_u32_to_le_bytes(v.cpu_user_pct_bits) + spec_u32_to_le_bytes(v.cpu_nice_pct_bits)
        + spec_u32_to_le_bytes(v.cpu_system_pct_bits) + spec_u32_to_le_bytes(v.cpu_intr_pct_bits)
        + spec_u32_to_le_bytes(v.cpu_idle_pct_bits) + spec_u32_to_le_bytes(v.load1m_bits)
        + spec_u32_to_le_bytes(v.load5m_bits) + spec_u32_to_le_bytes(v.load15m_bits)
        + spec_u32_to_le_bytes(v.cpu_temp_bits)
}

/// The complete wire image of a snapshot.
pub open spec fn spec_enc_snapshot(v: SnapshotView) -> Seq<u8> {
    spec_enc_fixed(v) + spec_enc_disks(v.disks)
}

// ---------------------------------------------------------------------------
// Executable encoder.
// ---------------------------------------------------------------------------

/// Appends the LEB128 encoding of `n` to `out`.
pub fn encode_varint(n: u64, out: &mut Vec<u8>)
    ensures
        final(out)@ == old(out)@ + spec_varint(n as nat),
{
    let mut cur: u64 = n;
    while cur >= 128
        invariant
            out@ + spec_varint(cur as nat) == old(out)@ + spec_varint(n as nat),
        decreases cur,
    {
        out.push((cur % 128 + 128) as u8);
        cur = cur / 128;
    }
    out.push(cur as u8);
    assert(out@ =~= old(out)@ + spec_varint(n as nat));
}

fn encode_u32(x: u32, out: &mut Vec<u8>)
    ensures
        final(out)@ == old(out)@ + spec_u32_to_le_bytes(x),
{
    let mut b = u32_to_le_bytes(x);
    out.append(&mut b);
}

fn encode_u64(x: u64, out: &mut Vec<u8>)
    ensures
        final(out)@ == old(out)@ + spec_u64_to_le_bytes(x),
{
    let mut b = u64_to_le_bytes(x);
    out.append(&mut b);
}

fn encode_u128(x: u128, out: &mut Vec<u8>)
    ensures
        final(out)@ == old(out)@ + spec_u128_to_le_bytes(x),
{
    let mut b = u128_to_le_bytes(x);
    out.append(&mut b);
}

fn encode_bytes(b: &Vec<u8>, out: &mut Vec<u8>)
    ensures
        final(out)@ == old(out)@ + spec_enc_bytes(b@),
{
    encode_varint(b.len() as u64, out);
    let ghost mid = out@;
    let mut i: usize = 0;
    while i < b.len()
        invariant
            i <= b@.len(),
            out@ == mid + b@.subrange(0, i as int),
        decreases b@.len() - i,
    {
        out.push(b[i]);
        i = i + 1;
        assert(out@ =~= mid + b@.subrange(0, i as int));
    }
    assert(b@.subrange(0, b@.len() as int) =~= b@);
    assert(final(out)@ =~= old(out)@ + spec_enc_bytes(b@));
}

fn encode_disk(d: &DiskRecord, out: &mut Vec<u8>)
    ensures
        final(out)@ == old(out)@ + spec_enc_disk(d@),
{
    encode_bytes(&d.name, out);
    encode_u64(d.used_bytes, out);
    encode_u64(d.max_bytes, out);
    assert(final(out)@ =~= old(out)@ + spec_enc_disk(d@));
}

fn encode_disks(ds: &Vec<DiskRecord>, out: &mut Vec<u8>)
    ensures
        final(out)@ == old(out)@ + spec_enc_disks(ds@.map_values(|d: DiskRecord| d@)),
{
    let ghost views = ds@.map_values(|d: DiskRecord| d@);
    encode_varint(ds.len() as u64, out);
    let ghost mid = out@;
    let mut i: usize = 0;
    while i < ds.len()
        invariant
            i <= ds@.len(),
            views == ds@.map_values(|d: DiskRecord| d@),
            out@ == mid + spec_enc_disk_list(views.subrange(0, i as int)),
        decreases ds@.len() - i,
    {
        let ghost pre = views.subrange(0, i as int);
        encode_disk(&ds[i], out);
        i = i + 1;
        proof {
            let post = views.subrange(0, i as int);
            lemma_enc_disk_list_snoc(pre, views[i - 1]);
            assert(post =~= pre.push(views[i - 1]));
        }
    }
    proof {
        assert(views.subrange(0, views.len() as int) =~= views);
    }
    assert(final(out)@ =~= old(out)@ + spec_enc_disks(views));
}

/// Appending one record to a disk list appends its encoding.
proof fn lemma_enc_disk_list_snoc(ds: Seq<DiskView>, d: DiskView)
    ensures
        spec_enc_disk_list(ds.push(d)) == spec_enc_disk_list(ds) + spec_enc_disk(d),
    decreases ds.len(),
{
    if ds.len() == 0 {
        assert(ds.push(d)[0] == d);
        assert(ds.push(d).drop_first() =~= Seq::<DiskView>::empty());
        assert(spec_enc_disk_list(Seq::<DiskView>::empty()) == Seq::<u8>::empty());
        assert(spec_enc_disk_list(ds.push(d)) == spec_enc_disk(d) + Seq::<u8>::empty());
        assert(spec_enc_disk_list(ds.push(d)) =~= spec_enc_disk_list(ds) + spec_enc_disk(d));
    } else {
        assert(ds.push(d)[0] == ds[0]);
        assert(ds.push(d).drop_first() =~= ds.drop_first().push(d));
        lemma_enc_disk_list_snoc(ds.drop_first(), d);
        assert(spec_enc_disk_list(ds.push(d)) == spec_enc_disk(ds[0]) + (spec_enc_disk_list(
            ds.drop_first(),
        ) + spec_enc_disk(d)));
        assert(spec_enc_disk_list(ds.push(d)) =~= spec_enc_disk_list(ds) + spec_enc_disk(d));
    }
}

/// Encodes a snapshot into its complete wire image. The output is a pure
/// function of the snapshot value, so encoding the same snapshot twice yields
/// byte-identical output.
pub fn encode_snapshot(s: &MetricsSnapshot) -> (out: Vec<u8>)
    ensures
        out@ == spec_enc_snapshot(s@),
{
    let mut out: Vec<u8> = Vec::new();
    encode_u128(s.capture_time_nanos, &mut out);
    encode_u64(s.uptime_seconds, &mut out);
    encode_bytes(&s.network_report, &mut out);
    encode_bytes(&s.socket_stats_report, &mut out);
    encode_u64(s.memory_used_bytes, &mut out);
    encode_u64(s.memory_max_bytes, &mut out);
    encode_bytes(&s.memory_detail, &mut out);
    encode_u64(s.swap_used_bytes, &mut out);
    encode_u64(s.swap_max_bytes, &mut out);
    encode_bytes(&s.swap_detail, &mut out);
    encode_u32(s.cpu_user_pct_bits, &mut out);
    encode_u32(s.cpu_nice_pct_bits, &mut out);
    encode_u32(s.cpu_system_pct_bits, &mut out);
    encode_u32(s.cpu_intr_pct_bits, &mut out);
    encode_u32(s.cpu_idle_pct_bits, &mut out);
    encode_u32(s.load1m_bits, &mut out);
    encode_u32(s.load5m_bits, &mut out);
    encode_u32(s.load15m_bits, &mut out);
    encode_u32(s.cpu_temp_bits, &mut out);
    encode_disks(&s.disks, &mut out);
    assert(out@ =~= spec_enc_snapshot(s@));
    out
}

// ---------------------------------------------------------------------------
// Decoding, as a mathematical function of the wire bytes. Each step reads a
// value from the front of the remaining bytes and reports how many bytes it
// consumed; `None` means the bytes are not a well-formed encoding.
// ---------------------------------------------------------------------------

/// Reads one LEB128 value. Rejects a value that does not fit in 64 bits.
pub open spec fn spec_dec_varint(b: Seq<u8>) -> Option<(u64, int)>
    decreases b.len(),
{
    if b.len() == 0 {
        None
    } else if b[0] < 128 {
        Some((b[0] as u64, 1))
    } else {
        match spec_dec_varint(b.drop_first()) {
            None => None,
            Some((v, c)) => {
                let low = (b[0] - 128) as u64;
                if v as int * 128 + low as int <= u64::MAX as int {
                    Some(((v as int * 128 + low as int) as u64, c + 1))
                } else {
                    None
                }
            },
        }
    }
}

pub open spec fn spec_dec_u32(b: Seq<u8>) -> Option<(u32, int)> {
    if b.len() >= 4 {
        Some((spec_u32_from_le_bytes(b.take(4)), 4))
    } else {
        None
    }
}

pub open spec fn spec_dec_u64(b: Seq<u8>) -> Option<(u64, int)> {
    if b.len() >= 8 {
        Some((spec_u64_from_le_bytes(b.take(8)), 8))
    } else {
        None
    }
}

pub open spec fn spec_dec_u128(b: Seq<u8>) -> Option<(u128, int)> {
    if b.len() >= 16 {
        Some((spec_u128_from_le_bytes(b.take(16)), 16))
    } else {
        None
    }
}

/// Reads one length-prefixed byte field.
pub open spec fn spec_dec_bytes(b: Seq<u8>) -> Option<(Seq<u8>, int)> {
    match spec_dec_varint(b) {
        None => None,
        Some((n, c)) => if c + n <= b.len() {
            Some((b.subrange(c, c + n), c + n))
        } else {
            None
        },
    }
}

/// Reads one disk record: name, used bytes, max bytes.
pub open spec fn spec_dec_disk(b: Seq<u8>) -> Option<(DiskView, int)> {
    match spec_dec_bytes(b) {
        None => None,
        Some((name, c1)) => match spec_dec_u64(b.skip(c1)) {
            None => None,
            Some((used, c2)) => match spec_dec_u64(b.skip(c1 + c2)) {
                None => None,
                Some((max, c3)) => Some(
                    (DiskView { name, used_bytes: used, max_bytes: max }, c1 + c2 + c3),
                ),
            },
        },
    }
}

/// Reads exactly `n` disk records back to back.
pub open spec fn spec_dec_disk_list(b: Seq<u8>, n: nat) -> Option<(Seq<DiskView>, int)>
    decreases n,
{
    if n == 0 {
        Some((Seq::empty(), 0))
    } else {
        match spec_dec_disk(b) {
            None => None,
            Some((d, c)) => match spec_dec_disk_list(b.skip(c), (n - 1) as nat) {
                None => None,
                Some((ds, c2)) => Some((seq![d] + ds, c + c2)),
            },
        }
    }
}

/// Reads the disk section: LEB128 count, then that many records.
pub open spec fn spec_dec_disks(b: Seq<u8>) -> Option<(Seq<DiskView>, int)> {
    match spec_dec_varint(b) {
        None => None,
        Some((n, c)) => match spec_dec_disk_list(b.skip(c), n as nat) {
            None => None,
            Some((ds, c2)) => Some((ds, c + c2)),
        },
    }
}

/// Reads a usage section: used bytes, max bytes, detail text.
pub open spec fn spec_dec_usage(b: Seq<u8>) -> Option<((u64, u64, Seq<u8>), int)> {
    match spec_dec_u64(b) {
        None => None,
        Some((used, c1)) => match spec_dec_u64(b.skip(c1)) {
            None => None,
            Some((max, c2)) => match spec_dec_bytes(b.skip(c1 + c2)) {
                None => None,
                Some((detail, c3)) => Some(((used, max, detail), c1 + c2 + c3)),
            },
        },
    }
}

/// Reads exactly `n` 32-bit fields back to back.
pub open spec fn spec_dec_u32_list(b: Seq<u8>, n: nat) -> Option<(Seq<u32>, int)>
    decreases n,
{
    if n == 0 {
        Some((Seq::empty(), 0))
    } else {
        match spec_dec_u32(b) {
            None => None,
            Some((w, c)) => match spec_dec_u32_list(b.skip(c), (n - 1) as nat) {
                None => None,
                Some((ws, c2)) => Some((seq![w] + ws, c + c2)),
            },
        }
    }
}

/// Decodes a complete snapshot. `None` unless the whole buffer is consumed.
pub open spec fn spec_dec_snapshot(b: Seq<u8>) -> Option<SnapshotView> {
    match spec_dec_u128(b) {
        None => None,
        Some((capture_time_nanos, c1)) => {
            let r1 = b.skip(c1);
            match spec_dec_u64(r1) {
                None => None,
                Some((uptime_seconds, c2)) => {
                    let r2 = r1.skip(c2);
                    match spec_dec_bytes(r2) {
                        None => None,
                        Some((network_report, c3)) => {
                            let r3 = r2.skip(c3);
                            match spec_dec_bytes(r3) {
                                None => None,
                                Some((socket_stats_report, c4)) => {
                                    let r4 = r3.skip(c4);
                                    match spec_dec_usage(r4) {
                                        None => None,
                                        Some((mem, c5)) => {
                                            let r5 = r4.skip(c5);
                                            match spec_dec_usage(r5) {
                                                None => None,
                                                Some((swap, c6)) => {
                                                    let r6 = r5.skip(c6);
                                                    match spec_dec_u32_list(r6, 9) {
                                                        None => None,
                                                        Some((ws, c7)) => {
                                                            let r7 = r6.skip(c7);
                                                            match spec_dec_disks(r7) {
                                                                None => None,
                                                                Some((disks, c8)) => {
                                                                    if c8 == r7.len() {
                                                                        Some(
                                                                            SnapshotView {
                                                                                capture_time_nanos,
                                                                                uptime_seconds,
                                                                                network_report,
                                                                                socket_stats_report,
                                                                                memory_used_bytes: mem.0,
                                                                                memory_max_bytes: mem.1,
                                                                                memory_detail: mem.2,
                                                                                swap_used_bytes: swap.0,
                                                                                swap_max_bytes: swap.1,
                                                                                swap_detail: swap.2,
                                                                                cpu_user_pct_bits: ws[0],
                                                                                cpu_nice_pct_bits: ws[1],
                                                                                cpu_system_pct_bits: ws[2],
                                                                                cpu_intr_pct_bits: ws[3],
                                                                                cpu_idle_pct_bits: ws[4],
                                                                                load1m_bits: ws[5],
                                                                                load5m_bits: ws[6],
                                                                                load15m_bits: ws[7],
                                                                                cpu_temp_bits: ws[8],
                                                                                disks,
                                                                            },
                                                                        )
                                                                    } else {
                                                                        None
                                                                    }
                                                                },
                                                            }
                                                        },
                                                    }
                                                },
                                            }
                                        },
                                    }
                                },
                            }
                        },
                    }
                },
            }
        },
    }
}

// ---------------------------------------------------------------------------
// Executable decoder. Each helper reads one value at byte offset `i` and
// returns the value with the offset just past it, agreeing exactly with the
// spec-level decoder on the remaining bytes.
// ---------------------------------------------------------------------------

fn decode_varint(b: &[u8], i: usize) -> (r: Option<(u64, usize)>)
    requires
        i <= b@.len(),
    ensures
        match r {
            Some(p) => i < p.1 <= b@.len() && spec_dec_varint(b@.skip(i as int)) == Some(
                (p.0, p.1 - i),
            ),
            None => spec_dec_varint(b@.skip(i as int)) is None,
        },
    decreases b@.len() - i,
{
    let ghost s = b@.skip(i as int);
    if i == b.len() {
        return None;
    }
    let byte = b[i];
    proof {
        assert(s[0] == b@[i as int]);
        assert(s.drop_first() =~= b@.skip(i as int + 1));
    }
    if byte < 128 {
        Some((byte as u64, i + 1))
    } else {
        match decode_varint(b, i + 1) {
            None => None,
            Some((v, j)) => {
                let low = (byte - 128) as u64;
                let wide: u128 = v as u128 * 128 + low as u128;
                if wide <= u64::MAX as u128 {
                    Some((wide as u64, j))
                } else {
                    None
                }
            },
        }
    }
}

fn decode_u32(b: &[u8], i: usize) -> (r: Option<(u32, usize)>)
    requires
        i <= b@.len(),
    ensures
        match r {
            Some(p) => i < p.1 <= b@.len() && spec_dec_u32(b@.skip(i as int)) == Some(
                (p.0, p.1 - i),
            ),
            None => spec_dec_u32(b@.skip(i as int)) is None,
        },
{
    if b.len() - i >= 4 {
        let s = vstd::slice::slice_subrange(b, i, i + 4);
        let x = u32_from_le_bytes(s);
        proof {
            assert(b@.skip(i as int).take(4) =~= b@.subrange(i as int, i as int + 4));
        }
        Some((x, i + 4))
    } else {
        None
    }
}

fn decode_u64(b: &[u8], i: usize) -> (r: Option<(u64, usize)>)
    requires
        i <= b@.len(),
    ensures
        match r {
            Some(p) => i < p.1 <= b@.len() && spec_dec_u64(b@.skip(i as int)) == Some(
                (p.0, p.1 - i),
            ),
            None => spec_dec_u64(b@.skip(i as int)) is None,
        },
{
    if b.len() - i >= 8 {
        let s = vstd::slice::slice_subrange(b, i, i + 8);
        let x = u64_from_le_bytes(s);
        proof {
            assert(b@.skip(i as int).take(8) =~= b@.subrange(i as int, i as int + 8));
        }
        Some((x, i + 8))
    } else {
        None
    }
}

fn decode_u128(b: &[u8], i: usize) -> (r: Option<(u128, usize)>)
    requires
        i <= b@.len(),
    ensures
        match r {
            Some(p) => i < p.1 <= b@.len() && spec_dec_u128(b@.skip(i as int)) == Some(
                (p.0, p.1 - i),
            ),
            None => spec_dec_u128(b@.skip(i as int)) is None,
        },
{
    if b.len() - i >= 16 {
        let s = vstd::slice::slice_subrange(b, i, i + 16);
        let x = u128_from_le_bytes(s);
        proof {
            assert(b@.skip(i as int).take(16) =~= b@.subrange(i as int, i as int + 16));
        }
        Some((x, i + 16))
    } else {
        None
    }
}

fn decode_bytes(b: &[u8], i: usize) -> (r: Option<(Vec<u8>, usize)>)
    requires
        i <= b@.len(),
    ensures
        match r {
            Some(p) => i <= p.1 <= b@.len() && spec_dec_bytes(b@.skip(i as int)) == Some(
                (p.0@, p.1 - i),
            ),
            None => spec_dec_bytes(b@.skip(i as int)) is None,
        },
{
    match decode_varint(b, i) {
        None => None,
        Some((n, j)) => {
            let remaining = b.len() - j;
            if n <= remaining as u64 {
                let end = j + (n as usize);
                let s = vstd::slice::slice_subrange(b, j, end);
                let v = vstd::slice::slice_to_vec(s);
                proof {
                    assert(b@.skip(i as int).subrange(j - i, end - i) =~= b@.subrange(
                        j as int,
                        end as int,
                    ));
                }
                Some((v, end))
            } else {
                None
            }
        },
    }
}

fn decode_usage(b: &[u8], i: usize) -> (r: Option<((u64, u64, Vec<u8>), usize)>)
    requires
        i <= b@.len(),
    ensures
        match r {
            Some(p) => i <= p.1 <= b@.len() && spec_dec_usage(b@.skip(i as int)) == Some(
                ((p.0.0, p.0.1, p.0.2@), p.1 - i),
            ),
            None => spec_dec_usage(b@.skip(i as int)) is None,
        },
{
    let ghost s = b@.skip(i as int);
    match decode_u64(b, i) {
        None => None,
        Some((used, j1)) => {
            proof {
                assert(s.skip(j1 - i) =~= b@.skip(j1 as int));
            }
            match decode_u64(b, j1) {
                None => None,
                Some((max, j2)) => {
                    proof {
                        assert(s.skip(j2 - i) =~= b@.skip(j2 as int));
                    }
                    match decode_bytes(b, j2) {
                        None => None,
                        Some((detail, j3)) => Some(((used, max, detail), j3)),
                    }
                },
            }
        },
    }
}

fn decode_disk(b: &[u8], i: usize) -> (r: Option<(DiskRecord, usize)>)
    requires
        i <= b@.len(),
    ensures
        match r {
            Some(p) => i <= p.1 <= b@.len() && spec_dec_disk(b@.skip(i as int)) == Some(
                (p.0@, p.1 - i),
            ),
            None => spec_dec_disk(b@.skip(i as int)) is None,
        },
{
    let ghost s = b@.skip(i as int);
    match decode_bytes(b, i) {
        None => None,
        Some((name, j1)) => {
            proof {
                assert(s.skip(j1 - i) =~= b@.skip(j1 as int));
            }
            match decode_u64(b, j1) {
                None => None,
                Some((used, j2)) => {
                    proof {
                        assert(s.skip(j2 - i) =~= b@.skip(j2 as int));
                    }
                    match decode_u64(b, j2) {
                        None => None,
                        Some((max, j3)) => Some(
                            (DiskRecord { name, used_bytes: used, max_bytes: max }, j3),
                        ),
                    }
                },
            }
        },
    }
}

fn decode_disk_list(b: &[u8], i: usize, n: u64) -> (r: Option<(Vec<DiskRecord>, usize)>)
    requires
        i <= b@.len(),
    ensures
        match r {
            Some(p) => i <= p.1 <= b@.len() && spec_dec_disk_list(b@.skip(i as int), n as nat)
                == Some((p.0@.map_values(|d: DiskRecord| d@), p.1 - i)),
            None => spec_dec_disk_list(b@.skip(i as int), n as nat) is None,
        },
{
    let mut acc: Vec<DiskRecord> = Vec::new();
    let mut j: usize = i;
    let mut k: u64 = 0;
    proof {
        assert(acc@.map_values(|d: DiskRecord| d@) =~= Seq::<DiskView>::empty());
    }
    while k < n
        invariant
            i <= j <= b@.len(),
            k <= n,
            match spec_dec_disk_list(b@.skip(j as int), (n - k) as nat) {
                Some(q) => spec_dec_disk_list(b@.skip(i as int), n as nat) == Some(
                    (acc@.map_values(|d: DiskRecord| d@) + q.0, j - i + q.1),
                ),
                None => spec_dec_disk_list(b@.skip(i as int), n as nat) is None,
            },
        decreases n - k,
    {
        let ghost pre = acc@.map_values(|d: DiskRecord| d@);
        match decode_disk(b, j) {
            None => {
                return None;
            },
            Some((d, j2)) => {
                proof {
                    assert(b@.skip(j as int).skip(j2 - j) =~= b@.skip(j2 as int));
                    let rest = spec_dec_disk_list(b@.skip(j2 as int), (n - k - 1) as nat);
                    assert(spec_dec_disk_list(b@.skip(j as int), (n - k) as nat) == (match rest {
                        Some(q) => Some((seq![d@] + q.0, j2 - j + q.1)),
                        None => None::<(Seq<DiskView>, int)>,
                    }));
                    assert(acc@.push(d).map_values(|x: DiskRecord| x@) =~= pre.push(d@));
                    if rest is Some {
                        let q = rest->0;
                        assert(pre.push(d@) + q.0 =~= pre + (seq![d@] + q.0));
                    }
                }
                acc.push(d);
                j = j2;
                k = k + 1;
            },
        }
    }
    proof {
        assert(spec_dec_disk_list(b@.skip(j as int), 0) == Some((Seq::<DiskView>::empty(), 0int)));
        assert(acc@.map_values(|d: DiskRecord| d@) + Seq::<DiskView>::empty() =~= acc@.map_values(
            |d: DiskRecord| d@,
        ));
    }
    Some((acc, j))
}

fn decode_u32_list(b: &[u8], i: usize, n: u64) -> (r: Option<(Vec<u32>, usize)>)
    requires
        i <= b@.len(),
    ensures
        match r {
            Some(p) => i <= p.1 <= b@.len() && p.0@.len() == n && spec_dec_u32_list(
                b@.skip(i as int),
                n as nat,
            ) == Some((p.0@, p.1 - i)),
            None => spec_dec_u32_list(b@.skip(i as int), n as nat) is None,
        },
{
    let mut acc: Vec<u32> = Vec::new();
    let mut j: usize = i;
    let mut k: u64 = 0;
    while k < n
        invariant
            i <= j <= b@.len(),
            k <= n,
            acc@.len() == k,
            match spec_dec_u32_list(b@.skip(j as int), (n - k) as nat) {
                Some(q) => spec_dec_u32_list(b@.skip(i as int), n as nat) == Some(
                    (acc@ + q.0, j - i + q.1),
                ),
                None => spec_dec_u32_list(b@.skip(i as int), n as nat) is None,
            },
        decreases n - k,
    {
        let ghost pre = acc@;
        match decode_u32(b, j) {
            None => {
                return None;
            },
            Some((w, j2)) => {
                proof {
                    assert(b@.skip(j as int).skip(j2 - j) =~= b@.skip(j2 as int));
                    let rest = spec_dec_u32_list(b@.skip(j2 as int), (n - k - 1) as nat);
                    assert(spec_dec_u32_list(b@.skip(j as int), (n - k) as nat) == (match rest {
                        Some(q) => Some((seq![w] + q.0, j2 - j + q.1)),
                        None => None::<(Seq<u32>, int)>,
                    }));
                    if rest is Some {
                        let q = rest->0;
                        assert(pre.push(w) + q.0 =~= pre + (seq![w] + q.0));
                    }
                }
                acc.push(w);
                j = j2;
                k = k + 1;
            },
        }
    }
    proof {
        assert(spec_dec_u32_list(b@.skip(j as int), 0) == Some((Seq::<u32>::empty(), 0int)));
        assert(acc@ + Seq::<u32>::empty() =~= acc@);
    }
    Some((acc, j))
}

/// Decodes a complete snapshot from its wire image. Succeeds exactly on the
/// buffers that the spec-level decoder accepts, and then returns the decoded
/// field values unchanged.
pub fn decode_snapshot(b: &[u8]) -> (r: Option<MetricsSnapshot>)
    ensures
        match r {
            Some(s) => spec_dec_snapshot(b@) == Some(s@),
            None => spec_dec_snapshot(b@) is None,
        },
{
    proof {
        assert(b@.skip(0) =~= b@);
    }
    let r1 = decode_u128(b, 0);
    if r1.is_none() {
        return None;
    }
    let (capture_time_nanos, j1) = r1.unwrap();
    let r2 = decode_u64(b, j1);
    if r2.is_none() {
        return None;
    }
    let (uptime_seconds, j2) = r2.unwrap();
    proof {
        assert(b@.skip(j1 as int).skip(j2 - j1) =~= b@.skip(j2 as int));
    }
    let r3 = decode_bytes(b, j2);
    if r3.is_none() {
        return None;
    }
    let (network_report, j3) = r3.unwrap();
    proof {
        assert(b@.skip(j2 as int).skip(j3 - j2) =~= b@.skip(j3 as int));
    }
    let r4 = decode_bytes(b, j3);
    if r4.is_none() {
        return None;
    }
    let (socket_stats_report, j4) = r4.unwrap();
    proof {
        assert(b@.skip(j3 as int).skip(j4 - j3) =~= b@.skip(j4 as int));
    }
    let r5 = decode_usage(b, j4);
    if r5.is_none() {
        return None;
    }
    let (mem, j5) = r5.unwrap();
    proof {
        assert(b@.skip(j4 as int).skip(j5 - j4) =~= b@.skip(j5 as int));
    }
    let r6 = decode_usage(b, j5);
    if r6.is_none() {
        return None;
    }
    let (swap, j6) = r6.unwrap();
    proof {
        assert(b@.skip(j5 as int).skip(j6 - j5) =~= b@.skip(j6 as int));
    }
    let r7 = decode_u32_list(b, j6, 9);
    if r7.is_none() {
        return None;
    }
    let (ws, j7) = r7.unwrap();
    proof {
        assert(b@.skip(j6 as int).skip(j7 - j6) =~= b@.skip(j7 as int));
    }
    let r8 = decode_varint(b, j7);
    if r8.is_none() {
        return None;
    }
    let (disk_count, j8) = r8.unwrap();
    let r9 = decode_disk_list(b, j8, disk_count);
    proof {
        assert(b@.skip(j7 as int).skip(j8 - j7) =~= b@.skip(j8 as int));
    }
    if r9.is_none() {
        return None;
    }
    let (disks, j9) = r9.unwrap();
    if j9 != b.len() {
        return None;
    }
    let (memory_used_bytes, memory_max_bytes, memory_detail) = mem;
    let (swap_used_bytes, swap_max_bytes, swap_detail) = swap;
    let cpu_user_pct_bits = ws[0];
    let cpu_nice_pct_bits = ws[1];
    let cpu_system_pct_bits = ws[2];
    let cpu_intr_pct_bits = ws[3];
    let cpu_idle_pct_bits = ws[4];
    let load1m_bits = ws[5];
    let load5m_bits = ws[6];
    let load15m_bits = ws[7];
    let cpu_temp_bits = ws[8];
    let snap = MetricsSnapshot {
        capture_time_nanos,
        uptime_seconds,
        network_report,
        socket_stats_report,
        memory_used_bytes,
        memory_max_bytes,
        memory_detail,
        swap_used_bytes,
        swap_max_bytes,
        swap_detail,
        cpu_user_pct_bits,
        cpu_nice_pct_bits,
        cpu_system_pct_bits,
        cpu_intr_pct_bits,
        cpu_idle_pct_bits,
        load1m_bits,
        load5m_bits,
        load15m_bits,
        cpu_temp_bits,
        disks,
    };
    Some(snap)
}

// ---------------------------------------------------------------------------
// Round-trip laws: decoding an encoding yields the original field values.
// ---------------------------------------------------------------------------

/// Every variable length in the snapshot fits the wire's 64-bit length
/// prefixes. Any snapshot held in real vectors satisfies this.
pub open spec fn snapshot_lengths_fit(v: SnapshotView) -> bool {
    &&& v.network_report.len() <= u64::MAX
    &&& v.socket_stats_report.len() <= u64::MAX
    &&& v.memory_detail.len() <= u64::MAX
    &&& v.swap_detail.len() <= u64::MAX
    &&& v.disks.len() <= u64::MAX
    &&& forall|i: int| 0 <= i < v.disks.len() ==> #[trigger] v.disks[i].name.len() <= u64::MAX
}

/// The view of any snapshot value held in memory has lengths that fit the
/// wire's 64-bit length prefixes.
pub proof fn lemma_snapshot_lengths_fit(s: &MetricsSnapshot)
    ensures
        snapshot_lengths_fit(s@),
{
    assert(s.network_report.len() == s.network_report@.len());
    assert(s.socket_stats_report.len() == s.socket_stats_report@.len());
    assert(s.memory_detail.len() == s.memory_detail@.len());
    assert(s.swap_detail.len() == s.swap_detail@.len());
    assert(s.disks.len() == s.disks@.len());
    assert forall|i: int| 0 <= i < s@.disks.len() implies #[trigger] s@.disks[i].name.len()
        <= u64::MAX by {
        assert(s@.disks[i].name == s.disks@[i].name@);
        assert(s.disks@[i].name.len() == s.disks@[i].name@.len());
    }
}

/// Skipping exactly the head of a concatenation leaves the tail.
proof fn lemma_peel(p: Seq<u8>, t: Seq<u8>, b: Seq<u8>)
    requires
        b == p + t,
    ensures
        b.skip(p.len() as int) == t,
{
    assert(b.skip(p.len() as int) =~= t);
}

proof fn lemma_dec_varint_enc(n: u64, tail: Seq<u8>)
    ensures
        spec_dec_varint(spec_varint(n as nat) + tail) == Some(
            (n, spec_varint(n as nat).len() as int),
        ),
    decreases n,
{
    let e = spec_varint(n as nat);
    let b = e + tail;
    if n < 128 {
        assert(b[0] == n as u8);
    } else {
        let m = n / 128;
        let low = n % 128;
        assert(n as nat / 128 == m as nat);
        assert(n as nat % 128 == low as nat);
        assert(b[0] == (low + 128) as u8);
        assert(b[0] >= 128);
        lemma_dec_varint_enc(m, tail);
        assert(b.drop_first() =~= spec_varint(m as nat) + tail);
        assert(m as int * 128 + low as int == n as int);
        assert(e.len() == 1 + spec_varint(m as nat).len());
    }
}

proof fn lemma_dec_u32_enc(x: u32, tail: Seq<u8>)
    ensures
        spec_dec_u32(spec_u32_to_le_bytes(x) + tail) == Some((x, 4int)),
        spec_u32_to_le_bytes(x).len() == 4,
{
    lemma_auto_spec_u32_to_from_le_bytes();
    assert((spec_u32_to_le_bytes(x) + tail).take(4) =~= spec_u32_to_le_bytes(x));
}

proof fn lemma_dec_u64_enc(x: u64, tail: Seq<u8>)
    ensures
        spec_dec_u64(spec_u64_to_le_bytes(x) + tail) == Some((x, 8int)),
        spec_u64_to_le_bytes(x).len() == 8,
{
    lemma_auto_spec_u64_to_from_le_bytes();
    assert((spec_u64_to_le_bytes(x) + tail).take(8) =~= spec_u64_to_le_bytes(x));
}

proof fn lemma_dec_u128_enc(x: u128, tail: Seq<u8>)
    ensures
        spec_dec_u128(spec_u128_to_le_bytes(x) + tail) == Some((x, 16int)),
        spec_u128_to_le_bytes(x).len() == 16,
{
    lemma_auto_spec_u128_to_from_le_bytes();
    assert((spec_u128_to_le_bytes(x) + tail).take(16) =~= spec_u128_to_le_bytes(x));
}

proof fn lemma_dec_bytes_enc(data: Seq<u8>, tail: Seq<u8>)
    requires
        data.len() <= u64::MAX,
    ensures
        spec_dec_bytes(spec_enc_bytes(data) + tail) == Some(
            (data, spec_enc_bytes(data).len() as int),
        ),
{
    let n = data.len() as u64;
    let b = spec_enc_bytes(data) + tail;
    lemma_dec_varint_enc(n, data + tail);
    assert(b =~= spec_varint(n as nat) + (data + tail));
    let c = spec_varint(n as nat).len() as int;
    assert(spec_dec_varint(b) == Some((n, c)));
    assert(c + n as int <= b.len());
    assert(b.subrange(c, c + n as int) =~= data);
}

proof fn lemma_dec_usage_enc(used: u64, max: u64, detail: Seq<u8>, tail: Seq<u8>)
    requires
        detail.len() <= u64::MAX,
    ensures
        spec_dec_usage(
            spec_u64_to_le_bytes(used) + spec_u64_to_le_bytes(max) + spec_enc_bytes(detail) + tail,
        ) == Some(
            ((used, max, detail), 16 + spec_enc_bytes(detail).len() as int),
        ),
        (spec_u64_to_le_bytes(used) + spec_u64_to_le_bytes(max) + spec_enc_bytes(detail)).len()
            == 16 + spec_enc_bytes(detail).len(),
{
    let b = spec_u64_to_le_bytes(used) + spec_u64_to_le_bytes(max) + spec_enc_bytes(detail) + tail;
    let t2 = spec_u64_to_le_bytes(max) + (spec_enc_bytes(detail) + tail);
    lemma_dec_u64_enc(used, t2);
    assert(b =~= spec_u64_to_le_bytes(used) + t2);
    assert(b.skip(8) =~= t2);
    lemma_dec_u64_enc(max, spec_enc_bytes(detail) + tail);
    assert(b.skip(16) =~= spec_enc_bytes(detail) + tail);
    lemma_dec_bytes_enc(detail, tail);
}

proof fn lemma_dec_disk_enc(d: DiskView, tail: Seq<u8>)
    requires
        d.name.len() <= u64::MAX,
    ensures
        spec_dec_disk(spec_enc_disk(d) + tail) == Some((d, spec_enc_disk(d).len() as int)),
{
    let b = spec_enc_disk(d) + tail;
    let t2 = spec_u64_to_le_bytes(d.used_bytes) + (spec_u64_to_le_bytes(d.max_bytes) + tail);
    lemma_dec_bytes_enc(d.name, t2);
    assert(b =~= spec_enc_bytes(d.name) + t2);
    let c1 = spec_enc_bytes(d.name).len() as int;
    assert(b.skip(c1) =~= t2);
    lemma_dec_u64_enc(d.used_bytes, spec_u64_to_le_bytes(d.max_bytes) + tail);
    assert(b.skip(c1 + 8) =~= spec_u64_to_le_bytes(d.max_bytes) + tail);
    lemma_dec_u64_enc(d.max_bytes, tail);
    assert(spec_dec_disk(b) == Some((d, c1 + 16)));
}

proof fn lemma_dec_disk_list_enc(ds: Seq<DiskView>, tail: Seq<u8>)
    requires
        forall|i: int| 0 <= i < ds.len() ==> #[trigger] ds[i].name.len() <= u64::MAX,
    ensures
        spec_dec_disk_list(spec_enc_disk_list(ds) + tail, ds.len()) == Some(
            (ds, spec_enc_disk_list(ds).len() as int),
        ),
    decreases ds.len(),
{
    let b = spec_enc_disk_list(ds) + tail;
    if ds.len() == 0 {
        assert(spec_dec_disk_list(b, 0) == Some((Seq::<DiskView>::empty(), 0int)));
        assert(ds =~= Seq::<DiskView>::empty());
    } else {
        let d = ds[0];
        let rest = ds.drop_first();
        assert(d.name.len() <= u64::MAX);
        let t2 = spec_enc_disk_list(rest) + tail;
        lemma_dec_disk_enc(d, t2);
        assert(b =~= spec_enc_disk(d) + t2);
        let c = spec_enc_disk(d).len() as int;
        assert(b.skip(c) =~= t2);
        assert(forall|i: int|
            0 <= i < rest.len() ==> #[trigger] rest[i].name.len() <= u64::MAX) by {
            assert(forall|i: int| 0 <= i < rest.len() ==> rest[i] == ds[i + 1]);
        }
        lemma_dec_disk_list_enc(rest, tail);
        assert(seq![d] + rest =~= ds);
    }
}

proof fn lemma_dec_disks_enc(ds: Seq<DiskView>, tail: Seq<u8>)
    requires
        ds.len() <= u64::MAX,
        forall|i: int| 0 <= i < ds.len() ==> #[trigger] ds[i].name.len() <= u64::MAX,
    ensures
        spec_dec_disks(spec_enc_disks(ds) + tail) == Some((ds, spec_enc_disks(ds).len() as int)),
{
    let n = ds.len() as u64;
    let b = spec_enc_disks(ds) + tail;
    let t2 = spec_enc_disk_list(ds) + tail;
    lemma_dec_varint_enc(n, t2);
    assert(b =~= spec_varint(n as nat) + t2);
    let c = spec_varint(n as nat).len() as int;
    assert(b.skip(c) =~= t2);
    lemma_dec_disk_list_enc(ds, tail);
}

proof fn lemma_dec_u32_block(
    w1: u32,
    w2: u32,
    w3: u32,
    w4: u32,
    w5: u32,
    w6: u32,
    w7: u32,
    w8: u32,
    w9: u32,
    tail: Seq<u8>,
)
    ensures
        spec_dec_u32_list(
            spec_u32_to_le_bytes(w1) + (spec_u32_to_le_bytes(w2) + (spec_u32_to_le_bytes(w3) + (
            spec_u32_to_le_bytes(w4) + (spec_u32_to_le_bytes(w5) + (spec_u32_to_le_bytes(w6) + (
            spec_u32_to_le_bytes(w7) + (spec_u32_to_le_bytes(w8) + (spec_u32_to_le_bytes(w9)
                + tail)))))))),
            9,
        ) == Some((seq![w1, w2, w3, w4, w5, w6, w7, w8, w9], 36int)),
        (spec_u32_to_le_bytes(w1) + (spec_u32_to_le_bytes(w2) + (spec_u32_to_le_bytes(w3) + (
        spec_u32_to_le_bytes(w4) + (spec_u32_to_le_bytes(w5) + (spec_u32_to_le_bytes(w6) + (
        spec_u32_to_le_bytes(w7) + (spec_u32_to_le_bytes(w8) + (spec_u32_to_le_bytes(w9)
            + tail))))))))).skip(36) == tail,
{
    let tw9 = spec_u32_to_le_bytes(w9) + tail;
    let tw8 = spec_u32_to_le_bytes(w8) + tw9;
    let tw7 = spec_u32_to_le_bytes(w7) + tw8;
    let tw6 = spec_u32_to_le_bytes(w6) + tw7;
    let tw5 = spec_u32_to_le_bytes(w5) + tw6;
    let tw4 = spec_u32_to_le_bytes(w4) + tw5;
    let tw3 = spec_u32_to_le_bytes(w3) + tw4;
    let tw2 = spec_u32_to_le_bytes(w2) + tw3;
    let tw1 = spec_u32_to_le_bytes(w1) + tw2;

    lemma_dec_u32_enc(w9, tail);
    assert(tw9.skip(4) =~= tail);
    assert(spec_dec_u32_list(tail, 0) == Some((Seq::<u32>::empty(), 0int)));
    assert(seq![w9] + Seq::<u32>::empty() =~= seq![w9]);
    assert(spec_dec_u32_list(tw9, 1) == Some((seq![w9], 4int)));

    lemma_dec_u32_enc(w8, tw9);
    assert(tw8.skip(4) =~= tw9);
    assert(seq![w8] + seq![w9] =~= seq![w8, w9]);
    assert(spec_dec_u32_list(tw8, 2) == Some((seq![w8, w9], 8int)));

    lemma_dec_u32_enc(w7, tw8);
    assert(tw7.skip(4) =~= tw8);
    assert(seq![w7] + seq![w8, w9] =~= seq![w7, w8, w9]);
    assert(spec_dec_u32_list(tw7, 3) == Some((seq![w7, w8, w9], 12int)));

    lemma_dec_u32_enc(w6, tw7);
    assert(tw6.skip(4) =~= tw7);
    assert(seq![w6] + seq![w7, w8, w9] =~= seq![w6, w7, w8, w9]);
    assert(spec_dec_u32_list(tw6, 4) == Some((seq![w6, w7, w8, w9], 16int)));

    lemma_dec_u32_enc(w5, tw6);
    assert(tw5.skip(4) =~= tw6);
    assert(seq![w5] + seq![w6, w7, w8, w9] =~= seq![w5, w6, w7, w8, w9]);
    assert(spec_dec_u32_list(tw5, 5) == Some((seq![w5, w6, w7, w8, w9], 20int)));

    lemma_dec_u32_enc(w4, tw5);
    assert(tw4.skip(4) =~= tw5);
    assert(seq![w4] + seq![w5, w6, w7, w8, w9] =~= seq![w4, w5, w6, w7, w8, w9]);
    assert(spec_dec_u32_list(tw4, 6) == Some((seq![w4, w5, w6, w7, w8, w9], 24int)));

    lemma_dec_u32_enc(w3, tw4);
    assert(tw3.skip(4) =~= tw4);
    assert(seq![w3] + seq![w4, w5, w6, w7, w8, w9] =~= seq![w3, w4, w5, w6, w7, w8, w9]);
    assert(spec_dec_u32_list(tw3, 7) == Some((seq![w3, w4, w5, w6, w7, w8, w9], 28int)));

    lemma_dec_u32_enc(w2, tw3);
    assert(tw2.skip(4) =~= tw3);
    assert(seq![w2] + seq![w3, w4, w5, w6, w7, w8, w9] =~= seq![w2, w3, w4, w5, w6, w7, w8, w9]);
    assert(spec_dec_u32_list(tw2, 8) == Some((seq![w2, w3, w4, w5, w6, w7, w8, w9], 32int)));

    lemma_dec_u32_enc(w1, tw2);
    assert(tw1.skip(4) =~= tw2);
    assert(seq![w1] + seq![w2, w3, w4, w5, w6, w7, w8, w9] =~= seq![w1, w2, w3, w4, w5, w6, w7, w8, w9]);
    assert(spec_dec_u32_list(tw1, 9) == Some(
        (seq![w1, w2, w3, w4, w5, w6, w7, w8, w9], 36int),
    ));
    assert(tw1.skip(36) =~= tail);
}

/// The wire image again, grouped from the right; equal to
/// `spec_enc_snapshot` and convenient for peeling fields off the front.
spec fn spec_enc_snapshot_chain(v: SnapshotView) -> Seq<u8> {
    spec_u128_to_le_bytes(v.capture_time_nanos) + (spec_u64_to_le_bytes(v.uptime_seconds) + (
    spec_enc_bytes(v.network_report) + (spec_enc_bytes(v.socket_stats_report) + ((
    spec_u64_to_le_bytes(v.memory_used_bytes) + spec_u64_to_le_bytes(v.memory_max_bytes)
        + spec_enc_bytes(v.memory_detail)) + ((spec_u64_to_le_bytes(v.swap_used_bytes)
        + spec_u64_to_le_bytes(v.swap_max_bytes) + spec_enc_bytes(v.swap_detail)) + (
    spec_u32_to_le_bytes(v.cpu_user_pct_bits) + (spec_u32_to_le_bytes(v.cpu_nice_pct_bits) + (
    spec_u32_to_le_bytes(v.cpu_system_pct_bits) + (spec_u32_to_le_bytes(v.cpu_intr_pct_bits) + (
    spec_u32_to_le_bytes(v.cpu_idle_pct_bits) + (spec_u32_to_le_bytes(v.load1m_bits) + (
    spec_u32_to_le_bytes(v.load5m_bits) + (spec_u32_to_le_bytes(v.load15m_bits) + (
    spec_u32_to_le_bytes(v.cpu_temp_bits) + spec_enc_disks(v.disks)))))))))))))))
}

/// Concatenation of sequences is associative.
proof fn lemma_assoc(a: Seq<u8>, b: Seq<u8>, c: Seq<u8>)
    ensures
        (a + b) + c == a + (b + c),
{
    assert((a + b) + c =~= a + (b + c));
}

/// Rotating a three-field group out of a left-leaning concatenation.
proof fn lemma_assoc_group(x: Seq<u8>, a: Seq<u8>, b: Seq<u8>, c: Seq<u8>, t: Seq<u8>)
    ensures
        ((x + a) + b + c) + t == x + ((a + b + c) + t),
{
    assert(((x + a) + b + c) + t =~= x + ((a + b + c) + t));
}

/// Regrouping the concatenations does not change the wire image.
proof fn lemma_enc_snapshot_chain(v: SnapshotView)
    ensures
        spec_enc_snapshot(v) == spec_enc_snapshot_chain(v),
{
    let l1 = spec_u128_to_le_bytes(v.capture_time_nanos);
    let l2 = spec_u64_to_le_bytes(v.uptime_seconds);
    let l3 = spec_enc_bytes(v.network_report);
    let l4 = spec_enc_bytes(v.socket_stats_report);
    let l5 = spec_u64_to_le_bytes(v.memory_used_bytes);
    let l6 = spec_u64_to_le_bytes(v.memory_max_bytes);
    let l7 = spec_enc_bytes(v.memory_detail);
    let l8 = spec_u64_to_le_bytes(v.swap_used_bytes);
    let l9 = spec_u64_to_le_bytes(v.swap_max_bytes);
    let l10 = spec_enc_bytes(v.swap_detail);
    let w1 = spec_u32_to_le_bytes(v.cpu_user_pct_bits);
    let w2 = spec_u32_to_le_bytes(v.cpu_nice_pct_bits);
    let w3 = spec_u32_to_le_bytes(v.cpu_system_pct_bits);
    let w4 = spec_u32_to_le_bytes(v.cpu_intr_pct_bits);
    let w5 = spec_u32_to_le_bytes(v.cpu_idle_pct_bits);
    let w6 = spec_u32_to_le_bytes(v.load1m_bits);
    let w7 = spec_u32_to_le_bytes(v.load5m_bits);
    let w8 = spec_u32_to_le_bytes(v.load15m_bits);
    let w9 = spec_u32_to_le_bytes(v.cpu_temp_bits);
    let dsec = spec_enc_disks(v.disks);

    let x1 = l1;
    let x2 = x1 + l2;
    let x3 = x2 + l3;
    let x4 = x3 + l4;
    let x5 = x4 + l5;
    let x6 = x5 + l6;
    let x7 = x6 + l7;
    let x8 = x7 + l8;
    let x9 = x8 + l9;
    let x10 = x9 + l10;
    let x11 = x10 + w1;
    let x12 = x11 + w2;
    let x13 = x12 + w3;
    let x14 = x13 + w4;
    let x15 = x14 + w5;
    let x16 = x15 + w6;
    let x17 = x16 + w7;
    let x18 = x17 + w8;
    let x19 = x18 + w9;
    assert(spec_enc_snapshot(v) == x19 + dsec);

    let sw9 = w9 + dsec;
    let sw8 = w8 + sw9;
    let sw7 = w7 + sw8;
    let sw6 = w6 + sw7;
    let sw5 = w5 + sw6;
    let sw4 = w4 + sw5;
    let sw3 = w3 + sw4;
    let sw2 = w2 + sw3;
    let sw1 = w1 + sw2;
    let sg6 = (l8 + l9 + l10) + sw1;
    let sg5 = (l5 + l6 + l7) + sg6;
    let s4 = l4 + sg5;
    let s3 = l3 + s4;
    let s2 = l2 + s3;

    lemma_assoc(x18, w9, dsec);
    lemma_assoc(x17, w8, sw9);
    lemma_assoc(x16, w7, sw8);
    lemma_assoc(x15, w6, sw7);
    lemma_assoc(x14, w5, sw6);
    lemma_assoc(x13, w4, sw5);
    lemma_assoc(x12, w3, sw4);
    lemma_assoc(x11, w2, sw3);
    lemma_assoc(x10, w1, sw2);
    lemma_assoc_group(x7, l8, l9, l10, sw1);
    lemma_assoc_group(x4, l5, l6, l7, sg6);
    lemma_assoc(x3, l4, sg5);
    lemma_assoc(x2, l3, s4);
    lemma_assoc(x1, l2, s3);
    assert(spec_enc_snapshot(v) == l1 + s2);
    assert(spec_enc_snapshot_chain(v) == l1 + s2);
}

/// Round trip: decoding the bytes produced by encoding a snapshot yields the
/// original value of every field, in the declared order.
#[verifier::rlimit(100)]
#[verifier::spinoff_prover]
pub proof fn lemma_snapshot_round_trip(v: SnapshotView)
    requires
        snapshot_lengths_fit(v),
    ensures
        spec_dec_snapshot(spec_enc_snapshot(v)) == Some(v),
{
    let b = spec_enc_snapshot(v);
    let t_disks = spec_enc_disks(v.disks);
    let tw9 = spec_u32_to_le_bytes(v.cpu_temp_bits) + t_disks;
    let tw8 = spec_u32_to_le_bytes(v.load15m_bits) + tw9;
    let tw7 = spec_u32_to_le_bytes(v.load5m_bits) + tw8;
    let tw6 = spec_u32_to_le_bytes(v.load1m_bits) + tw7;
    let tw5 = spec_u32_to_le_bytes(v.cpu_idle_pct_bits) + tw6;
    let tw4 = spec_u32_to_le_bytes(v.cpu_intr_pct_bits) + tw5;
    let tw3 = spec_u32_to_le_bytes(v.cpu_system_pct_bits) + tw4;
    let tw2 = spec_u32_to_le_bytes(v.cpu_nice_pct_bits) + tw3;
    let tw1 = spec_u32_to_le_bytes(v.cpu_user_pct_bits) + tw2;
    let p_swap = spec_u64_to_le_bytes(v.swap_used_bytes) + spec_u64_to_le_bytes(v.swap_max_bytes)
        + spec_enc_bytes(v.swap_detail);
    let t_swap = p_swap + tw1;
    let p_mem = spec_u64_to_le_bytes(v.memory_used_bytes) + spec_u64_to_le_bytes(v.memory_max_bytes)
        + spec_enc_bytes(v.memory_detail);
    let t_mem = p_mem + t_swap;
    let t4 = spec_enc_bytes(v.socket_stats_report) + t_mem;
    let t3 = spec_enc_bytes(v.network_report) + t4;
    let t2 = spec_u64_to_le_bytes(v.uptime_seconds) + t3;
    let p1 = spec_u128_to_le_bytes(v.capture_time_nanos);
    lemma_enc_snapshot_chain(v);
    assert(b == p1 + t2);

    lemma_dec_u128_enc(v.capture_time_nanos, t2);
    assert(spec_dec_u128(b) == Some((v.capture_time_nanos, 16int)));
    lemma_peel(p1, t2, b);
    let r1 = b.skip(16);
    assert(r1 == t2);

    lemma_dec_u64_enc(v.uptime_seconds, t3);
    assert(spec_dec_u64(r1) == Some((v.uptime_seconds, 8int)));
    lemma_peel(spec_u64_to_le_bytes(v.uptime_seconds), t3, t2);
    let r2 = r1.skip(8);
    assert(r2 == t3);

    lemma_dec_bytes_enc(v.network_report, t4);
    let c3 = spec_enc_bytes(v.network_report).len() as int;
    assert(spec_dec_bytes(r2) == Some((v.network_report, c3)));
    lemma_peel(spec_enc_bytes(v.network_report), t4, t3);
    let r3 = r2.skip(c3);
    assert(r3 == t4);

    lemma_dec_bytes_enc(v.socket_stats_report, t_mem);
    let c4 = spec_enc_bytes(v.socket_stats_report).len() as int;
    assert(spec_dec_bytes(r3) == Some((v.socket_stats_report, c4)));
    lemma_peel(spec_enc_bytes(v.socket_stats_report), t_mem, t4);
    let r4 = r3.skip(c4);
    assert(r4 == t_mem);

    lemma_dec_usage_enc(v.memory_used_bytes, v.memory_max_bytes, v.memory_detail, t_swap);
    let c5 = 16 + spec_enc_bytes(v.memory_detail).len() as int;
    assert(spec_dec_usage(r4) == Some(
        ((v.memory_used_bytes, v.memory_max_bytes, v.memory_detail), c5),
    ));
    assert(p_mem.len() == c5);
    lemma_peel(p_mem, t_swap, t_mem);
    let r5 = r4.skip(c5);
    assert(r5 == t_swap);

    lemma_dec_usage_enc(v.swap_used_bytes, v.swap_max_bytes, v.swap_detail, tw1);
    let c6 = 16 + spec_enc_bytes(v.swap_detail).len() as int;
    assert(spec_dec_usage(r5) == Some(
        ((v.swap_used_bytes, v.swap_max_bytes, v.swap_detail), c6),
    ));
    assert(p_swap.len() == c6);
    lemma_peel(p_swap, tw1, t_swap);
    let r6 = r5.skip(c6);
    assert(r6 == tw1);

    lemma_dec_u32_block(
        v.cpu_user_pct_bits,
        v.cpu_nice_pct_bits,
        v.cpu_system_pct_bits,
        v.cpu_intr_pct_bits,
        v.cpu_idle_pct_bits,
        v.load1m_bits,
        v.load5m_bits,
        v.load15m_bits,
        v.cpu_temp_bits,
        t_disks,
    );
    let ws = seq![
        v.cpu_user_pct_bits,
        v.cpu_nice_pct_bits,
        v.cpu_system_pct_bits,
        v.cpu_intr_pct_bits,
        v.cpu_idle_pct_bits,
        v.load1m_bits,
        v.load5m_bits,
        v.load15m_bits,
        v.cpu_temp_bits,
    ];
    assert(spec_dec_u32_list(r6, 9) == Some((ws, 36int)));
    assert(tw1.skip(36) == t_disks);
    let r7 = r6.skip(36);
    assert(r7 == t_disks);

    lemma_dec_disks_enc(v.disks, Seq::<u8>::empty());
    assert(t_disks + Seq::<u8>::empty() =~= t_disks);
    let c8 = spec_enc_disks(v.disks).len() as int;
    assert(spec_dec_disks(r7) == Some((v.disks, c8)));
    assert(c8 == r7.len());

    let decoded = spec_dec_snapshot(b);
    assert(decoded is Some);
    let u = decoded->0;
    assert(u.disks == v.disks);
    assert(u == v);
}

/// Encoding is a pure function of the snapshot value: two snapshots whose
/// fields hold equal values encode to byte-identical output.
pub proof fn lemma_encode_deterministic(a: SnapshotView, b: SnapshotView)
    requires
        a == b,
    ensures
        spec_enc_snapshot(a) == spec_enc_snapshot(b),
{
}

/// The shape of the disk section: always the LEB128 disk count followed by
/// the records; with zero disks it is exactly the single count byte `0`.
pub proof fn lemma_disk_section_shape(ds: Seq<DiskView>)
    ensures
        spec_enc_disks(ds) == spec_varint(ds.len()) + spec_enc_disk_list(ds),
        ds.len() == 0 ==> spec_enc_disks(ds) == seq![0u8],
{
    if ds.len() == 0 {
        assert(spec_varint(0) =~= seq![0u8]);
        assert(spec_enc_disk_list(ds) =~= Seq::<u8>::empty());
        assert(spec_enc_disks(ds) =~= seq![0u8]);
    }
}

/// A disk section holding `n` records decodes back to exactly those `n`
/// records.
pub proof fn lemma_disk_count_round_trip(ds: Seq<DiskView>)
    requires
        ds.len() <= u64::MAX,
        forall|i: int| 0 <= i < ds.len() ==> #[trigger] ds[i].name.len() <= u64::MAX,
    ensures
        spec_dec_disks(spec_enc_disks(ds)) matches Some(p) && p.0 == ds && p.0.len() == ds.len(),
{
    lemma_dec_disks_enc(ds, Seq::<u8>::empty());
    assert(spec_enc_disks(ds) + Seq::<u8>::empty() =~= spec_enc_disks(ds));
}

} // verus!
