//! The station's process-wide state and the snapshot assembly.
//!
//! A snapshot is captured sub-metric by sub-metric; no single failing probe
//! aborts the capture. A failing probe's field is replaced by a typed
//! sentinel: byte counters fall back to `0`, text fields to a fixed
//! "error, check logs" string, and 32-bit IEEE-754 fields to the minimum
//! finite value. CPU load needs two time-separated samples and the CPU
//! temperature fallback needs a second thermal source, so the caller
//! performs those two measurements and hands in what it observed.

use crate::codec::{DiskRecord, MetricsSnapshot};
use crate::provider;
use vstd::prelude::*;

verus! {

/// Bit pattern of the minimum finite 32-bit IEEE-754 value: the sentinel
/// stored when a floating-point sub-collection fails.
pub const F32_SENTINEL_BITS: u32 = 0xff7fffff;

/// The ASCII bytes of `error, check logs`: the sentinel stored when a text
/// sub-collection fails.
pub open spec fn text_sentinel() -> Seq<u8> {
    seq![
        101u8,
        114u8,
        114u8,
        111u8,
        114u8,
        44u8,
        32u8,
        99u8,
        104u8,
        101u8,
        99u8,
        107u8,
        32u8,
        108u8,
        111u8,
        103u8,
        115u8,
    ]
}

/// The text sentinel as a fresh vector.
pub fn text_sentinel_bytes() -> (v: Vec<u8>)
    ensures
        v@ == text_sentinel(),
{
    let mut v: Vec<u8> = Vec::new();
    v.push(101);
    v.push(114);
    v.push(114);
    v.push(111);
    v.push(114);
    v.push(44);
    v.push(32);
    v.push(99);
    v.push(104);
    v.push(101);
    v.push(99);
    v.push(107);
    v.push(32);
    v.push(108);
    v.push(111);
    v.push(103);
    v.push(115);
    proof {
        assert(v@ =~= text_sentinel());
    }
    v
}

/// One finished CPU-load measurement: the five percentages as raw 32-bit
/// IEEE-754 bit patterns. The caller produces it from two samples taken a
/// second apart.
#[derive(PartialEq, Eq, Structural, Debug, Clone, Copy)]
pub struct CpuLoadBits {
    pub user: u32,
    pub nice: u32,
    pub system: u32,
    pub interrupt: u32,
    pub idle: u32,
}

/// `a - b`, stopping at zero.
pub open spec fn spec_saturating_sub(a: u64, b: u64) -> u64 {
    if a >= b {
        (a - b) as u64
    } else {
        0
    }
}

fn saturating_sub(a: u64, b: u64) -> (r: u64)
    ensures
        r == spec_saturating_sub(a, b),
{
    if a >= b {
        a - b
    } else {
        0
    }
}

fn append_bytes(out: &mut Vec<u8>, src: &Vec<u8>)
    ensures
        final(out)@ == old(out)@ + src@,
{
    let mut i: usize = 0;
    while i < src.len()
        invariant
            i <= src@.len(),
            out@ == old(out)@ + src@.subrange(0, i as int),
        decreases src@.len() - i,
    {
        out.push(src[i]);
        i = i + 1;
        assert(out@ =~= old(out)@ + src@.subrange(0, i as int));
    }
    assert(src@.subrange(0, src@.len() as int) =~= src@);
}

/// Assembles a snapshot from the sub-metric outcomes, substituting the
/// typed sentinel for every absent value: `0` for byte counters, the
/// "error, check logs" text for text fields, the minimum finite 32-bit
/// IEEE-754 value for floating-point fields. Memory and swap hand in
/// `(total, free, detail)`; the used count is the saturating difference.
pub fn build_snapshot(
    now_nanos: u128,
    uptime_seconds: Option<u64>,
    network_report: Option<Vec<u8>>,
    socket_stats_report: Option<Vec<u8>>,
    memory: Option<(u64, u64, Vec<u8>)>,
    swap: Option<(u64, u64, Vec<u8>)>,
    cpu: Option<CpuLoadBits>,
    load_avg: Option<(u32, u32, u32)>,
    cpu_temp_bits: Option<u32>,
    disks: Vec<DiskRecord>,
) -> (s: MetricsSnapshot)
    ensures
        s.capture_time_nanos == now_nanos,
        s.uptime_seconds == (match uptime_seconds {
            Some(u) => u,
            None => 0u64,
        }),
        s.network_report@ == (match network_report {
            Some(v) => v@,
            None => text_sentinel(),
        }),
        s.socket_stats_report@ == (match socket_stats_report {
            Some(v) => v@,
            None => text_sentinel(),
        }),
        match memory {
            Some(m) => s.memory_used_bytes == spec_saturating_sub(m.0, m.1)
                && s.memory_max_bytes == m.0 && s.memory_detail@ == m.2@,
            None => s.memory_used_bytes == 0 && s.memory_max_bytes == 0 && s.memory_detail@
                == text_sentinel(),
        },
        match swap {
            Some(m) => s.swap_used_bytes == spec_saturating_sub(m.0, m.1) && s.swap_max_bytes
                == m.0 && s.swap_detail@ == m.2@,
            None => s.swap_used_bytes == 0 && s.swap_max_bytes == 0 && s.swap_detail@
                == text_sentinel(),
        },
        match cpu {
            Some(c) => s.cpu_user_pct_bits == c.user && s.cpu_nice_pct_bits == c.nice
                && s.cpu_system_pct_bits == c.system && s.cpu_intr_pct_bits == c.interrupt
                && s.cpu_idle_pct_bits == c.idle,
            None => s.cpu_user_pct_bits == F32_SENTINEL_BITS && s.cpu_nice_pct_bits
                == F32_SENTINEL_BITS && s.cpu_system_pct_bits == F32_SENTINEL_BITS
                && s.cpu_intr_pct_bits == F32_SENTINEL_BITS && s.cpu_idle_pct_bits
                == F32_SENTINEL_BITS,
        },
        match load_avg {
            Some(l) => s.load1m_bits == l.0 && s.load5m_bits == l.1 && s.load15m_bits == l.2,
            None => s.load1m_bits == F32_SENTINEL_BITS && s.load5m_bits == F32_SENTINEL_BITS
                && s.load15m_bits == F32_SENTINEL_BITS,
        },
        s.cpu_temp_bits == (match cpu_temp_bits {
            Some(b) => b,
            None => F32_SENTINEL_BITS,
        }),
        s.disks@ == disks@,
{
    let uptime = match uptime_seconds {
        Some(u) => u,
        None => 0,
    };
    let network = match network_report {
        Some(v) => v,
        None => text_sentinel_bytes(),
    };
    let socket = match socket_stats_report {
        Some(v) => v,
        None => text_sentinel_bytes(),
    };
    let (memory_used_bytes, memory_max_bytes, memory_detail) = match memory {
        Some((total, free, detail)) => (saturating_sub(total, free), total, detail),
        None => (0, 0, text_sentinel_bytes()),
    };
    let (swap_used_bytes, swap_max_bytes, swap_detail) = match swap {
        Some((total, free, detail)) => (saturating_sub(total, free), total, detail),
        None => (0, 0, text_sentinel_bytes()),
    };
    let cpu_bits = match cpu {
        Some(c) => c,
        None => CpuLoadBits {
            user: F32_SENTINEL_BITS,
            nice: F32_SENTINEL_BITS,
            system: F32_SENTINEL_BITS,
            interrupt: F32_SENTINEL_BITS,
            idle: F32_SENTINEL_BITS,
        },
    };
    let (load1m_bits, load5m_bits, load15m_bits) = match load_avg {
        Some(l) => l,
        None => (F32_SENTINEL_BITS, F32_SENTINEL_BITS, F32_SENTINEL_BITS),
    };
    let cpu_temp = match cpu_temp_bits {
        Some(b) => b,
        None => F32_SENTINEL_BITS,
    };
    MetricsSnapshot {
        capture_time_nanos: now_nanos,
        uptime_seconds: uptime,
        network_report: network,
        socket_stats_report: socket,
        memory_used_bytes,
        memory_max_bytes,
        memory_detail,
        swap_used_bytes,
        swap_max_bytes,
        swap_detail,
        cpu_user_pct_bits: cpu_bits.user,
        cpu_nice_pct_bits: cpu_bits.nice,
        cpu_system_pct_bits: cpu_bits.system,
        cpu_intr_pct_bits: cpu_bits.interrupt,
        cpu_idle_pct_bits: cpu_bits.idle,
        load1m_bits,
        load5m_bits,
        load15m_bits,
        cpu_temp_bits: cpu_temp,
        disks,
    }
}

/// One interface's block in the network report: its name, the text of its
/// addresses, and the text of its counters, each followed by a line feed.
pub open spec fn spec_network_block(e: (Seq<u8>, Seq<u8>, Seq<u8>)) -> Seq<u8> {
    e.0 + seq![10u8] + e.1 + seq![10u8] + e.2 + seq![10u8]
}

/// The network report text: the interfaces' blocks, concatenated in order.
pub open spec fn spec_network_report(es: Seq<(Seq<u8>, Seq<u8>, Seq<u8>)>) -> Seq<u8>
    decreases es.len(),
{
    if es.len() == 0 {
        seq![]
    } else {
        spec_network_block(es[0]) + spec_network_report(es.drop_first())
    }
}

/// Appending one interface entry appends its block to the report.
proof fn lemma_network_report_snoc(es: Seq<(Seq<u8>, Seq<u8>, Seq<u8>)>, e: (Seq<u8>, Seq<u8>, Seq<u8>))
    ensures
        spec_network_report(es.push(e)) == spec_network_report(es) + spec_network_block(e),
    decreases es.len(),
{
    if es.len() == 0 {
        assert(es.push(e)[0] == e);
        assert(es.push(e).drop_first() =~= Seq::<(Seq<u8>, Seq<u8>, Seq<u8>)>::empty());
        assert(spec_network_report(Seq::<(Seq<u8>, Seq<u8>, Seq<u8>)>::empty())
            == Seq::<u8>::empty());
        assert(spec_network_report(es.push(e)) =~= spec_network_report(es)
            + spec_network_block(e));
    } else {
        assert(es.push(e)[0] == es[0]);
        assert(es.push(e).drop_first() =~= es.drop_first().push(e));
        lemma_network_report_snoc(es.drop_first(), e);
        assert(spec_network_report(es.push(e)) == spec_network_block(es[0])
            + (spec_network_report(es.drop_first()) + spec_network_block(e)));
        assert(spec_network_report(es.push(e)) =~= spec_network_report(es)
            + spec_network_block(e));
    }
}

/// Assembles the network report from the gathered interface entries
/// `(name, addresses text, counters text)`: exactly one block per entry, in
/// order, as `spec_network_report` says.
pub fn assemble_network_report(entries: &Vec<(Vec<u8>, Vec<u8>, Vec<u8>)>) -> (r: Vec<u8>)
    ensures
        r@ == spec_network_report(
            entries@.map_values(|e: (Vec<u8>, Vec<u8>, Vec<u8>)| (e.0@, e.1@, e.2@)),
        ),
{
    let ghost views = entries@.map_values(|e: (Vec<u8>, Vec<u8>, Vec<u8>)| (e.0@, e.1@, e.2@));
    let mut out: Vec<u8> = Vec::new();
    let mut i: usize = 0;
    proof {
        assert(views.subrange(0, 0) =~= Seq::<(Seq<u8>, Seq<u8>, Seq<u8>)>::empty());
    }
    while i < entries.len()
        invariant
            i <= entries@.len(),
            views == entries@.map_values(|e: (Vec<u8>, Vec<u8>, Vec<u8>)| (e.0@, e.1@, e.2@)),
            out@ == spec_network_report(views.subrange(0, i as int)),
        decreases entries@.len() - i,
    {
        let ghost pre = views.subrange(0, i as int);
        append_bytes(&mut out, &entries[i].0);
        out.push(10);
        append_bytes(&mut out, &entries[i].1);
        out.push(10);
        append_bytes(&mut out, &entries[i].2);
        out.push(10);
        i = i + 1;
        proof {
            lemma_network_report_snoc(pre, views[i - 1]);
            assert(views.subrange(0, i as int) =~= pre.push(views[i - 1]));
            assert(out@ =~= spec_network_report(pre) + spec_network_block(views[i - 1]));
        }
    }
    proof {
        assert(views.subrange(0, views.len() as int) =~= views);
    }
    out
}

/// Turns the provider's disk entries `(name, total, available)` into disk
/// records: one record per entry, in provider order, the name unchanged,
/// used bytes the saturating difference of total and available, and max
/// bytes the total.
pub fn disk_records(entries: &Vec<(Vec<u8>, u64, u64)>) -> (r: Vec<DiskRecord>)
    ensures
        r@.len() == entries@.len(),
        forall|i: int|
            #![trigger r@[i]]
            0 <= i < r@.len() ==> r@[i].name@ == entries@[i].0@ && r@[i].used_bytes
                == spec_saturating_sub(entries@[i].1, entries@[i].2) && r@[i].max_bytes
                == entries@[i].1,
{
    let mut out: Vec<DiskRecord> = Vec::new();
    let mut i: usize = 0;
    while i < entries.len()
        invariant
            i <= entries@.len(),
            out@.len() == i,
            forall|j: int|
                #![trigger out@[j]]
                0 <= j < i ==> out@[j].name@ == entries@[j].0@ && out@[j].used_bytes
                    == spec_saturating_sub(entries@[j].1, entries@[j].2) && out@[j].max_bytes
                    == entries@[j].1,
        decreases entries@.len() - i,
    {
        let mut name: Vec<u8> = Vec::new();
        append_bytes(&mut name, &entries[i].0);
        let total = entries[i].1;
        let available = entries[i].2;
        let used = saturating_sub(total, available);
        out.push(DiskRecord { name, used_bytes: used, max_bytes: total });
        i = i + 1;
    }
    out
}

/// The station's process-wide state: the marker of the most recent
/// check-in, and the handles the metrics probes read through.
pub struct Station {
    sys: systemstat::System,
    disks: sysinfo::Disks,
    last_check: usize,
}

impl Station {
    /// The marker of the most recent check-in.
    pub closed spec fn spec_last_check(&self) -> usize {
        self.last_check
    }

    /// The provider handles, for frame clauses: mutators of the marker
    /// leave them untouched.
    pub closed spec fn spec_provider_handles(&self) -> (systemstat::System, sysinfo::Disks) {
        (self.sys, self.disks)
    }

    /// A fresh station with the check-in marker at zero and a refreshed
    /// disk table.
    pub fn new() -> (s: Station)
        ensures
            s.spec_last_check() == 0,
    {
        Station { sys: provider::sys_new(), disks: provider::disks_new(), last_check: 0 }
    }

    pub fn get_last_check(&mut self) -> (v: usize)
        ensures
            *final(self) == *old(self),
            v == old(self).spec_last_check(),
    {
        self.last_check
    }

    pub fn set_last_check(&mut self, value: usize)
        ensures
            final(self).spec_last_check() == value,
            final(self).spec_provider_handles() == old(self).spec_provider_handles(),
    {
        self.last_check = value;
    }

    /// Reads the primary CPU temperature probe; the caller applies the
    /// fallback policy for an implausible reading.
    pub fn probe_cpu_temp(&self) -> Option<u32> {
        provider::sys_cpu_temp_bits(&self.sys)
    }

    /// The network report text: one block per interface, assembled by
    /// `assemble_network_report` from what the probes returned; `None` when
    /// the interface table cannot be read at all. This loop only gathers
    /// the probes' machine-dependent answers; the assembly itself carries
    /// the exact contract.
    fn capture_network_report(&self) -> Option<Vec<u8>> {
        match provider::sys_network_interfaces(&self.sys) {
            None => None,
            Some(ifaces) => {
                let mut entries: Vec<(Vec<u8>, Vec<u8>, Vec<u8>)> = Vec::new();
                let mut i: usize = 0;
                while i < ifaces.len()
                    decreases ifaces@.len() - i,
                {
                    let name_bytes = ifaces[i].0.as_str().as_bytes_vec();
                    let mut addrs: Vec<u8> = Vec::new();
                    append_bytes(&mut addrs, &ifaces[i].1);
                    let stats = provider::sys_network_stats_text(
                        &self.sys,
                        ifaces[i].0.as_str(),
                    );
                    entries.push((name_bytes, addrs, stats));
                    i = i + 1;
                }
                Some(assemble_network_report(&entries))
            },
        }
    }

    /// The mounted disks, mapped by `disk_records`: one record per entry
    /// the provider handed back, in provider order, with used bytes the
    /// saturating difference of total and available and max bytes the
    /// total. Whatever the provider returns, used never exceeds max.
    fn capture_disks(&self) -> (r: Vec<DiskRecord>)
        ensures
            forall|i: int|
                0 <= i < r@.len() ==> #[trigger] r@[i].used_bytes <= r@[i].max_bytes,
    {
        let raw = provider::disks_list(&self.disks);
        let out = disk_records(&raw);
        proof {
            assert forall|i: int| 0 <= i < out@.len() implies #[trigger] out@[i].used_bytes
                <= out@[i].max_bytes by {
                assert(out@[i].used_bytes == spec_saturating_sub(raw@[i].1, raw@[i].2));
            }
        }
        out
    }

    /// Captures one snapshot. Each sub-metric is probed independently and a
    /// failing probe degrades to its sentinel, as `build_snapshot` states;
    /// the capture time, the CPU load and the resolved CPU temperature are
    /// the caller's measurements and land in the snapshot unchanged (or as
    /// the sentinel where the caller has none).
    pub fn capture_snapshot(
        &self,
        now_nanos: u128,
        cpu: Option<CpuLoadBits>,
        cpu_temp_bits: Option<u32>,
    ) -> (s: MetricsSnapshot)
        ensures
            s.capture_time_nanos == now_nanos,
            match cpu {
                Some(c) => s.cpu_user_pct_bits == c.user && s.cpu_nice_pct_bits == c.nice
                    && s.cpu_system_pct_bits == c.system && s.cpu_intr_pct_bits == c.interrupt
                    && s.cpu_idle_pct_bits == c.idle,
                None => s.cpu_user_pct_bits == F32_SENTINEL_BITS && s.cpu_nice_pct_bits
                    == F32_SENTINEL_BITS && s.cpu_system_pct_bits == F32_SENTINEL_BITS
                    && s.cpu_intr_pct_bits == F32_SENTINEL_BITS && s.cpu_idle_pct_bits
                    == F32_SENTINEL_BITS,
            },
            s.cpu_temp_bits == (match cpu_temp_bits {
                Some(b) => b,
                None => F32_SENTINEL_BITS,
            }),
            forall|i: int|
                0 <= i < s.disks@.len() ==> #[trigger] s.disks@[i].used_bytes
                    <= s.disks@[i].max_bytes,
    {
        let uptime = provider::sys_uptime_seconds(&self.sys);
        let network = self.capture_network_report();
        let socket = provider::sys_socket_stats_text(&self.sys);
        let memory = provider::sys_memory(&self.sys);
        let swap = provider::sys_swap(&self.sys);
        let load = provider::sys_load_average_bits(&self.sys);
        let disks = self.capture_disks();
        build_snapshot(
            now_nanos,
            uptime,
            network,
            socket,
            memory,
            swap,
            cpu,
            load,
            cpu_temp_bits,
            disks,
        )
    }
}

} // verus!
