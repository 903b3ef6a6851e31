//! Trusted boundary to the host-metrics crates.
//!
//! Every value handed back here depends on the host and the moment it is
//! read, so no contract can pin it down; the verified snapshot assembly in
//! `station` therefore takes these results as given and is proved for every
//! value they may take. Each wrapper names the outside call it relies on.

use vstd::prelude::*;

verus! {

#[verifier::external_type_specification]
#[verifier::external_body]
pub struct ExSystem(systemstat::System);

#[verifier::external_type_specification]
#[verifier::external_body]
pub struct ExDisks(sysinfo::Disks);

#[verifier::external_type_specification]
#[verifier::external_body]
pub struct ExDisk(sysinfo::Disk);

/// Relies on systemstat's `Platform::new`: builds the handle that every
/// probe below reads through.
#[verifier::external_body]
pub(crate) fn sys_new() -> systemstat::System {
    <systemstat::System as systemstat::Platform>::new()
}

/// Relies on systemstat's `Platform::uptime`: how long the host has been
/// up, handed back in whole seconds; `None` when the probe fails.
#[verifier::external_body]
pub(crate) fn sys_uptime_seconds(sys: &systemstat::System) -> Option<u64> {
    match systemstat::Platform::uptime(sys) {
        Ok(d) => Some(d.as_secs()),
        Err(_) => None,
    }
}

/// Relies on systemstat's `Platform::networks`: the interface table, each
/// entry handed out as the interface's name beside the debug text of its
/// addresses; `None` when the probe fails.
#[verifier::external_body]
pub(crate) fn sys_network_interfaces(sys: &systemstat::System) -> Option<Vec<(String, Vec<u8>)>> {
    match systemstat::Platform::networks(sys) {
        Ok(map) => Some(
            map.values().map(
                |n| (n.name.clone(), format!("{:?}", n.addrs).into_bytes()),
            ).collect(),
        ),
        Err(_) => None,
    }
}

/// Relies on systemstat's `Platform::network_stats`: one interface's
/// counters, handed back as the outcome's debug text whether the probe
/// succeeded or failed.
#[verifier::external_body]
pub(crate) fn sys_network_stats_text(sys: &systemstat::System, interface: &str) -> Vec<u8> {
    format!("{:?}", systemstat::Platform::network_stats(sys, interface)).into_bytes()
}

/// Relies on systemstat's `Platform::socket_stats`: the socket counters,
/// handed back as debug text; `None` when the probe fails.
#[verifier::external_body]
pub(crate) fn sys_socket_stats_text(sys: &systemstat::System) -> Option<Vec<u8>> {
    match systemstat::Platform::socket_stats(sys) {
        Ok(s) => Some(format!("{:?}", s).into_bytes()),
        Err(_) => None,
    }
}

/// Relies on systemstat's `Platform::memory`: total and free byte counts
/// (via `ByteSize::as_u64`) and the platform detail as debug text; `None`
/// when the probe fails.
#[verifier::external_body]
pub(crate) fn sys_memory(sys: &systemstat::System) -> Option<(u64, u64, Vec<u8>)> {
    match systemstat::Platform::memory(sys) {
        Ok(m) => Some(
            (m.total.as_u64(), m.free.as_u64(), format!("{:?}", m.platform_memory).into_bytes()),
        ),
        Err(_) => None,
    }
}

/// Relies on systemstat's `Platform::swap`: total and free byte counts (via
/// `ByteSize::as_u64`) and the platform detail as debug text; `None` when
/// the probe fails.
#[verifier::external_body]
pub(crate) fn sys_swap(sys: &systemstat::System) -> Option<(u64, u64, Vec<u8>)> {
    match systemstat::Platform::swap(sys) {
        Ok(s) => Some(
            (s.total.as_u64(), s.free.as_u64(), format!("{:?}", s.platform_swap).into_bytes()),
        ),
        Err(_) => None,
    }
}

/// Relies on systemstat's `Platform::load_average`: the one-, five- and
/// fifteen-minute run-queue averages, handed back as raw 32-bit IEEE-754
/// bit patterns; `None` when the probe fails.
#[verifier::external_body]
pub(crate) fn sys_load_average_bits(sys: &systemstat::System) -> Option<(u32, u32, u32)> {
    match systemstat::Platform::load_average(sys) {
        Ok(l) => Some((l.one.to_bits(), l.five.to_bits(), l.fifteen.to_bits())),
        Err(_) => None,
    }
}

/// Relies on systemstat's `Platform::cpu_temp`: degrees Celsius from the
/// host's first thermal probe, handed back as a raw 32-bit IEEE-754 bit
/// pattern; `None` when no probe can be read.
#[verifier::external_body]
pub(crate) fn sys_cpu_temp_bits(sys: &systemstat::System) -> Option<u32> {
    match systemstat::Platform::cpu_temp(sys) {
        Ok(t) => Some(t.to_bits()),
        Err(_) => None,
    }
}

/// Relies on sysinfo's `Disks::new_with_refreshed_list`: the mounted disk
/// table, refreshed once at construction.
#[verifier::external_body]
pub(crate) fn disks_new() -> sysinfo::Disks {
    sysinfo::Disks::new_with_refreshed_list()
}

/// Relies on sysinfo's `Disks::list` and the `Disk` accessors `name`,
/// `total_space` and `available_space`: one entry per mounted disk, the
/// name as its debug text beside the total and available byte counts.
#[verifier::external_body]
pub(crate) fn disks_list(disks: &sysinfo::Disks) -> Vec<(Vec<u8>, u64, u64)> {
    disks.list().iter().map(
        |d| (format!("{:?}", d.name()).into_bytes(), d.total_space(), d.available_space()),
    ).collect()
}

} // verus!
