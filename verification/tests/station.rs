use systemstat::Platform;
use xbfisher_station::codec::{decode_snapshot, DiskRecord};
use xbfisher_station::commands::{check_alive, classify, req_diag, Command};
use xbfisher_station::station::{
    assemble_network_report, build_snapshot, disk_records, CpuLoadBits, Station,
    F32_SENTINEL_BITS,
};

#[test]
fn the_float_sentinel_is_the_minimum_finite_value() {
    assert_eq!(f32::from_bits(F32_SENTINEL_BITS), f32::MIN);
}

#[test]
fn build_snapshot_substitutes_sentinels_for_every_failed_probe() {
    let s = build_snapshot(7, None, None, None, None, None, None, None, None, Vec::new());
    assert_eq!(s.capture_time_nanos, 7);
    assert_eq!(s.uptime_seconds, 0);
    assert_eq!(s.network_report, b"error, check logs".to_vec());
    assert_eq!(s.socket_stats_report, b"error, check logs".to_vec());
    assert_eq!(s.memory_used_bytes, 0);
    assert_eq!(s.memory_max_bytes, 0);
    assert_eq!(s.memory_detail, b"error, check logs".to_vec());
    assert_eq!(s.swap_used_bytes, 0);
    assert_eq!(s.swap_max_bytes, 0);
    assert_eq!(s.swap_detail, b"error, check logs".to_vec());
    assert_eq!(s.cpu_user_pct_bits, F32_SENTINEL_BITS);
    assert_eq!(s.cpu_nice_pct_bits, F32_SENTINEL_BITS);
    assert_eq!(s.cpu_system_pct_bits, F32_SENTINEL_BITS);
    assert_eq!(s.cpu_intr_pct_bits, F32_SENTINEL_BITS);
    assert_eq!(s.cpu_idle_pct_bits, F32_SENTINEL_BITS);
    assert_eq!(s.load1m_bits, F32_SENTINEL_BITS);
    assert_eq!(s.load5m_bits, F32_SENTINEL_BITS);
    assert_eq!(s.load15m_bits, F32_SENTINEL_BITS);
    assert_eq!(s.cpu_temp_bits, F32_SENTINEL_BITS);
    assert!(s.disks.is_empty());
}

#[test]
fn build_snapshot_keeps_every_observed_value() {
    let cpu = CpuLoadBits {
        user: 10.0f32.to_bits(),
        nice: 1.0f32.to_bits(),
        system: 5.0f32.to_bits(),
        interrupt: 0.5f32.to_bits(),
        idle: 83.5f32.to_bits(),
    };
    let disks = vec![DiskRecord { name: b"sda".to_vec(), used_bytes: 3, max_bytes: 9 }];
    let s = build_snapshot(
        42,
        Some(1000),
        Some(b"net".to_vec()),
        Some(b"sock".to_vec()),
        Some((100, 30, b"memdetail".to_vec())),
        Some((50, 60, b"swapdetail".to_vec())),
        Some(cpu),
        Some((1.0f32.to_bits(), 2.0f32.to_bits(), 3.0f32.to_bits())),
        Some(45.5f32.to_bits()),
        disks.clone(),
    );
    assert_eq!(s.uptime_seconds, 1000);
    assert_eq!(s.network_report, b"net".to_vec());
    assert_eq!(s.socket_stats_report, b"sock".to_vec());
    // Used memory is total less free.
    assert_eq!(s.memory_used_bytes, 70);
    assert_eq!(s.memory_max_bytes, 100);
    // The swap difference saturates at zero when free exceeds total.
    assert_eq!(s.swap_used_bytes, 0);
    assert_eq!(s.swap_max_bytes, 50);
    assert_eq!(s.cpu_user_pct_bits, 10.0f32.to_bits());
    assert_eq!(s.cpu_idle_pct_bits, 83.5f32.to_bits());
    assert_eq!(s.load15m_bits, 3.0f32.to_bits());
    assert_eq!(s.cpu_temp_bits, 45.5f32.to_bits());
    assert_eq!(s.disks, disks);
}

#[test]
fn last_check_marker_is_settable_and_readable() {
    let mut st = Station::new();
    assert_eq!(st.get_last_check(), 0);
    st.set_last_check(42);
    assert_eq!(st.get_last_check(), 42);
}

#[test]
fn check_alive_resets_the_marker_and_replies_alive() {
    let mut st = Station::new();
    st.set_last_check(99);
    let reply = check_alive(&mut st);
    assert_eq!(st.get_last_check(), 0);
    assert_eq!(reply, b"ALIVE".to_vec());
    assert_eq!(reply.len(), 5);
}

#[test]
fn a_noisy_diag_request_resets_the_marker_and_yields_a_decodable_reply() {
    assert_eq!(classify(b"xxxREQDIAGxxx"), Command::Diag);
    let mut st = Station::new();
    st.set_last_check(7);
    let now: u128 = 1_700_000_000_000_000_000;
    let cpu = Some(CpuLoadBits {
        user: 25.0f32.to_bits(),
        nice: 0.0f32.to_bits(),
        system: 10.0f32.to_bits(),
        interrupt: 0.0f32.to_bits(),
        idle: 65.0f32.to_bits(),
    });
    let (snap, reply) = req_diag(&mut st, now, cpu, Some(40.0f32.to_bits()));
    assert_eq!(st.get_last_check(), 0);
    let decoded = decode_snapshot(reply.as_slice()).expect("the reply must decode");
    assert_eq!(decoded, snap);
    assert_eq!(decoded.capture_time_nanos, now);
    assert_eq!(f32::from_bits(decoded.cpu_user_pct_bits), 25.0);
    assert_eq!(f32::from_bits(decoded.cpu_temp_bits), 40.0);
    // The decoded uptime matches an independently observed host uptime,
    // within a small skew, whenever the host exposes one.
    if let Ok(independent) = systemstat::System::new().uptime() {
        let observed = independent.as_secs();
        let reported = decoded.uptime_seconds;
        assert!(
            reported.abs_diff(observed) <= 5,
            "reported {reported}s vs observed {observed}s"
        );
    }
}

#[test]
fn disk_records_map_each_provider_entry_in_order() {
    let entries = vec![
        (b"sda".to_vec(), 500u64, 400u64),
        (b"sdb".to_vec(), 100u64, 0u64),
        // The provider may report more available than total; the
        // difference saturates at zero.
        (b"odd".to_vec(), 10u64, 30u64),
    ];
    let records = disk_records(&entries);
    assert_eq!(records.len(), 3);
    assert_eq!(
        records[0],
        DiskRecord { name: b"sda".to_vec(), used_bytes: 100, max_bytes: 500 }
    );
    assert_eq!(
        records[1],
        DiskRecord { name: b"sdb".to_vec(), used_bytes: 100, max_bytes: 100 }
    );
    assert_eq!(
        records[2],
        DiskRecord { name: b"odd".to_vec(), used_bytes: 0, max_bytes: 10 }
    );
}

#[test]
fn disk_records_of_no_entries_are_empty() {
    assert!(disk_records(&Vec::new()).is_empty());
}

#[test]
fn the_network_report_is_one_block_per_interface_in_order() {
    let entries = vec![
        (b"eth0".to_vec(), b"10.0.0.2".to_vec(), b"rx 5 tx 9".to_vec()),
        (b"lo".to_vec(), b"127.0.0.1".to_vec(), b"rx 1 tx 1".to_vec()),
    ];
    let report = assemble_network_report(&entries);
    assert_eq!(
        report,
        b"eth0\n10.0.0.2\nrx 5 tx 9\nlo\n127.0.0.1\nrx 1 tx 1\n".to_vec()
    );
}

#[test]
fn the_network_report_of_no_interfaces_is_empty() {
    assert!(assemble_network_report(&Vec::new()).is_empty());
}
