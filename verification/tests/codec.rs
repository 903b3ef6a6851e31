use xbfisher_station::codec::{decode_snapshot, encode_snapshot, DiskRecord, MetricsSnapshot};

fn sample_snapshot() -> MetricsSnapshot {
    MetricsSnapshot {
        capture_time_nanos: 1_700_000_123_456_789_000_111u128,
        uptime_seconds: 987654,
        network_report: b"eth0\n10.0.0.2\nok\n".to_vec(),
        socket_stats_report: b"tcp in use: 17".to_vec(),
        memory_used_bytes: 3_221_225_472,
        memory_max_bytes: 8_589_934_592,
        memory_detail: b"cached: lots".to_vec(),
        swap_used_bytes: 0,
        swap_max_bytes: 2_147_483_648,
        swap_detail: b"swap detail".to_vec(),
        cpu_user_pct_bits: 12.5f32.to_bits(),
        cpu_nice_pct_bits: 0.0f32.to_bits(),
        cpu_system_pct_bits: 3.25f32.to_bits(),
        cpu_intr_pct_bits: 0.5f32.to_bits(),
        cpu_idle_pct_bits: 83.75f32.to_bits(),
        load1m_bits: 1.5f32.to_bits(),
        load5m_bits: 0.75f32.to_bits(),
        load15m_bits: 0.25f32.to_bits(),
        cpu_temp_bits: 45.5f32.to_bits(),
        disks: vec![
            DiskRecord { name: b"\"/dev/sda1\"".to_vec(), used_bytes: 100, max_bytes: 500 },
            DiskRecord { name: b"\"/dev/sda2\"".to_vec(), used_bytes: 0, max_bytes: 1 },
        ],
    }
}

#[test]
fn round_trip_preserves_every_field() {
    let snap = sample_snapshot();
    let bytes = encode_snapshot(&snap);
    let back = decode_snapshot(bytes.as_slice()).expect("a fresh encoding must decode");
    assert_eq!(back, snap);
    assert_eq!(back.capture_time_nanos, 1_700_000_123_456_789_000_111u128);
    assert_eq!(f32::from_bits(back.cpu_user_pct_bits), 12.5f32);
    assert_eq!(f32::from_bits(back.cpu_temp_bits), 45.5f32);
    assert_eq!(back.disks.len(), 2);
    assert_eq!(back.disks[0].name, b"\"/dev/sda1\"".to_vec());
}

#[test]
fn encoding_is_idempotent() {
    let snap = sample_snapshot();
    let first = encode_snapshot(&snap);
    let second = encode_snapshot(&snap);
    assert_eq!(first, second);
}

#[test]
fn zero_disks_encode_a_zero_count_and_no_records() {
    let mut snap = sample_snapshot();
    snap.disks = Vec::new();
    let bytes = encode_snapshot(&snap);
    assert_eq!(*bytes.last().unwrap(), 0u8);
    let back = decode_snapshot(bytes.as_slice()).unwrap();
    assert_eq!(back.disks.len(), 0);
}

#[test]
fn n_disks_encode_exactly_n_records() {
    let mut snap = sample_snapshot();
    snap.disks = (0..5)
        .map(|i| DiskRecord { name: vec![b'd', b'0' + i], used_bytes: i as u64, max_bytes: 10 })
        .collect();
    let bytes = encode_snapshot(&snap);
    let back = decode_snapshot(bytes.as_slice()).unwrap();
    assert_eq!(back.disks.len(), 5);
    assert_eq!(back.disks, snap.disks);
}

#[test]
fn long_text_uses_a_multibyte_length_prefix_and_still_round_trips() {
    let mut snap = sample_snapshot();
    snap.network_report = vec![b'x'; 300];
    let bytes = encode_snapshot(&snap);
    let back = decode_snapshot(bytes.as_slice()).unwrap();
    assert_eq!(back.network_report.len(), 300);
    assert_eq!(back, snap);
}

#[test]
fn truncated_input_is_rejected() {
    let snap = sample_snapshot();
    let mut bytes = encode_snapshot(&snap);
    bytes.pop();
    assert!(decode_snapshot(bytes.as_slice()).is_none());
}

#[test]
fn trailing_garbage_is_rejected() {
    let snap = sample_snapshot();
    let mut bytes = encode_snapshot(&snap);
    bytes.push(0);
    assert!(decode_snapshot(bytes.as_slice()).is_none());
}

#[test]
fn empty_input_is_rejected() {
    assert!(decode_snapshot(&[]).is_none());
}

#[test]
fn varint_encoding_matches_the_leb128_layout() {
    let mut out = Vec::new();
    xbfisher_station::codec::encode_varint(0, &mut out);
    assert_eq!(out, vec![0x00]);
    let mut out = Vec::new();
    xbfisher_station::codec::encode_varint(127, &mut out);
    assert_eq!(out, vec![0x7f]);
    let mut out = Vec::new();
    xbfisher_station::codec::encode_varint(128, &mut out);
    assert_eq!(out, vec![0x80, 0x01]);
    let mut out = Vec::new();
    xbfisher_station::codec::encode_varint(300, &mut out);
    assert_eq!(out, vec![0xac, 0x02]);
}

#[test]
fn the_wire_layout_is_frozen() {
    let snap = MetricsSnapshot {
        capture_time_nanos: 1,
        uptime_seconds: 2,
        network_report: Vec::new(),
        socket_stats_report: Vec::new(),
        memory_used_bytes: 3,
        memory_max_bytes: 4,
        memory_detail: Vec::new(),
        swap_used_bytes: 5,
        swap_max_bytes: 6,
        swap_detail: Vec::new(),
        cpu_user_pct_bits: 7,
        cpu_nice_pct_bits: 8,
        cpu_system_pct_bits: 9,
        cpu_intr_pct_bits: 10,
        cpu_idle_pct_bits: 11,
        load1m_bits: 12,
        load5m_bits: 13,
        load15m_bits: 14,
        cpu_temp_bits: 15,
        disks: Vec::new(),
    };
    let mut expected: Vec<u8> = Vec::new();
    expected.extend_from_slice(&1u128.to_le_bytes());
    expected.extend_from_slice(&2u64.to_le_bytes());
    expected.push(0); // empty network report
    expected.push(0); // empty socket stats report
    expected.extend_from_slice(&3u64.to_le_bytes());
    expected.extend_from_slice(&4u64.to_le_bytes());
    expected.push(0); // empty memory detail
    expected.extend_from_slice(&5u64.to_le_bytes());
    expected.extend_from_slice(&6u64.to_le_bytes());
    expected.push(0); // empty swap detail
    for bits in 7u32..=15u32 {
        expected.extend_from_slice(&bits.to_le_bytes());
    }
    expected.push(0); // zero disks
    assert_eq!(encode_snapshot(&snap), expected);
    assert_eq!(expected.len(), 97);
}
