use xbfisher_station::tcpserver::{SendState, MAX_SEND_ATTEMPTS};

#[test]
fn partial_write_retries_only_the_unwritten_suffix() {
    let mut st = SendState::new(b"ALIVE".to_vec());
    assert_eq!(st.pending(), b"ALIVE".to_vec());

    // First attempt reports 2 of 5 bytes written.
    let first_chunk = st.pending();
    let done = st.record_write(2);
    assert!(!done);
    assert_eq!(st.pending(), b"IVE".to_vec());

    // The retry carries the remaining 3 bytes.
    let second_chunk = st.pending();
    let done = st.record_write(3);
    assert!(done);
    assert!(st.is_done());

    // The cumulative bytes on the wire equal the payload.
    let mut wire: Vec<u8> = Vec::new();
    wire.extend_from_slice(&first_chunk[..2]);
    wire.extend_from_slice(&second_chunk[..3]);
    assert_eq!(wire, b"ALIVE".to_vec());
}

#[test]
fn a_full_write_finishes_in_one_attempt() {
    let mut st = SendState::new(b"ALIVE".to_vec());
    let done = st.record_write(5);
    assert!(done);
    assert!(st.is_done());
    assert_eq!(st.pending(), Vec::<u8>::new());
}

#[test]
fn attempts_are_bounded() {
    let mut st = SendState::new(b"ALIVE".to_vec());
    assert!(!st.attempts_exhausted());
    for _ in 0..MAX_SEND_ATTEMPTS {
        assert!(!st.attempts_exhausted());
        let done = st.record_write(0);
        assert!(!done);
    }
    assert!(st.attempts_exhausted());
    assert!(!st.is_done());
}

#[test]
fn an_empty_payload_is_done_immediately() {
    let st = SendState::new(Vec::new());
    assert!(st.is_done());
    assert_eq!(st.pending(), Vec::<u8>::new());
}
