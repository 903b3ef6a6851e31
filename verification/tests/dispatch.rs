use xbfisher_station::commands::{classify, Command};
use xbfisher_station::tcpserver::{plan_request, RequestPlan};

#[test]
fn req_diag_token_selects_diag() {
    assert_eq!(classify(b"REQDIAG"), Command::Diag);
}

#[test]
fn noise_around_the_token_still_selects_diag() {
    assert_eq!(classify(b"xxxREQDIAGxxx"), Command::Diag);
}

#[test]
fn check_alive_token_selects_check_alive() {
    assert_eq!(classify(b"CHECKAL"), Command::CheckAlive);
}

#[test]
fn req_diag_takes_priority_over_check_alive() {
    assert_eq!(classify(b"CHECKAL REQDIAG"), Command::Diag);
    assert_eq!(classify(b"REQDIAG CHECKAL"), Command::Diag);
}

#[test]
fn unknown_text_is_unrecognized() {
    assert_eq!(classify(b"FOOBAR"), Command::Unrecognized);
}

#[test]
fn empty_buffer_is_unrecognized() {
    assert_eq!(classify(b""), Command::Unrecognized);
}

#[test]
fn invalid_utf8_is_unrecognized() {
    assert_eq!(classify(&[0xff, 0xfe, b'R']), Command::Unrecognized);
    // The token is present as bytes, but the buffer is not UTF-8 text.
    let mut buf = b"REQDIAG".to_vec();
    buf.push(0xff);
    assert_eq!(classify(buf.as_slice()), Command::Unrecognized);
}

#[test]
fn trailing_zero_bytes_from_the_read_buffer_are_harmless() {
    let mut buf = [0u8; 256];
    buf[..7].copy_from_slice(b"CHECKAL");
    assert_eq!(classify(&buf), Command::CheckAlive);
    let mut buf2 = [0u8; 256];
    buf2[..7].copy_from_slice(b"REQDIAG");
    assert_eq!(classify(&buf2), Command::Diag);
}

#[test]
fn non_ipv4_peers_are_dropped_before_classification() {
    assert_eq!(plan_request(false, b"CHECKAL"), RequestPlan::DropNonIpv4);
    assert_eq!(plan_request(false, b"REQDIAG"), RequestPlan::DropNonIpv4);
}

#[test]
fn ipv4_peers_get_their_buffer_classified() {
    assert_eq!(plan_request(true, b"CHECKAL"), RequestPlan::Serve(Command::CheckAlive));
    assert_eq!(plan_request(true, b"FOOBAR"), RequestPlan::Serve(Command::Unrecognized));
}
