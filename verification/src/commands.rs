//! Command classification and the request handlers.
//!
//! An inbound buffer is decoded as UTF-8 text and matched by substring
//! containment, in a fixed priority order: a buffer containing `REQDIAG`
//! is a diagnostic request even when `CHECKAL` also occurs; a buffer that is
//! not valid UTF-8, or contains neither token, is unrecognized and receives
//! no reply. Matching is substring containment rather than an exact token,
//! so the trailing zero bytes of a fixed-size read buffer are harmless.

use crate::codec::{encode_snapshot, spec_enc_snapshot, MetricsSnapshot};
use crate::station::{CpuLoadBits, Station, F32_SENTINEL_BITS};
use vstd::prelude::*;
use vstd::utf8::valid_utf8;

verus! {

/// The classification of one inbound buffer.
#[derive(PartialEq, Eq, Structural, Debug, Clone, Copy)]
pub enum Command {
    Diag,
    CheckAlive,
    Unrecognized,
}

/// The ASCII bytes of `REQDIAG`.
pub open spec fn req_diag_token() -> Seq<u8> {
    seq![82u8, 69u8, 81u8, 68u8, 73u8, 65u8, 71u8]
}

/// The ASCII bytes of `CHECKAL`.
pub open spec fn check_alive_token() -> Seq<u8> {
    seq![67u8, 72u8, 69u8, 67u8, 75u8, 65u8, 76u8]
}

/// The ASCII bytes of the liveness reply `ALIVE`.
pub open spec fn alive_token() -> Seq<u8> {
    seq![65u8, 76u8, 73u8, 86u8, 69u8]
}

/// `needle` occurs somewhere in `hay` as a contiguous run of bytes.
pub open spec fn contains_token(hay: Seq<u8>, needle: Seq<u8>) -> bool {
    exists|i: int|
        0 <= i && i + needle.len() <= hay.len() && #[trigger] hay.subrange(i, i + needle.len())
            == needle
}

/// What a buffer classifies as: invalid UTF-8 is unrecognized; otherwise
/// `REQDIAG` takes priority over `CHECKAL`; neither token is unrecognized.
pub open spec fn classify_spec(bytes: Seq<u8>) -> Command {
    if !valid_utf8(bytes) {
        Command::Unrecognized
    } else if contains_token(bytes, req_diag_token()) {
        Command::Diag
    } else if contains_token(bytes, check_alive_token()) {
        Command::CheckAlive
    } else {
        Command::Unrecognized
    }
}

fn req_diag_bytes() -> (v: Vec<u8>)
    ensures
        v@ == req_diag_token(),
{
    let mut v: Vec<u8> = Vec::new();
    v.push(82);
    v.push(69);
    v.push(81);
    v.push(68);
    v.push(73);
    v.push(65);
    v.push(71);
    proof {
        assert(v@ =~= req_diag_token());
    }
    v
}

fn check_alive_bytes() -> (v: Vec<u8>)
    ensures
        v@ == check_alive_token(),
{
    let mut v: Vec<u8> = Vec::new();
    v.push(67);
    v.push(72);
    v.push(69);
    v.push(67);
    v.push(75);
    v.push(65);
    v.push(76);
    proof {
        assert(v@ =~= check_alive_token());
    }
    v
}

/// The liveness reply, exactly the five ASCII bytes `ALIVE`.
pub fn alive_bytes() -> (v: Vec<u8>)
    ensures
        v@ == alive_token(),
        v@.len() == 5,
{
    let mut v: Vec<u8> = Vec::new();
    v.push(65);
    v.push(76);
    v.push(73);
    v.push(86);
    v.push(69);
    proof {
        assert(v@ =~= alive_token());
    }
    v
}

/// Relies on `core::str::from_utf8`: it returns `Ok` exactly on byte
/// sequences that are valid UTF-8, the property `vstd::utf8::valid_utf8`
/// models.
#[verifier::external_body]
fn bytes_are_utf8(b: &[u8]) -> (r: bool)
    ensures
        r == valid_utf8(b@),
{
    core::str::from_utf8(b).is_ok()
}

pub(crate) fn matches_at(hay: &[u8], needle: &[u8], i: usize) -> (r: bool)
    requires
        i + needle@.len() <= hay@.len(),
    ensures
        r == (hay@.subrange(i as int, i as int + needle@.len() as int) == needle@),
{
    let ghost sub = hay@.subrange(i as int, i as int + needle@.len() as int);
    proof {
        assert(hay.len() == hay@.len());
    }
    let mut k: usize = 0;
    while k < needle.len()
        invariant
            k <= needle@.len(),
            i + needle@.len() <= hay@.len(),
            hay@.len() <= usize::MAX,
            sub == hay@.subrange(i as int, i as int + needle@.len() as int),
            forall|j: int| 0 <= j < k ==> sub[j] == needle@[j],
        decreases needle@.len() - k,
    {
        if hay[i + k] != needle[k] {
            proof {
                assert(sub[k as int] == hay@[i + k]);
                assert(sub[k as int] != needle@[k as int]);
            }
            return false;
        }
        proof {
            assert(sub[k as int] == hay@[i + k]);
        }
        k = k + 1;
    }
    proof {
        assert(sub =~= needle@);
    }
    true
}

fn contains_subseq(hay: &[u8], needle: &[u8]) -> (r: bool)
    ensures
        r == contains_token(hay@, needle@),
{
    if needle.len() == 0 {
        proof {
            assert(hay@.subrange(0, 0 + needle@.len() as int) =~= needle@);
        }
        return true;
    }
    if needle.len() > hay.len() {
        return false;
    }
    let last = hay.len() - needle.len();
    let mut i: usize = 0;
    while i <= last
        invariant
            1 <= needle@.len() <= hay@.len(),
            last == hay@.len() - needle@.len(),
            last < usize::MAX,
            i <= last + 1,
            forall|j: int|
                0 <= j < i ==> #[trigger] hay@.subrange(j, j + needle@.len() as int) != needle@,
        decreases last + 1 - i,
    {
        if matches_at(hay, needle, i) {
            proof {
                assert(hay@.subrange(i as int, i as int + needle@.len() as int) == needle@);
            }
            return true;
        }
        i = i + 1;
    }
    false
}

/// Classifies one inbound buffer, exactly as `classify_spec` says: text
/// containing `REQDIAG` is a diagnostic request; otherwise text containing
/// `CHECKAL` is a liveness check; anything else, including non-UTF-8 bytes,
/// is unrecognized.
pub fn classify(buf: &[u8]) -> (c: Command)
    ensures
        c == classify_spec(buf@),
{
    if !bytes_are_utf8(buf) {
        return Command::Unrecognized;
    }
    let rd = req_diag_bytes();
    if contains_subseq(buf, rd.as_slice()) {
        return Command::Diag;
    }
    let ca = check_alive_bytes();
    if contains_subseq(buf, ca.as_slice()) {
        return Command::CheckAlive;
    }
    Command::Unrecognized
}

/// Serves a liveness check: resets the station's check-in marker to zero
/// and hands back exactly the five bytes `ALIVE` to send.
pub fn check_alive(station: &mut Station) -> (reply: Vec<u8>)
    ensures
        final(station).spec_last_check() == 0,
        final(station).spec_provider_handles() == old(station).spec_provider_handles(),
        reply@ == alive_token(),
        reply@.len() == 5,
{
    station.set_last_check(0);
    alive_bytes()
}

/// Serves a diagnostic request: resets the station's check-in marker to
/// zero, captures a snapshot stamped with the caller's capture time, CPU
/// load and resolved CPU temperature, and hands back the snapshot beside
/// its exact wire encoding.
pub fn req_diag(
    station: &mut Station,
    now_nanos: u128,
    cpu: Option<CpuLoadBits>,
    cpu_temp_bits: Option<u32>,
) -> (r: (MetricsSnapshot, Vec<u8>))
    ensures
        final(station).spec_last_check() == 0,
        final(station).spec_provider_handles() == old(station).spec_provider_handles(),
        r.1@ == spec_enc_snapshot(r.0@),
        r.0.capture_time_nanos == now_nanos,
        match cpu {
            Some(c) => r.0.cpu_user_pct_bits == c.user && r.0.cpu_nice_pct_bits == c.nice
                && r.0.cpu_system_pct_bits == c.system && r.0.cpu_intr_pct_bits == c.interrupt
                && r.0.cpu_idle_pct_bits == c.idle,
            None => r.0.cpu_user_pct_bits == F32_SENTINEL_BITS && r.0.cpu_nice_pct_bits
                == F32_SENTINEL_BITS && r.0.cpu_system_pct_bits == F32_SENTINEL_BITS
                && r.0.cpu_intr_pct_bits == F32_SENTINEL_BITS && r.0.cpu_idle_pct_bits
                == F32_SENTINEL_BITS,
        },
        r.0.cpu_temp_bits == (match cpu_temp_bits {
            Some(b) => b,
            None => F32_SENTINEL_BITS,
        }),
        forall|i: int|
            0 <= i < r.0.disks@.len() ==> #[trigger] r.0.disks@[i].used_bytes
                <= r.0.disks@[i].max_bytes,
{
    station.set_last_check(0);
    let snap = station.capture_snapshot(now_nanos, cpu, cpu_temp_bits);
    let reply = encode_snapshot(&snap);
    (snap, reply)
}

} // verus!
