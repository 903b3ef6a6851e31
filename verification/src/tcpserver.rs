//! The acceptor's per-connection decision and the reply transmission
//! protocol.
//!
//! A reply is pushed out by a bounded retry loop: after a short write only
//! the unwritten suffix is retried, and after `MAX_SEND_ATTEMPTS` recorded
//! writes the send is abandoned with an explicit failure. `SendState` is the
//! verified core of that loop; the caller performs the socket writes and
//! reports each write's byte count back.

use crate::commands::{classify, classify_spec, Command};
use vstd::prelude::*;

verus! {

/// Most write attempts the transport makes for one reply, the first write
/// included; one more short write after that abandons the send.
pub const MAX_SEND_ATTEMPTS: u32 = 8;

/// What the acceptor does with one accepted connection.
#[derive(PartialEq, Eq, Structural, Debug, Clone, Copy)]
pub enum RequestPlan {
    /// A peer that is not IPv4 is dropped with no reply.
    DropNonIpv4,
    /// An IPv4 peer's buffer is classified and the command served.
    Serve(Command),
}

/// The acceptor's per-connection decision: a non-IPv4 peer is dropped before
/// the buffer is looked at; an IPv4 peer's buffer is classified.
pub fn plan_request(peer_is_ipv4: bool, buf: &[u8]) -> (p: RequestPlan)
    ensures
        !peer_is_ipv4 ==> p == RequestPlan::DropNonIpv4,
        peer_is_ipv4 ==> p == RequestPlan::Serve(classify_spec(buf@)),
{
    if !peer_is_ipv4 {
        RequestPlan::DropNonIpv4
    } else {
        RequestPlan::Serve(classify(buf))
    }
}

/// The progress of one reply through the transport: how much of the payload
/// is already on the wire, and how many writes have been recorded.
pub struct SendState {
    payload: Vec<u8>,
    sent: usize,
    attempts: u32,
}

impl SendState {
    /// The bytes this send is to put on the wire.
    pub closed spec fn spec_payload(&self) -> Seq<u8> {
        self.payload@
    }

    /// How many payload bytes are on the wire so far.
    pub closed spec fn spec_sent(&self) -> int {
        self.sent as int
    }

    /// How many writes have been recorded so far.
    pub closed spec fn spec_attempts(&self) -> int {
        self.attempts as int
    }

    /// The wire never carries more than the payload, and attempts stay
    /// within the bound.
    pub open spec fn wf(&self) -> bool {
        0 <= self.spec_sent() <= self.spec_payload().len() && 0 <= self.spec_attempts()
            <= MAX_SEND_ATTEMPTS as int
    }

    /// A fresh send: nothing written, nothing attempted.
    pub fn new(payload: Vec<u8>) -> (s: SendState)
        ensures
            s.wf(),
            s.spec_payload() == payload@,
            s.spec_sent() == 0,
            s.spec_attempts() == 0,
    {
        SendState { payload, sent: 0, attempts: 0 }
    }

    /// The whole payload is on the wire.
    pub fn is_done(&self) -> (r: bool)
        requires
            self.wf(),
        ensures
            r == (self.spec_sent() == self.spec_payload().len()),
    {
        self.sent == self.payload.len()
    }

    /// No further write may be recorded.
    pub fn attempts_exhausted(&self) -> (r: bool)
        ensures
            r == (self.spec_attempts() >= MAX_SEND_ATTEMPTS as int),
    {
        self.attempts >= MAX_SEND_ATTEMPTS
    }

    /// The unwritten suffix of the payload: what the next write must carry.
    pub fn pending(&self) -> (r: Vec<u8>)
        requires
            self.wf(),
        ensures
            r@ == self.spec_payload().skip(self.spec_sent()),
    {
        let s = vstd::slice::slice_subrange(self.payload.as_slice(), self.sent, self.payload.len());
        let v = vstd::slice::slice_to_vec(s);
        proof {
            assert(self.payload@.subrange(self.sent as int, self.payload@.len() as int)
                =~= self.spec_payload().skip(self.spec_sent()));
        }
        v
    }

    /// Records that a write put `n` more payload bytes on the wire. Returns
    /// whether the payload is now fully written.
    pub fn record_write(&mut self, n: usize) -> (done: bool)
        requires
            old(self).wf(),
            old(self).spec_sent() + n <= old(self).spec_payload().len(),
            old(self).spec_attempts() < MAX_SEND_ATTEMPTS as int,
        ensures
            final(self).wf(),
            final(self).spec_payload() == old(self).spec_payload(),
            final(self).spec_sent() == old(self).spec_sent() + n,
            final(self).spec_attempts() == old(self).spec_attempts() + 1,
            done == (final(self).spec_sent() == final(self).spec_payload().len()),
    {
        proof {
            assert(self.payload.len() == self.payload@.len());
        }
        self.sent = self.sent + n;
        self.attempts = self.attempts + 1;
        self.sent == self.payload.len()
    }
}

/// Partial writes accumulate: the bytes already on the wire (the payload
/// prefix of length `a`) followed by the next `n` bytes of the pending
/// suffix are exactly the payload prefix of length `a + n`. Repeated to the
/// payload's full length, the bytes on the wire equal the payload.
pub proof fn lemma_sent_prefix_extends(payload: Seq<u8>, a: int, n: int)
    requires
        0 <= a,
        0 <= n,
        a + n <= payload.len(),
    ensures
        payload.subrange(0, a) + payload.skip(a).take(n) == payload.subrange(0, a + n),
{
    assert(payload.subrange(0, a) + payload.skip(a).take(n) =~= payload.subrange(0, a + n));
}

} // verus!
