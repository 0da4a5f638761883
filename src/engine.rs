//! The decisions of a probing socket: what to transmit for a probe, what a
//! received datagram means, and which probes have timed out. The socket
//! itself is driven by the caller, who performs each transmission and hands
//! back each received datagram.
use crate::error::PingError;
use crate::proto::{AddressFamily, Probe, Proto, PADDING_OFFSET};
use crate::session::{drains, sids, Session, SessionTracker};
use std::collections::HashMap;
use vstd::prelude::*;

verus! {

broadcast use vstd::std_specs::hash::group_hash_axioms;

/// Default probe timeout: one second, in nanoseconds.
pub const DEFAULT_TIMEOUT: u64 = 1_000_000_000;

/// A peer's address as the session id is made from it.
#[derive(Clone, Copy, Debug, PartialEq, Eq)]
pub enum PeerAddr {
    /// An IPv4 address, as its 32 bits in network order.
    V4(u32),
    /// An IPv6 address, as its 16 octets.
    V6([u8; 16]),
    /// A socket address of another family.
    Other,
}

/// What the 64-bit xxHash of `data` with `seed` is.
pub uninterp spec fn xxh64_of(seed: u64, data: Seq<u8>) -> u64;

/// Relies on `twox_hash::XxHash64::oneshot`: the xxHash64 digest of `data`
/// with `seed`, a function of the two alone.
#[verifier::external_body]
fn xxh64(seed: u64, data: &[u8]) -> (r: u64)
    ensures
        r == xxh64_of(seed, data@),
{
    twox_hash::XxHash64::oneshot(seed, data)
}

/// Relies on `rand::random`: a random 64-bit value.
#[verifier::external_body]
fn random_signature() -> u64 {
    rand::random::<u64>()
}

/// The session id of a probe: for IPv4 the request id, sequence and address
/// bits packed into 64 bits; for IPv6 the address octets hashed with the
/// request id and sequence as seed. Not collision-proof against an
/// adversary: it only tells this engine's probes apart.
pub open spec fn spec_session_id(addr: PeerAddr, request_id: u16, seq: u16) -> u64 {
    match addr {
        PeerAddr::V4(bits) => ((request_id as u64) << 48u64) | ((seq as u64) << 32u64) | (
        bits as u64),
        PeerAddr::V6(octets) => xxh64_of(((request_id as u64) << 16u64) | (seq as u64), octets@),
        PeerAddr::Other => 0,
    }
}

pub fn session_id(addr: &PeerAddr, request_id: u16, seq: u16) -> (r: u64)
    ensures
        r == spec_session_id(*addr, request_id, seq),
{
    match addr {
        PeerAddr::V4(bits) => ((request_id as u64) << 48u64) | ((seq as u64) << 32u64) | (
        *bits as u64),
        PeerAddr::V6(octets) => xxh64(((request_id as u64) << 16u64) | (seq as u64), octets.as_slice()),
        PeerAddr::Other => 0,
    }
}

/// Whether a variant of `proto`'s family can send to `addr`.
pub open spec fn accepts(proto: Proto, addr: PeerAddr) -> bool {
    match addr {
        PeerAddr::V4(_) => proto.family == AddressFamily::IPv4,
        PeerAddr::V6(_) => proto.family == AddressFamily::IPv6,
        PeerAddr::Other => false,
    }
}

/// The sequence number after `seq`, wrapping at 2^16.
pub open spec fn next_seq(seq: u16) -> u16 {
    if seq == u16::MAX {
        0
    } else {
        (seq + 1) as u16
    }
}

/// Round-trip time reported for a reply stamped `ts` received at `now`:
/// never 0, which stands for a timeout.
pub open spec fn rtt(now: u64, ts: u64) -> u64 {
    if now > ts {
        (now - ts) as u64
    } else {
        1
    }
}

/// `m` with each id of `ids` mapped to 0, in order.
pub open spec fn with_timeouts(m: Map<u64, u64>, ids: Seq<u64>) -> Map<u64, u64>
    decreases ids.len(),
{
    if ids.len() == 0 {
        m
    } else {
        with_timeouts(m, ids.drop_last()).insert(ids.last(), 0)
    }
}

/// The octets `size` then halved in turn, down to 1: the buffer sizes to
/// try, in order, until the operating system accepts one.
pub open spec fn halvings(size: nat) -> Seq<nat>
    decreases size,
{
    if size == 0 {
        Seq::empty()
    } else {
        seq![size] + halvings(size / 2)
    }
}

/// The buffer sizes to attempt for a requested `size` (see `halvings`).
pub fn buffer_size_attempts(size: usize) -> (r: Vec<usize>)
    ensures
        r@.len() == halvings(size as nat).len(),
        forall|i: int| 0 <= i < r@.len() ==> #[trigger] r@[i] as nat == halvings(size as nat)[i],
{
    let mut r: Vec<usize> = Vec::new();
    let mut cur = size;
    while cur > 0
        invariant
            r@.map_values(|x: usize| x as nat) + halvings(cur as nat) == halvings(size as nat),
        decreases cur,
    {
        let ghost before = r@;
        r.push(cur);
        assert(r@.map_values(|x: usize| x as nat) =~= before.map_values(|x: usize| x as nat) + seq![
            cur as nat,
        ]);
        assert(halvings(cur as nat) == seq![cur as nat] + halvings((cur / 2) as nat));
        assert(r@.map_values(|x: usize| x as nat) + halvings((cur / 2) as nat) =~= before.map_values(
            |x: usize| x as nat,
        ) + halvings(cur as nat));
        cur = cur / 2;
    }
    assert(r@.map_values(|x: usize| x as nat) + halvings(0) =~= r@.map_values(|x: usize| x as nat));
    assert(r@.map_values(|x: usize| x as nat).len() == r@.len());
    assert forall|i: int| 0 <= i < r@.len() implies #[trigger] r@[i] as nat == halvings(
        size as nat,
    )[i] by {
        assert(r@.map_values(|x: usize| x as nat)[i] == r@[i] as nat);
    }
    r
}

/// The state of one probing socket: the selected variant, the socket's
/// signature, the next sequence number, the probe timeout and the probes in
/// flight.
pub struct Engine {
    pub proto: Proto,
    pub signature: u64,
    pub seq: u16,
    pub timeout: u64,
    pub sessions: SessionTracker,
}

impl Engine {
    pub open spec fn wf(&self) -> bool {
        self.sessions.wf()
    }

    /// An engine with a given signature, no probe in flight and sequence 0.
    pub fn with_signature(proto: Proto, signature: u64, timeout: u64) -> (r: Engine)
        ensures
            r.wf(),
            r.proto == proto,
            r.signature == signature,
            r.seq == 0,
            r.timeout == timeout,
            r.sessions@ == Seq::<Session>::empty(),
    {
        Engine { proto, signature, seq: 0, timeout, sessions: SessionTracker::new() }
    }

    /// An engine with a freshly drawn random signature.
    pub fn new(proto: Proto, timeout: u64) -> (r: Engine)
        ensures
            r.wf(),
            r.proto == proto,
            r.seq == 0,
            r.timeout == timeout,
            r.sessions@ == Seq::<Session>::empty(),
    {
        Engine::with_signature(proto, random_signature(), timeout)
    }

    pub fn set_timeout(&mut self, timeout: u64)
        ensures
            final(self).timeout == timeout,
            final(self).proto == old(self).proto,
            final(self).signature == old(self).signature,
            final(self).seq == old(self).seq,
            final(self).sessions == old(self).sessions,
    {
        self.timeout = timeout;
    }

    /// Prepares an echo request of `size` octets to `addr` at time `now`:
    /// writes the datagram into `buf`, takes the next sequence number, and
    /// returns the session id and deadline for the caller to register once
    /// the datagram has gone out. An address of another family is refused.
    pub fn prepare_send(&mut self, addr: &PeerAddr, size: usize, now: u64, buf: &mut Vec<u8>) -> (r:
        Result<(u64, u64), PingError>)
        requires
            size >= old(self).proto.ip_header_size + PADDING_OFFSET,
            now + old(self).timeout <= u64::MAX,
        ensures
            final(self).proto == old(self).proto,
            final(self).signature == old(self).signature,
            final(self).timeout == old(self).timeout,
            final(self).sessions == old(self).sessions,
            !accepts(old(self).proto, *addr) ==> {
                &&& r == Err::<(u64, u64), PingError>(PingError::InvalidAddr)
                &&& final(self).seq == old(self).seq
                &&& final(buf)@ == old(buf)@
            },
            accepts(old(self).proto, *addr) ==> {
                let probe = Probe { seq: old(self).seq, signature: old(self).signature, ts: now };
                &&& r == Ok::<(u64, u64), PingError>(
                    (
                        spec_session_id(*addr, probe.spec_request_id(), probe.seq),
                        (now + old(self).timeout) as u64,
                    ),
                )
                &&& final(self).seq == next_seq(old(self).seq)
                &&& final(buf)@ == old(self).proto.wire_request(probe, size as nat)
            },
    {
        let ok = match addr {
            PeerAddr::V4(_) => self.proto.family == AddressFamily::IPv4,
            PeerAddr::V6(_) => self.proto.family == AddressFamily::IPv6,
            PeerAddr::Other => false,
        };
        if !ok {
            return Err(PingError::InvalidAddr);
        }
        let seq = self.seq;
        self.seq = if seq == u16::MAX {
            0
        } else {
            seq + 1
        };
        let probe = Probe::new(seq, self.signature, now);
        self.proto.encode_request(probe, buf, size);
        let sid = session_id(addr, probe.get_request_id(), seq);
        Ok((sid, now + self.timeout))
    }

    /// Registers a probe whose datagram has gone out.
    pub fn register_sent(&mut self, sid: u64, deadline: u64)
        requires
            old(self).wf(),
        ensures
            final(self).wf(),
            final(self).proto == old(self).proto,
            final(self).signature == old(self).signature,
            final(self).seq == old(self).seq,
            final(self).timeout == old(self).timeout,
            forall|e: Session| #[trigger]
                final(self).sessions@.contains(e) <==> (old(self).sessions@.contains(e) || e == (
                Session { deadline, sid })),
    {
        self.sessions.register(sid, deadline);
    }

    /// Handles one datagram received from `from` at time `now`. A reply that
    /// carries this engine's signature is recorded in `results` under its
    /// session id with its round-trip time, and its session, registered
    /// under the reply's timestamp plus the timeout, is removed (no session
    /// has a deadline past `u64::MAX`, so where that sum overflows none is).
    /// Anything else is foreign traffic and changes nothing.
    pub fn on_datagram(
        &mut self,
        buf: &[u8],
        from: &PeerAddr,
        now: u64,
        results: &mut HashMap<u64, u64>,
    )
        requires
            old(self).wf(),
        ensures
            final(self).wf(),
            final(self).proto == old(self).proto,
            final(self).signature == old(self).signature,
            final(self).seq == old(self).seq,
            final(self).timeout == old(self).timeout,
            match old(self).proto.spec_decode(buf@) {
                Some(p) => if p.signature == old(self).signature {
                    let sid = spec_session_id(*from, p.spec_request_id(), p.seq);
                    &&& final(results)@ == old(results)@.insert(sid, rtt(now, p.ts))
                    &&& p.ts + old(self).timeout <= u64::MAX ==> forall|e: Session| #[trigger]
                        final(self).sessions@.contains(e) <==> (old(self).sessions@.contains(e)
                            && e != (Session { deadline: (p.ts + old(self).timeout) as u64, sid }))
                    &&& p.ts + old(self).timeout > u64::MAX ==> final(self).sessions@ == old(
                        self,
                    ).sessions@
                } else {
                    &&& final(results)@ == old(results)@
                    &&& final(self).sessions@ == old(self).sessions@
                },
                None => {
                    &&& final(results)@ == old(results)@
                    &&& final(self).sessions@ == old(self).sessions@
                },
            },
    {
        let probe = match self.proto.decode_reply(buf) {
            Some(p) => p,
            None => {
                return ;
            },
        };
        if probe.signature != self.signature {
            return ;
        }
        let delay = if now > probe.ts {
            now - probe.ts
        } else {
            1
        };
        let sid = session_id(from, probe.get_request_id(), probe.seq);
        results.insert(sid, delay);
        match probe.ts.checked_add(self.timeout) {
            Some(deadline) => self.sessions.remove(sid, deadline),
            None => {},
        }
    }

    /// Drains every session expired as of `now` into `results` with
    /// round-trip time 0, the mark of a timeout.
    pub fn expire(&mut self, now: u64, results: &mut HashMap<u64, u64>)
        requires
            old(self).wf(),
        ensures
            final(self).wf(),
            final(self).proto == old(self).proto,
            final(self).signature == old(self).signature,
            final(self).seq == old(self).seq,
            final(self).timeout == old(self).timeout,
            exists|k: int|
                {
                    &&& #[trigger] drains(old(self).sessions@, now, k)
                    &&& final(self).sessions@ == old(self).sessions@.skip(k)
                    &&& final(results)@ == with_timeouts(
                        old(results)@,
                        sids(old(self).sessions@.take(k)),
                    )
                },
    {
        let expired = self.sessions.drain_expired(now);
        let ghost k = expired@.len() as int;
        let ghost start = results@;
        let mut j: usize = 0;
        while j < expired.len()
            invariant
                j <= expired@.len(),
                results@ == with_timeouts(start, expired@.take(j as int)),
            decreases expired@.len() - j,
        {
            results.insert(expired[j], 0);
            j = j + 1;
            assert(expired@.take(j as int).drop_last() =~= expired@.take(j - 1));
        }
        assert(expired@.take(j as int) =~= expired@);
    }

    /// Ends a receive pass at `now`: drains the expired sessions into
    /// `results` (see `expire`), and returns them, or `None` when nothing
    /// was matched or expired.
    pub fn finish_recv(&mut self, now: u64, results: HashMap<u64, u64>) -> (r: Option<
        HashMap<u64, u64>,
    >)
        requires
            old(self).wf(),
        ensures
            final(self).wf(),
            final(self).proto == old(self).proto,
            final(self).signature == old(self).signature,
            final(self).seq == old(self).seq,
            final(self).timeout == old(self).timeout,
            exists|k: int|
                {
                    let m = with_timeouts(results@, sids(old(self).sessions@.take(k)));
                    &&& #[trigger] drains(old(self).sessions@, now, k)
                    &&& final(self).sessions@ == old(self).sessions@.skip(k)
                    &&& match r {
                        Some(out) => out@ == m && m.len() > 0,
                        None => m.len() == 0,
                    }
                },
    {
        let mut results = results;
        self.expire(now, &mut results);
        if results.len() == 0 {
            None
        } else {
            Some(results)
        }
    }
}

} // verus!
