//! Transport variants, the echo request/reply codec and the selection of a
//! variant from a caller's ordered preference.
use crate::error::PingError;
use crate::filter::Filter;
use crate::wire::{
    be16_at, be16_bytes, be64_at, be64_bytes, checksum, internet_checksum_of,
    lemma_be16_round_trip, lemma_be64_round_trip, push_be16, push_be64, read_be16, read_be64,
};
use vstd::prelude::*;

verus! {

/// IPv4 header size.
pub const IPV4_HEADER_SIZE: usize = 20;

/// IPv6 header size.
pub const IPV6_HEADER_SIZE: usize = 40;

/// ICMP header: type, code, checksum, request id, sequence.
pub const ICMP_HEADER_SIZE: usize = 8;

/// Probe payload: signature and timestamp.
pub const ICMP_PAYLOAD_SIZE: usize = 16;

/// Octet that fills the datagram past the probe payload.
pub const PADDING: u8 = 48;

/// Where padding starts; also the shortest echo message this engine handles.
pub const PADDING_OFFSET: usize = ICMP_HEADER_SIZE + ICMP_PAYLOAD_SIZE;

pub const ICMP_TYPE_OFFSET: usize = 0;

pub const CHECKSUM_OFFSET: usize = 2;

pub const SEQUENCE_OFFSET: usize = 6;

pub const SIGNATURE_OFFSET: usize = ICMP_HEADER_SIZE;

pub const TIMESTAMP_OFFSET: usize = SIGNATURE_OFFSET + 8;

/// IP protocol number of ICMP.
pub const IPPROTO_ICMPV4: i32 = 1;

/// IP protocol number of ICMPv6.
pub const IPPROTO_ICMPV6: i32 = 58;

/// Number of transport variants in the registry.
pub const N_PROTOCOLS: usize = 4;

/// Network-layer address family of a transport variant.
#[derive(Clone, Copy, Debug, PartialEq, Eq, Structural)]
pub enum AddressFamily {
    IPv4,
    IPv6,
}

/// Socket kind of a transport variant.
#[derive(Clone, Copy, Debug, PartialEq, Eq, Structural)]
pub enum SocketKind {
    /// Privileged raw socket.
    Raw,
    /// Unprivileged connectionless datagram socket.
    Dgram,
}

/// The identifying data of one echo request.
#[derive(Clone, Copy, Debug, PartialEq, Eq, Structural)]
pub struct Probe {
    pub seq: u16,
    pub signature: u64,
    pub ts: u64,
}

impl Probe {
    pub fn new(seq: u16, signature: u64, ts: u64) -> (r: Probe)
        ensures
            r == (Probe { seq, signature, ts }),
    {
        Probe { seq, signature, ts }
    }

    /// The ICMP identifier: the low 16 bits of the signature.
    pub open spec fn spec_request_id(self) -> u16 {
        (self.signature & 0xffffu64) as u16
    }

    pub fn get_request_id(&self) -> (r: u16)
        ensures
            r == self.spec_request_id(),
    {
        (self.signature & 0xffffu64) as u16
    }

    pub fn get_seq(&self) -> (r: u16)
        ensures
            r == self.seq,
    {
        self.seq
    }

    pub fn get_signature(&self) -> (r: u64)
        ensures
            r == self.signature,
    {
        self.signature
    }

    pub fn get_ts(&self) -> (r: u64)
        ensures
            r == self.ts,
    {
        self.ts
    }
}

/// An echo message of `n` octets: type, zero code and checksum, request id,
/// sequence, signature, timestamp, then padding.
pub open spec fn echo_bytes(
    icmp_type: u8,
    request_id: u16,
    seq: u16,
    signature: u64,
    ts: u64,
    n: nat,
) -> Seq<u8> {
    seq![icmp_type, 0u8, 0u8, 0u8] + be16_bytes(request_id) + be16_bytes(seq) + be64_bytes(
        signature,
    ) + be64_bytes(ts) + Seq::new((n - PADDING_OFFSET) as nat, |_i: int| PADDING)
}

/// `msg` with its checksum field set to the Internet checksum of `msg`.
pub open spec fn with_checksum(msg: Seq<u8>) -> Seq<u8> {
    let cs = internet_checksum_of(msg);
    msg.update(2, cs[0]).update(3, cs[1])
}

/// Stores checksum octets `cs` in the checksum field of the message `msg`.
pub fn place_checksum(msg: &mut Vec<u8>, cs: [u8; 2])
    requires
        old(msg)@.len() >= ICMP_HEADER_SIZE,
    ensures
        final(msg)@ == old(msg)@.update(CHECKSUM_OFFSET as int, cs[0]).update(
            CHECKSUM_OFFSET + 1,
            cs[1],
        ),
{
    msg.set(CHECKSUM_OFFSET, cs[0]);
    msg.set(CHECKSUM_OFFSET + 1, cs[1]);
}

/// Immutable descriptor of one transport variant.
#[derive(Clone, Copy, Debug, PartialEq, Eq, Structural)]
pub struct Proto {
    /// Whether the platform plausibly supports this variant at all.
    pub has_platform_support: bool,
    pub family: AddressFamily,
    pub kind: SocketKind,
    /// Network-layer protocol number.
    pub protocol: i32,
    /// Kernel filter to attach to the socket.
    pub filter: Filter,
    /// IP header size, subtracted from a requested datagram size.
    pub ip_header_size: usize,
    pub icmp_request_type: u8,
    pub icmp_reply_type: u8,
    /// Octets to skip in a received datagram (a header the OS leaves in).
    pub skip_reply: usize,
    /// Whether the checksum is computed in user space.
    pub require_checksum: bool,
}

/// The registry entry at index `i`; `linux` tells whether the host offers
/// unprivileged ICMP datagram sockets and classic packet filters.
pub open spec fn spec_protocol(i: int, linux: bool) -> Proto {
    if i == 0 {
        Proto {
            has_platform_support: true,
            family: AddressFamily::IPv4,
            kind: SocketKind::Raw,
            protocol: IPPROTO_ICMPV4,
            filter: if linux {
                Filter::LinuxRaw4
            } else {
                Filter::Unfiltered
            },
            ip_header_size: IPV4_HEADER_SIZE,
            icmp_request_type: 8,
            icmp_reply_type: 0,
            skip_reply: IPV4_HEADER_SIZE,
            require_checksum: true,
        }
    } else if i == 1 {
        Proto {
            has_platform_support: linux,
            family: AddressFamily::IPv4,
            kind: SocketKind::Dgram,
            protocol: IPPROTO_ICMPV4,
            filter: Filter::Unfiltered,
            ip_header_size: IPV4_HEADER_SIZE,
            icmp_request_type: 8,
            icmp_reply_type: 0,
            skip_reply: 0,
            require_checksum: false,
        }
    } else if i == 2 {
        Proto {
            has_platform_support: true,
            family: AddressFamily::IPv6,
            kind: SocketKind::Raw,
            protocol: IPPROTO_ICMPV6,
            filter: if linux {
                Filter::LinuxRaw6
            } else {
                Filter::Unfiltered
            },
            ip_header_size: IPV6_HEADER_SIZE,
            icmp_request_type: 128,
            icmp_reply_type: 129,
            skip_reply: 0,
            require_checksum: true,
        }
    } else {
        Proto {
            has_platform_support: linux,
            family: AddressFamily::IPv6,
            kind: SocketKind::Dgram,
            protocol: IPPROTO_ICMPV6,
            filter: Filter::Unfiltered,
            ip_header_size: IPV6_HEADER_SIZE,
            icmp_request_type: 128,
            icmp_reply_type: 129,
            skip_reply: 0,
            require_checksum: false,
        }
    }
}

/// Names of the registry entries, in registry order.
#[derive(Clone, Copy, Debug, PartialEq, Eq, Structural)]
pub enum ProtocolItem {
    IPv4Raw,
    IPv4Dgram,
    IPv6Raw,
    IPv6Dgram,
}

impl ProtocolItem {
    pub open spec fn spec_index(self) -> usize {
        match self {
            ProtocolItem::IPv4Raw => 0,
            ProtocolItem::IPv4Dgram => 1,
            ProtocolItem::IPv6Raw => 2,
            ProtocolItem::IPv6Dgram => 3,
        }
    }

    /// Position of this variant in the registry.
    pub fn index(self) -> (r: usize)
        ensures
            r == self.spec_index(),
    {
        match self {
            ProtocolItem::IPv4Raw => 0,
            ProtocolItem::IPv4Dgram => 1,
            ProtocolItem::IPv6Raw => 2,
            ProtocolItem::IPv6Dgram => 3,
        }
    }
}

/// The registry entry at index `i` (see `spec_protocol`).
pub fn protocol(i: usize, linux: bool) -> (r: Proto)
    requires
        i < N_PROTOCOLS,
    ensures
        r == spec_protocol(i as int, linux),
{
    if i == 0 {
        Proto {
            has_platform_support: true,
            family: AddressFamily::IPv4,
            kind: SocketKind::Raw,
            protocol: IPPROTO_ICMPV4,
            filter: if linux {
                Filter::LinuxRaw4
            } else {
                Filter::Unfiltered
            },
            ip_header_size: IPV4_HEADER_SIZE,
            icmp_request_type: 8,
            icmp_reply_type: 0,
            skip_reply: IPV4_HEADER_SIZE,
            require_checksum: true,
        }
    } else if i == 1 {
        Proto {
            has_platform_support: linux,
            family: AddressFamily::IPv4,
            kind: SocketKind::Dgram,
            protocol: IPPROTO_ICMPV4,
            filter: Filter::Unfiltered,
            ip_header_size: IPV4_HEADER_SIZE,
            icmp_request_type: 8,
            icmp_reply_type: 0,
            skip_reply: 0,
            require_checksum: false,
        }
    } else if i == 2 {
        Proto {
            has_platform_support: true,
            family: AddressFamily::IPv6,
            kind: SocketKind::Raw,
            protocol: IPPROTO_ICMPV6,
            filter: if linux {
                Filter::LinuxRaw6
            } else {
                Filter::Unfiltered
            },
            ip_header_size: IPV6_HEADER_SIZE,
            icmp_request_type: 128,
            icmp_reply_type: 129,
            skip_reply: 0,
            require_checksum: true,
        }
    } else {
        Proto {
            has_platform_support: linux,
            family: AddressFamily::IPv6,
            kind: SocketKind::Dgram,
            protocol: IPPROTO_ICMPV6,
            filter: Filter::Unfiltered,
            ip_header_size: IPV6_HEADER_SIZE,
            icmp_request_type: 128,
            icmp_reply_type: 129,
            skip_reply: 0,
            require_checksum: false,
        }
    }
}

/// The whole registry, in order.
pub fn protocols(linux: bool) -> (r: Vec<Proto>)
    ensures
        r@.len() == N_PROTOCOLS,
        forall|i: int| 0 <= i < N_PROTOCOLS ==> #[trigger] r@[i] == spec_protocol(i, linux),
{
    let mut r: Vec<Proto> = Vec::new();
    let mut i: usize = 0;
    while i < N_PROTOCOLS
        invariant
            i <= N_PROTOCOLS,
            r@.len() == i,
            forall|j: int| 0 <= j < i ==> #[trigger] r@[j] == spec_protocol(j, linux),
        decreases N_PROTOCOLS - i,
    {
        r.push(protocol(i, linux));
        i = i + 1;
    }
    r
}

impl Proto {
    /// The request that `encode_request` writes for a datagram of `size`
    /// octets: the ICMP message is `size` less the IP header.
    pub open spec fn wire_request(self, probe: Probe, size: nat) -> Seq<u8> {
        let msg = echo_bytes(
            self.icmp_request_type,
            probe.spec_request_id(),
            probe.seq,
            probe.signature,
            probe.ts,
            (size - self.ip_header_size) as nat,
        );
        if self.require_checksum {
            with_checksum(msg)
        } else {
            msg
        }
    }

    /// What `decode_reply` makes of `buf`: nothing when it holds fewer than
    /// 24 octets past the skipped header, or when its type is not the reply
    /// type; else the probe fields at their offsets.
    pub open spec fn spec_decode(self, buf: Seq<u8>) -> Option<Probe> {
        let s = self.skip_reply as int;
        if buf.len() < s + PADDING_OFFSET {
            None
        } else if buf[s] != self.icmp_reply_type {
            None
        } else {
            Some(
                Probe {
                    seq: be16_at(buf, s + SEQUENCE_OFFSET),
                    signature: be64_at(buf, s + SIGNATURE_OFFSET),
                    ts: be64_at(buf, s + TIMESTAMP_OFFSET),
                },
            )
        }
    }

    /// Writes into `buf` the echo request for `probe` in a datagram of
    /// `size` octets, with its checksum where this variant needs one.
    pub fn encode_request(&self, probe: Probe, buf: &mut Vec<u8>, size: usize)
        requires
            size >= self.ip_header_size + PADDING_OFFSET,
        ensures
            final(buf)@ == self.wire_request(probe, size as nat),
    {
        let n = size - self.ip_header_size;
        buf.clear();
        buf.push(self.icmp_request_type);
        buf.push(0);
        buf.push(0);
        buf.push(0);
        push_be16(buf, probe.get_request_id());
        push_be16(buf, probe.seq);
        push_be64(buf, probe.signature);
        push_be64(buf, probe.ts);
        let ghost head = buf@;
        assert(head.len() == PADDING_OFFSET);
        while buf.len() < n
            invariant
                PADDING_OFFSET <= buf@.len() <= n,
                buf@ == head + Seq::new((buf@.len() - PADDING_OFFSET) as nat, |_i: int| PADDING),
            decreases n - buf@.len(),
        {
            buf.push(PADDING);
            assert(buf@ =~= head + Seq::new((buf@.len() - PADDING_OFFSET) as nat, |_i: int| PADDING));
        }
        assert(buf@ =~= echo_bytes(
            self.icmp_request_type,
            probe.spec_request_id(),
            probe.seq,
            probe.signature,
            probe.ts,
            n as nat,
        ));
        if self.require_checksum {
            let cs = checksum(buf.as_slice());
            place_checksum(buf, cs);
        }
    }

    /// Reads an echo reply from a received datagram (see `spec_decode`). The
    /// checksum is not checked.
    pub fn decode_reply(&self, buf: &[u8]) -> (r: Option<Probe>)
        ensures
            r == self.spec_decode(buf@),
    {
        let s = self.skip_reply;
        if buf.len() < s || buf.len() - s < PADDING_OFFSET {
            return None;
        }
        if buf[s + ICMP_TYPE_OFFSET] != self.icmp_reply_type {
            return None;
        }
        Some(
            Probe {
                seq: read_be16(buf, s + SEQUENCE_OFFSET),
                signature: read_be64(buf, s + SIGNATURE_OFFSET),
                ts: read_be64(buf, s + TIMESTAMP_OFFSET),
            },
        )
    }
}


/// Round trip: a request that a variant encodes, with only its type byte
/// turned into the reply type and received behind `skip_reply` octets of
/// header, decodes to the probe it was made from.
pub proof fn lemma_decode_encoded_request(proto: Proto, probe: Probe, size: nat, header: Seq<u8>)
    requires
        size >= proto.ip_header_size + PADDING_OFFSET,
        header.len() == proto.skip_reply,
    ensures
        proto.spec_decode(
            header + proto.wire_request(probe, size).update(0, proto.icmp_reply_type),
        ) == Some(probe),
{
    let n = (size - proto.ip_header_size) as nat;
    let msg = echo_bytes(
        proto.icmp_request_type,
        probe.spec_request_id(),
        probe.seq,
        probe.signature,
        probe.ts,
        n,
    );
    let w = proto.wire_request(probe, size);
    let b = header + w.update(0, proto.icmp_reply_type);
    let s = header.len() as int;
    assert(msg.len() == n);
    assert(w.len() == n);
    assert forall|i: int| 4 <= i < PADDING_OFFSET implies #[trigger] b[s + i] == msg[i] by {
        assert(b[s + i] == w[i]);
    }
    assert(b.subrange(s + 6, s + 8) =~= be16_bytes(probe.seq)) by {
        assert(b[s + 6] == msg[6]);
        assert(b[s + 7] == msg[7]);
    }
    assert(b.subrange(s + 8, s + 16) =~= be64_bytes(probe.signature)) by {
        assert forall|k: int| 0 <= k < 8 implies #[trigger] b[s + 8 + k] == msg[8 + k] by {
            assert(b[s + (8 + k)] == msg[8 + k]);
        }
    }
    assert(b.subrange(s + 16, s + 24) =~= be64_bytes(probe.ts)) by {
        assert forall|k: int| 0 <= k < 8 implies #[trigger] b[s + 16 + k] == msg[16 + k] by {
            assert(b[s + (16 + k)] == msg[16 + k]);
        }
    }
    lemma_be16_round_trip(b, s + 6, probe.seq);
    lemma_be64_round_trip(b, s + 8, probe.signature);
    lemma_be64_round_trip(b, s + 16, probe.ts);
    assert(b[s] == proto.icmp_reply_type);
}


/// Address-family base of the IPv4 policy codes.
pub const PS_IPV4: u8 = 0;

/// Address-family base of the IPv6 policy codes.
pub const PS_IPV6: u8 = 4;

/// Strategy offset: raw socket only.
pub const PS_RAW: u8 = 0;

/// Strategy offset: raw socket, falling back to a datagram socket.
pub const PS_RAW_DGRAM: u8 = 1;

/// Strategy offset: datagram socket, falling back to a raw socket.
pub const PS_DGRAM_RAW: u8 = 2;

/// Strategy offset: datagram socket only.
pub const PS_DGRAM: u8 = 3;

/// A caller's ordered preference among transport variants.
#[derive(Clone, Copy, Debug, PartialEq, Eq, Structural)]
pub enum SelectionPolicy {
    IPv4Raw,
    IPv4RawDgram,
    IPv4DgramRaw,
    IPv4Dgram,
    IPv6Raw,
    IPv6RawDgram,
    IPv6DgramRaw,
    IPv6Dgram,
}

/// The policy with code `code`, if `code` is one.
pub open spec fn spec_policy(code: u8) -> Option<SelectionPolicy> {
    if code == PS_IPV4 + PS_RAW {
        Some(SelectionPolicy::IPv4Raw)
    } else if code == PS_IPV4 + PS_RAW_DGRAM {
        Some(SelectionPolicy::IPv4RawDgram)
    } else if code == PS_IPV4 + PS_DGRAM_RAW {
        Some(SelectionPolicy::IPv4DgramRaw)
    } else if code == PS_IPV4 + PS_DGRAM {
        Some(SelectionPolicy::IPv4Dgram)
    } else if code == PS_IPV6 + PS_RAW {
        Some(SelectionPolicy::IPv6Raw)
    } else if code == PS_IPV6 + PS_RAW_DGRAM {
        Some(SelectionPolicy::IPv6RawDgram)
    } else if code == PS_IPV6 + PS_DGRAM_RAW {
        Some(SelectionPolicy::IPv6DgramRaw)
    } else if code == PS_IPV6 + PS_DGRAM {
        Some(SelectionPolicy::IPv6Dgram)
    } else {
        None
    }
}

impl SelectionPolicy {
    /// Decodes a policy code: an address-family base plus a strategy offset.
    pub fn try_from(value: u8) -> (r: Result<SelectionPolicy, PingError>)
        ensures
            match spec_policy(value) {
                Some(p) => r == Ok::<SelectionPolicy, PingError>(p),
                None => r == Err::<SelectionPolicy, PingError>(PingError::InvalidPolicy),
            },
    {
        match value {
            0 => Ok(SelectionPolicy::IPv4Raw),
            1 => Ok(SelectionPolicy::IPv4RawDgram),
            2 => Ok(SelectionPolicy::IPv4DgramRaw),
            3 => Ok(SelectionPolicy::IPv4Dgram),
            4 => Ok(SelectionPolicy::IPv6Raw),
            5 => Ok(SelectionPolicy::IPv6RawDgram),
            6 => Ok(SelectionPolicy::IPv6DgramRaw),
            7 => Ok(SelectionPolicy::IPv6Dgram),
            _ => Err(PingError::InvalidPolicy),
        }
    }

    /// Registry indices of the candidate variants, most preferred first.
    pub open spec fn spec_candidates(self) -> Seq<usize> {
        match self {
            SelectionPolicy::IPv4Raw => seq![0usize],
            SelectionPolicy::IPv4RawDgram => seq![0usize, 1usize],
            SelectionPolicy::IPv4DgramRaw => seq![1usize, 0usize],
            SelectionPolicy::IPv4Dgram => seq![1usize],
            SelectionPolicy::IPv6Raw => seq![2usize],
            SelectionPolicy::IPv6RawDgram => seq![2usize, 3usize],
            SelectionPolicy::IPv6DgramRaw => seq![3usize, 2usize],
            SelectionPolicy::IPv6Dgram => seq![3usize],
        }
    }

    pub fn candidates(self) -> (r: Vec<usize>)
        ensures
            r@ == self.spec_candidates(),
    {
        let raw4 = ProtocolItem::IPv4Raw.index();
        let dgram4 = ProtocolItem::IPv4Dgram.index();
        let raw6 = ProtocolItem::IPv6Raw.index();
        let dgram6 = ProtocolItem::IPv6Dgram.index();
        let r = match self {
            SelectionPolicy::IPv4Raw => vec![raw4],
            SelectionPolicy::IPv4RawDgram => vec![raw4, dgram4],
            SelectionPolicy::IPv4DgramRaw => vec![dgram4, raw4],
            SelectionPolicy::IPv4Dgram => vec![dgram4],
            SelectionPolicy::IPv6Raw => vec![raw6],
            SelectionPolicy::IPv6RawDgram => vec![raw6, dgram6],
            SelectionPolicy::IPv6DgramRaw => vec![dgram6, raw6],
            SelectionPolicy::IPv6Dgram => vec![dgram6],
        };
        assert(r@ =~= self.spec_candidates());
        r
    }

    /// One step of resolving this policy against `registry` and what is
    /// known of each variant's availability (see `select_protocol`).
    pub fn resolve(self, registry: &[Proto], availability: &[Option<bool>]) -> (r: Selection)
        requires
            availability@.len() == registry@.len(),
        ensures
            r == selection(self.spec_candidates(), registry@, availability@),
    {
        let c = self.candidates();
        select_protocol(c.as_slice(), registry, availability)
    }
}

/// Where resolving a selection policy stands.
#[derive(Debug)]
pub enum Selection {
    /// This registry index is the variant to use.
    Selected(usize),
    /// The availability of this registry index must be checked, recorded,
    /// and the resolution run again.
    Probe(usize),
    /// Resolution failed.
    Failed(PingError),
}

/// Whether registry index `c` names a variant with platform support.
pub open spec fn supported_at(registry: Seq<Proto>, c: usize) -> bool {
    c < registry.len() && registry[c as int].has_platform_support
}

/// Whether some candidate has platform support.
pub open spec fn any_supported(candidates: Seq<usize>, registry: Seq<Proto>) -> bool {
    exists|i: int| 0 <= i < candidates.len() && supported_at(registry, #[trigger] candidates[i])
}

/// Resolution from the `i`-th candidate on: unsupported candidates are
/// skipped, the first one whose availability is unknown is to be probed, the
/// first available one is selected, and with none left it is
/// `PermissionDenied`.
pub open spec fn select_from(
    candidates: Seq<usize>,
    registry: Seq<Proto>,
    availability: Seq<Option<bool>>,
    i: int,
) -> Selection
    decreases candidates.len() - i,
{
    if i < 0 || i >= candidates.len() {
        Selection::Failed(PingError::PermissionDenied)
    } else if !supported_at(registry, candidates[i]) {
        select_from(candidates, registry, availability, i + 1)
    } else {
        match availability[candidates[i] as int] {
            None => Selection::Probe(candidates[i]),
            Some(true) => Selection::Selected(candidates[i]),
            Some(false) => select_from(candidates, registry, availability, i + 1),
        }
    }
}

/// Resolution of a candidate list: `NotImplemented` when no candidate has
/// platform support, else `select_from` the first candidate.
pub open spec fn selection(
    candidates: Seq<usize>,
    registry: Seq<Proto>,
    availability: Seq<Option<bool>>,
) -> Selection {
    if !any_supported(candidates, registry) {
        Selection::Failed(PingError::NotImplemented)
    } else {
        select_from(candidates, registry, availability, 0)
    }
}

/// Resolves an ordered candidate list against the registry and the
/// availability known so far (`availability[i]` for registry index `i`).
pub fn select_protocol(
    candidates: &[usize],
    registry: &[Proto],
    availability: &[Option<bool>],
) -> (r: Selection)
    requires
        availability@.len() == registry@.len(),
    ensures
        r == selection(candidates@, registry@, availability@),
{
    let mut i: usize = 0;
    let mut found = false;
    while i < candidates.len()
        invariant
            i <= candidates@.len(),
            !found ==> forall|j: int| 0 <= j < i ==> !supported_at(registry@, #[trigger] candidates@[j]),
            found ==> any_supported(candidates@, registry@),
        decreases candidates@.len() - i,
    {
        let c = candidates[i];
        if c < registry.len() && registry[c].has_platform_support {
            found = true;
            assert(supported_at(registry@, candidates@[i as int]));
        }
        i = i + 1;
    }
    if !found {
        return Selection::Failed(PingError::NotImplemented);
    }
    let mut i: usize = 0;
    while i < candidates.len()
        invariant
            i <= candidates@.len(),
            availability@.len() == registry@.len(),
            any_supported(candidates@, registry@),
            select_from(candidates@, registry@, availability@, 0) == select_from(
                candidates@,
                registry@,
                availability@,
                i as int,
            ),
        decreases candidates@.len() - i,
    {
        let c = candidates[i];
        if c < registry.len() && registry[c].has_platform_support {
            match availability[c] {
                None => {
                    return Selection::Probe(c);
                },
                Some(true) => {
                    return Selection::Selected(c);
                },
                Some(false) => {},
            }
        }
        i = i + 1;
    }
    Selection::Failed(PingError::PermissionDenied)
}

/// Selection fallback over the candidates `[raw, dgram]`: with `raw`
/// unavailable and `dgram` available, `dgram` is selected; with both
/// supported and both found unavailable, resolution fails with
/// `PermissionDenied`; with neither supported, with `NotImplemented`.
pub proof fn lemma_selection_fallback(
    raw: usize,
    dgram: usize,
    registry: Seq<Proto>,
    availability: Seq<Option<bool>>,
)
    requires
        raw < registry.len(),
        dgram < registry.len(),
        availability.len() == registry.len(),
    ensures
        (!registry[raw as int].has_platform_support || availability[raw as int] == Some(false))
            && registry[dgram as int].has_platform_support && availability[dgram as int] == Some(
            true,
        ) ==> selection(seq![raw, dgram], registry, availability) == Selection::Selected(dgram),
        registry[raw as int].has_platform_support && registry[dgram as int].has_platform_support
            && availability[raw as int] == Some(false) && availability[dgram as int] == Some(false)
            ==> selection(seq![raw, dgram], registry, availability) == Selection::Failed(
            PingError::PermissionDenied,
        ),
        !registry[raw as int].has_platform_support && !registry[dgram as int].has_platform_support
            ==> selection(seq![raw, dgram], registry, availability) == Selection::Failed(
            PingError::NotImplemented,
        ),
{
    let c = seq![raw, dgram];
    assert(c[0] == raw && c[1] == dgram);
    if registry[dgram as int].has_platform_support {
        assert(supported_at(registry, c[1]));
    }
    if registry[raw as int].has_platform_support {
        assert(supported_at(registry, c[0]));
    }
    reveal_with_fuel(select_from, 3);
    if !registry[raw as int].has_platform_support && !registry[dgram as int].has_platform_support {
        assert(!any_supported(c, registry)) by {
            assert forall|i: int| 0 <= i < c.len() implies !supported_at(registry, #[trigger] c[i]) by {
                assert(i == 0 || i == 1);
            }
        }
    }
}

/// Memoized availability of each registry entry: a value, once recorded,
/// is never replaced.
pub struct AvailabilityCache {
    entries: Vec<Option<bool>>,
}

impl View for AvailabilityCache {
    type V = Seq<Option<bool>>;

    closed spec fn view(&self) -> Seq<Option<bool>> {
        self.entries@
    }
}

impl AvailabilityCache {
    /// A cache with nothing known of any registry entry.
    pub fn new() -> (r: AvailabilityCache)
        ensures
            r@ == Seq::new(N_PROTOCOLS as nat, |_i: int| None::<bool>),
    {
        let mut entries: Vec<Option<bool>> = Vec::new();
        while entries.len() < N_PROTOCOLS
            invariant
                entries@.len() <= N_PROTOCOLS,
                entries@ == Seq::new(entries@.len(), |_i: int| None::<bool>),
            decreases N_PROTOCOLS - entries@.len(),
        {
            entries.push(None);
            assert(entries@ =~= Seq::new(entries@.len(), |_i: int| None::<bool>));
        }
        AvailabilityCache { entries }
    }

    pub fn len(&self) -> (r: usize)
        ensures
            r == self@.len(),
    {
        self.entries.len()
    }

    pub fn get(&self, i: usize) -> (r: Option<bool>)
        requires
            i < self@.len(),
        ensures
            r == self@[i as int],
    {
        self.entries[i]
    }

    /// Records the availability of entry `i`, unless it is already known:
    /// the first value recorded wins.
    pub fn record(&mut self, i: usize, available: bool)
        requires
            i < old(self)@.len(),
        ensures
            old(self)@[i as int].is_some() ==> final(self)@ == old(self)@,
            old(self)@[i as int].is_none() ==> final(self)@ == old(self)@.update(
                i as int,
                Some(available),
            ),
    {
        if self.entries[i].is_none() {
            self.entries.set(i, Some(available));
        }
    }

    /// The known availabilities, indexed like the registry.
    pub fn as_slice(&self) -> (r: &[Option<bool>])
        ensures
            r@ == self@,
    {
        self.entries.as_slice()
    }
}

} // verus!
