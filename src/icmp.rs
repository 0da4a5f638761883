//! A decoded ICMP echo message and its textual session key.
use crate::proto::{echo_bytes, place_checksum, with_checksum, PADDING_OFFSET};
use crate::wire::{be16_at, be64_at, checksum, push_be16, push_be64, read_be16, read_be64};
use vstd::prelude::*;

verus! {

/// The decimal digit `d` as a character.
pub open spec fn digit_char(d: nat) -> char {
    if d == 0 {
        '0'
    } else if d == 1 {
        '1'
    } else if d == 2 {
        '2'
    } else if d == 3 {
        '3'
    } else if d == 4 {
        '4'
    } else if d == 5 {
        '5'
    } else if d == 6 {
        '6'
    } else if d == 7 {
        '7'
    } else if d == 8 {
        '8'
    } else {
        '9'
    }
}

/// The decimal representation of `n`, without leading zeros.
pub open spec fn decimal(n: nat) -> Seq<char>
    decreases n,
{
    if n < 10 {
        seq![digit_char(n)]
    } else {
        decimal(n / 10).push(digit_char(n % 10))
    }
}

fn digit_str(d: u16) -> (r: &'static str)
    requires
        d < 10,
    ensures
        r@ == seq![digit_char(d as nat)],
{
    proof {
        reveal_strlit("0");
        reveal_strlit("1");
        reveal_strlit("2");
        reveal_strlit("3");
        reveal_strlit("4");
        reveal_strlit("5");
        reveal_strlit("6");
        reveal_strlit("7");
        reveal_strlit("8");
        reveal_strlit("9");
    }
    let r = match d {
        0 => "0",
        1 => "1",
        2 => "2",
        3 => "3",
        4 => "4",
        5 => "5",
        6 => "6",
        7 => "7",
        8 => "8",
        _ => "9",
    };
    assert(r@ =~= seq![digit_char(d as nat)]);
    r
}

fn append_decimal(s: &mut String, n: u16)
    ensures
        final(s)@ == old(s)@ + decimal(n as nat),
    decreases n,
{
    if n >= 10 {
        append_decimal(s, n / 10);
    }
    s.append(digit_str(n % 10));
    assert(final(s)@ =~= old(s)@ + decimal(n as nat));
}

/// An ICMP echo message: type, request id, sequence, signature, timestamp,
/// and its size in octets without the IP header.
#[derive(Clone, Copy, Debug, PartialEq, Eq, Structural)]
pub struct IcmpPacket {
    pub icmp_type: u8,
    pub request_id: u16,
    pub seq: u16,
    pub signature: u64,
    pub ts: u64,
    pub size: usize,
}

impl IcmpPacket {
    pub fn new(icmp_type: u8, request_id: u16, seq: u16, signature: u64, ts: u64, size: usize) -> (r:
        IcmpPacket)
        ensures
            r == (IcmpPacket { icmp_type, request_id, seq, signature, ts, size }),
    {
        IcmpPacket { icmp_type, request_id, seq, signature, ts, size }
    }

    /// The key `<addr>-<request id>-<sequence>`, numbers in decimal.
    pub open spec fn spec_sid(self, addr: Seq<char>) -> Seq<char> {
        addr + seq!['-'] + decimal(self.request_id as nat) + seq!['-'] + decimal(self.seq as nat)
    }

    pub fn get_sid(&self, addr: String) -> (r: String)
        ensures
            r@ == self.spec_sid(addr@),
    {
        let mut r = addr;
        proof {
            reveal_strlit("-");
        }
        r.append("-");
        append_decimal(&mut r, self.request_id);
        r.append("-");
        append_decimal(&mut r, self.seq);
        r
    }

    pub fn get_ts(&self) -> (r: u64)
        ensures
            r == self.ts,
    {
        self.ts
    }

    /// Whether this is a message of type `icmp_type` carrying signature `sig`.
    pub fn is_match(&self, icmp_type: u8, sig: u64) -> (r: bool)
        ensures
            r == (self.icmp_type == icmp_type && self.signature == sig),
    {
        self.icmp_type == icmp_type && self.signature == sig
    }

    /// The octets `write` stores: the message with its checksum.
    pub open spec fn spec_wire(self) -> Seq<u8> {
        with_checksum(
            echo_bytes(
                self.icmp_type,
                self.request_id,
                self.seq,
                self.signature,
                self.ts,
                self.size as nat,
            ),
        )
    }

    /// Writes the message, checksum included, over the first `size` octets
    /// of `buf` and returns `size`.
    pub fn write(&self, buf: &mut Vec<u8>) -> (r: usize)
        requires
            PADDING_OFFSET <= self.size <= old(buf)@.len(),
        ensures
            r == self.size,
            final(buf)@ == self.spec_wire() + old(buf)@.skip(self.size as int),
    {
        let mut msg: Vec<u8> = Vec::new();
        msg.push(self.icmp_type);
        msg.push(0);
        msg.push(0);
        msg.push(0);
        push_be16(&mut msg, self.request_id);
        push_be16(&mut msg, self.seq);
        push_be64(&mut msg, self.signature);
        push_be64(&mut msg, self.ts);
        let ghost head = msg@;
        while msg.len() < self.size
            invariant
                PADDING_OFFSET <= msg@.len() <= self.size,
                msg@ == head + Seq::new((msg@.len() - PADDING_OFFSET) as nat, |_i: int| 48u8),
            decreases self.size - msg@.len(),
        {
            msg.push(48);
            assert(msg@ =~= head + Seq::new((msg@.len() - PADDING_OFFSET) as nat, |_i: int| 48u8));
        }
        assert(msg@ =~= echo_bytes(
            self.icmp_type,
            self.request_id,
            self.seq,
            self.signature,
            self.ts,
            self.size as nat,
        ));
        let cs = checksum(msg.as_slice());
        place_checksum(&mut msg, cs);
        let ghost old_buf = buf@;
        let mut i: usize = 0;
        while i < self.size
            invariant
                i <= self.size <= buf@.len(),
                msg@ == self.spec_wire(),
                buf@.len() == old_buf.len(),
                forall|j: int| 0 <= j < i ==> buf@[j] == msg@[j],
                forall|j: int| i <= j < buf@.len() ==> buf@[j] == old_buf[j],
            decreases self.size - i,
        {
            buf.set(i, msg[i]);
            i = i + 1;
        }
        assert(buf@ =~= self.spec_wire() + old_buf.skip(self.size as int));
        self.size
    }

    /// What `try_from` reads from `buf`, when it holds at least 24 octets.
    pub open spec fn spec_parse(buf: Seq<u8>) -> IcmpPacket {
        IcmpPacket {
            icmp_type: buf[0],
            request_id: be16_at(buf, 4),
            seq: be16_at(buf, 6),
            signature: be64_at(buf, 8),
            ts: be64_at(buf, 16),
            size: buf.len() as usize,
        }
    }

    /// Parses a message; fails when `buf` holds fewer than 24 octets.
    pub fn try_from(buf: &[u8]) -> (r: Result<IcmpPacket, &'static str>)
        ensures
            buf@.len() < PADDING_OFFSET <==> r is Err,
            r is Ok ==> r == Ok::<IcmpPacket, &'static str>(Self::spec_parse(buf@)),
    {
        if buf.len() < PADDING_OFFSET {
            return Err("too short");
        }
        Ok(
            IcmpPacket {
                icmp_type: buf[0],
                request_id: read_be16(buf, 4),
                seq: read_be16(buf, 6),
                signature: read_be64(buf, 8),
                ts: read_be64(buf, 16),
                size: buf.len(),
            },
        )
    }
}

} // verus!
