//! Classic packet-filter programs that let the kernel drop ICMP traffic that
//! does not belong to a socket before user space is woken for it.
use vstd::prelude::*;

verus! {

/// Return, accepting the given number of bytes.
pub const OP_RET: u16 = 0x06;

/// Compare the accumulator with a constant; fall through when equal, else skip.
pub const OP_JNE: u16 = 0x15;

/// Load a 32-bit word at an absolute offset into the accumulator.
pub const OP_LD: u16 = 0x20;

/// Load one byte at an absolute offset into the accumulator.
pub const OP_LDB: u16 = 0x30;

/// ICMPv4 echo reply type, as the filter compares it.
pub const ICMP_V4_REPLY: u32 = 0;

/// ICMPv6 echo reply type, as the filter compares it.
pub const ICMP_V6_REPLY: u32 = 129;

/// One instruction of a classic packet filter: operation, the two jump
/// offsets taken when the comparison holds or not, and the immediate operand.
#[derive(Clone, Copy, Debug, PartialEq, Eq, Structural)]
pub struct FilterInsn {
    pub code: u16,
    pub jt: u8,
    pub jf: u8,
    pub k: u32,
}

impl FilterInsn {
    pub fn new(code: u16, jt: u8, jf: u8, k: u32) -> (r: FilterInsn)
        ensures
            r == (FilterInsn { code, jt, jf, k }),
    {
        FilterInsn { code, jt, jf, k }
    }
}

pub open spec fn spec_ld(k: u32) -> FilterInsn {
    FilterInsn { code: OP_LD, jt: 0, jf: 0, k }
}

pub open spec fn spec_ldb(k: u32) -> FilterInsn {
    FilterInsn { code: OP_LDB, jt: 0, jf: 0, k }
}

pub open spec fn spec_jne(offset: u8, k: u32) -> FilterInsn {
    FilterInsn { code: OP_JNE, jt: 0, jf: offset, k }
}

pub open spec fn spec_ret(k: u32) -> FilterInsn {
    FilterInsn { code: OP_RET, jt: 0, jf: 0, k }
}

/// Loads the 32-bit word at offset `k`.
pub fn ld(k: u32) -> (r: FilterInsn)
    ensures
        r == spec_ld(k),
{
    FilterInsn::new(OP_LD, 0, 0, k)
}

/// Loads the byte at offset `k`.
pub fn ldb(k: u32) -> (r: FilterInsn)
    ensures
        r == spec_ldb(k),
{
    FilterInsn::new(OP_LDB, 0, 0, k)
}

/// Skips `offset` instructions unless the accumulator equals `k`.
pub fn jne(offset: u8, k: u32) -> (r: FilterInsn)
    ensures
        r == spec_jne(offset, k),
{
    FilterInsn::new(OP_JNE, 0, offset, k)
}

/// Ends the program, accepting `k` bytes of the packet.
pub fn ret(k: u32) -> (r: FilterInsn)
    ensures
        r == spec_ret(k),
{
    FilterInsn::new(OP_RET, 0, 0, k)
}

/// The high half of a signature, as the filter compares it.
pub open spec fn sig_high(signature: u64) -> u32 {
    (signature >> 32u64) as u32
}

/// The low half of a signature, as the filter compares it.
pub open spec fn sig_low(signature: u64) -> u32 {
    (signature & 0xffff_ffffu64) as u32
}

/// The program that accepts a whole packet only when the byte at
/// `type_offset` is `reply_type` and the eight bytes at `sig_offset` hold
/// `signature`, and accepts zero bytes of any other packet.
pub open spec fn reply_filter(type_offset: u32, reply_type: u32, sig_offset: u32, signature: u64) -> Seq<
    FilterInsn,
> {
    seq![
        spec_ldb(type_offset),
        spec_jne(5, reply_type),
        spec_ld(sig_offset),
        spec_jne(3, sig_high(signature)),
        spec_ld((sig_offset + 4) as u32),
        spec_jne(1, sig_low(signature)),
        spec_ret(0xffff_ffff),
        spec_ret(0),
    ]
}

fn build_reply_filter(type_offset: u32, reply_type: u32, sig_offset: u32, signature: u64) -> (r: Vec<
    FilterInsn,
>)
    requires
        sig_offset + 4 <= u32::MAX,
    ensures
        r@ == reply_filter(type_offset, reply_type, sig_offset, signature),
{
    let mut r: Vec<FilterInsn> = Vec::new();
    r.push(ldb(type_offset));
    r.push(jne(5, reply_type));
    r.push(ld(sig_offset));
    r.push(jne(3, (signature >> 32u64) as u32));
    r.push(ld(sig_offset + 4));
    r.push(jne(1, (signature & 0xffff_ffffu64) as u32));
    r.push(ret(0xffff_ffff));
    r.push(ret(0));
    assert(r@ =~= reply_filter(type_offset, reply_type, sig_offset, signature));
    r
}

/// Which kernel filter a transport variant installs.
#[derive(Clone, Copy, Debug, PartialEq, Eq, Structural)]
pub enum Filter {
    /// No kernel filter: all filtering happens when replies are decoded.
    Unfiltered,
    /// Raw IPv4 socket on Linux: packets arrive with their 20-byte IP header.
    LinuxRaw4,
    /// Raw IPv6 socket on Linux: packets arrive without an IP header.
    LinuxRaw6,
}

impl Filter {
    /// The program this filter stands for, for a socket with `signature`.
    pub open spec fn spec_program(self, signature: u64) -> Seq<FilterInsn> {
        match self {
            Filter::Unfiltered => Seq::empty(),
            Filter::LinuxRaw4 => reply_filter(0x14, ICMP_V4_REPLY, 0x1c, signature),
            Filter::LinuxRaw6 => reply_filter(0, ICMP_V6_REPLY, 8, signature),
        }
    }

    /// Builds the filter program to attach to a socket with `signature`; an
    /// empty program means that nothing is to be attached.
    pub fn program(self, signature: u64) -> (r: Vec<FilterInsn>)
        ensures
            r@ == self.spec_program(signature),
    {
        match self {
            Filter::Unfiltered => Vec::new(),
            Filter::LinuxRaw4 => build_reply_filter(0x14, ICMP_V4_REPLY, 0x1c, signature),
            Filter::LinuxRaw6 => build_reply_filter(0, ICMP_V6_REPLY, 8, signature),
        }
    }
}

} // verus!
