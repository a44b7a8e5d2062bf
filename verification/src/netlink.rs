//! The wire codec of the socket-diagnostics destroy exchange: building the
//! one request datagram that asks the kernel to destroy the TCP socket of
//! a 4-tuple, and reading the response datagrams, each of which may hold
//! several concatenated messages. The netlink socket itself is plain
//! blocking I/O and stays outside; it sends and receives the byte buffers
//! these functions build and read.
//!
//! A message starts with a sixteen-byte header: total length (32 bits),
//! message type (16), flags (16), sequence number (32) and port (32), the
//! multi-byte fields in the host's little-endian order. The destroy request
//! carries type 21 with flags request-and-ack, and a 56-byte payload:
//! protocol TCP, the address family, a state filter matching every
//! connection state, and the socket identifier with both ports big-endian,
//! both addresses as sixteen network-order bytes (an IPv4 address in the
//! first four), a wildcarded interface id and an all-ones cookie.

use crate::addr::{be_byte_u128, be_byte_u32, IpAddress, SocketAddress};
use vstd::prelude::*;

verus! {

/// Why the netlink exchange failed.
#[derive(Clone, Copy, Debug, PartialEq, Eq, Structural)]
pub enum NetlinkError {
    /// The kernel answered with an error message; carries the raw 32-bit
    /// code of that message, the bit pattern of a negative errno.
    ErrorCode(u32),
    /// A message of a type the exchange does not expect, an overrun
    /// included; carries the type.
    UnexpectedMessage(u16),
    /// A message's declared length overran the received buffer, or a
    /// message was too short for its own header.
    Truncated,
}

/// What one fully consumed response datagram means.
#[derive(Clone, Copy, Debug, PartialEq, Eq, Structural)]
pub enum ResponseOutcome {
    /// A done or ack message ended the exchange: the request succeeded.
    Finished,
    /// Every message was informational: another datagram must be received.
    MoreNeeded,
}

/// The little-endian 16-bit reading at `off`.
pub open spec fn le16_at(s: Seq<u8>, off: int) -> int {
    s[off] + 256 * s[off + 1]
}

/// The little-endian 32-bit reading at `off`.
pub open spec fn le32_at(s: Seq<u8>, off: int) -> int {
    s[off] + 256 * s[off + 1] + 65536 * s[off + 2] + 16777216 * s[off + 3]
}

/// The address family byte of the request: 2 for IPv4, 10 for IPv6.
pub open spec fn family_byte(ip: IpAddress) -> u8 {
    match ip {
        IpAddress::V4(_) => 2,
        IpAddress::V6(_) => 10,
    }
}

/// An address as the sixteen-byte socket identifier field holds it: an
/// IPv6 address fills it, an IPv4 address takes the first four bytes.
pub open spec fn addr_bytes16(ip: IpAddress) -> Seq<u8> {
    match ip {
        IpAddress::V4(a) => Seq::new(
            16,
            |i: int|
                if i < 4 {
                    be_byte_u32(a, i)
                } else {
                    0u8
                },
        ),
        IpAddress::V6(a) => Seq::new(16, |i: int| be_byte_u128(a, i)),
    }
}

/// The 72 bytes of the destroy request for one 4-tuple: the netlink
/// header (length 72, type 21, flags request-and-ack, sequence and port
/// zero), then the socket-diagnostics payload (family from the source
/// address, protocol TCP, no extensions, the all-states filter, both
/// ports big-endian, both addresses, interface zero, all-ones cookie).
pub open spec fn spec_destroy_request(src: SocketAddress, dst: SocketAddress) -> Seq<u8> {
    seq![
        72u8,
        0u8,
        0u8,
        0u8,
        21u8,
        0u8,
        5u8,
        0u8,
        0u8,
        0u8,
        0u8,
        0u8,
        0u8,
        0u8,
        0u8,
        0u8,
        family_byte(src.ip),
        6u8,
        0u8,
        0u8,
        0xFEu8,
        0x0Fu8,
        0u8,
        0u8,
        (src.port >> 8) as u8,
        (src.port & 0xff) as u8,
        (dst.port >> 8) as u8,
        (dst.port & 0xff) as u8,
    ] + addr_bytes16(src.ip) + addr_bytes16(dst.ip) + seq![
        0u8,
        0u8,
        0u8,
        0u8,
        255u8,
        255u8,
        255u8,
        255u8,
        255u8,
        255u8,
        255u8,
        255u8,
    ]
}

/// The request is self-consistent on the wire: the length its own header
/// declares is the length of the serialized buffer, for either family.
pub proof fn lemma_request_header_consistent(src: SocketAddress, dst: SocketAddress)
    ensures
        spec_destroy_request(src, dst).len() == 72,
        le32_at(spec_destroy_request(src, dst), 0) == spec_destroy_request(src, dst).len(),
{
    let m = spec_destroy_request(src, dst);
    assert(m.len() == 72);
    assert(m[0] == 72u8 && m[1] == 0u8 && m[2] == 0u8 && m[3] == 0u8);
}

/// The address family byte, as executable code.
pub fn family_of(ip: &IpAddress) -> (r: u8)
    ensures
        r == family_byte(*ip),
{
    match ip {
        IpAddress::V4(_) => 2,
        IpAddress::V6(_) => 10,
    }
}

/// Appends an address as the sixteen-byte socket identifier field.
fn push_addr16(ip: &IpAddress, out: &mut Vec<u8>)
    ensures
        final(out)@ == old(out)@ + addr_bytes16(*ip),
{
    let ghost base = out@;
    match ip {
        IpAddress::V4(a) => {
            let v: u32 = *a;
            let mut k: usize = 0;
            proof {
                assert(base + addr_bytes16(IpAddress::V4(v)).take(0) =~= base);
            }
            while k < 16
                invariant
                    0 <= k <= 16,
                    out@ == base + addr_bytes16(IpAddress::V4(v)).take(k as int),
                decreases 16 - k,
            {
                let b: u8 = if k < 4 {
                    let sh: u32 = 24 - 8 * (k as u32);
                    ((v >> sh) & 0xff) as u8
                } else {
                    0
                };
                proof {
                    assert(b == addr_bytes16(IpAddress::V4(v))[k as int]);
                    assert(addr_bytes16(IpAddress::V4(v)).take(k + 1) =~= addr_bytes16(
                        IpAddress::V4(v),
                    ).take(k as int).push(b));
                }
                out.push(b);
                proof {
                    assert(out@ =~= base + addr_bytes16(IpAddress::V4(v)).take(k + 1));
                }
                k = k + 1;
            }
            proof {
                assert(addr_bytes16(IpAddress::V4(v)).take(16) =~= addr_bytes16(IpAddress::V4(v)));
            }
        },
        IpAddress::V6(a) => {
            let v: u128 = *a;
            let mut k: usize = 0;
            proof {
                assert(base + addr_bytes16(IpAddress::V6(v)).take(0) =~= base);
            }
            while k < 16
                invariant
                    0 <= k <= 16,
                    out@ == base + addr_bytes16(IpAddress::V6(v)).take(k as int),
                decreases 16 - k,
            {
                let sh: u128 = 120 - 8 * (k as u128);
                let b: u8 = ((v >> sh) & 0xff) as u8;
                proof {
                    assert(b == addr_bytes16(IpAddress::V6(v))[k as int]);
                    assert(addr_bytes16(IpAddress::V6(v)).take(k + 1) =~= addr_bytes16(
                        IpAddress::V6(v),
                    ).take(k as int).push(b));
                }
                out.push(b);
                proof {
                    assert(out@ =~= base + addr_bytes16(IpAddress::V6(v)).take(k + 1));
                }
                k = k + 1;
            }
            proof {
                assert(addr_bytes16(IpAddress::V6(v)).take(16) =~= addr_bytes16(IpAddress::V6(v)));
            }
        },
    }
}

/// Builds the destroy request datagram for one 4-tuple.
pub fn build_destroy_request(src: &SocketAddress, dst: &SocketAddress) -> (r: Vec<u8>)
    ensures
        r@ == spec_destroy_request(*src, *dst),
        r@.len() == 72,
{
    let mut out: Vec<u8> = Vec::new();
    out.push(72);
    out.push(0);
    out.push(0);
    out.push(0);
    out.push(21);
    out.push(0);
    out.push(5);
    out.push(0);
    out.push(0);
    out.push(0);
    out.push(0);
    out.push(0);
    out.push(0);
    out.push(0);
    out.push(0);
    out.push(0);
    out.push(family_of(&src.ip));
    out.push(6);
    out.push(0);
    out.push(0);
    out.push(0xFE);
    out.push(0x0F);
    out.push(0);
    out.push(0);
    out.push((src.port >> 8u16) as u8);
    out.push((src.port & 0xff) as u8);
    out.push((dst.port >> 8u16) as u8);
    out.push((dst.port & 0xff) as u8);
    push_addr16(&src.ip, &mut out);
    push_addr16(&dst.ip, &mut out);
    out.push(0);
    out.push(0);
    out.push(0);
    out.push(0);
    out.push(255);
    out.push(255);
    out.push(255);
    out.push(255);
    out.push(255);
    out.push(255);
    out.push(255);
    out.push(255);
    proof {
        assert(out@ =~= spec_destroy_request(*src, *dst));
    }
    out
}

/// Reads the little-endian 16-bit value at `off`.
fn read_le_u16(buf: &[u8], off: usize) -> (r: u16)
    requires
        off + 2 <= buf@.len(),
    ensures
        r as int == le16_at(buf@, off as int),
{
    (buf[off] as u16) + 256 * (buf[off + 1] as u16)
}

/// Reads the little-endian 32-bit value at `off`.
fn read_le_u32(buf: &[u8], off: usize) -> (r: u32)
    requires
        off + 4 <= buf@.len(),
    ensures
        r as int == le32_at(buf@, off as int),
{
    (buf[off] as u32) + 256 * (buf[off + 1] as u32) + 65536 * (buf[off + 2] as u32) + 16777216 * (
    buf[off + 3] as u32)
}

/// What one response datagram of `end` bytes means, read from `off`:
/// messages are consumed in order, each advancing by its declared length.
/// A done message (type 3) or an ack (an error message, type 2, with code
/// zero) finishes the exchange; an error message with a nonzero code, an
/// unexpected or overrun type, or a length that does not fit is a hard
/// failure; a datagram of nothing but noop (type 1) and socket-diagnostics
/// (type 20) messages asks for another receive.
pub open spec fn spec_consume(buf: Seq<u8>, off: int, end: int) -> Result<
    ResponseOutcome,
    NetlinkError,
>
    decreases end - off,
{
    if off == end {
        Ok(ResponseOutcome::MoreNeeded)
    } else if end - off < 16 {
        Err(NetlinkError::Truncated)
    } else {
        let len = le32_at(buf, off);
        let t = le16_at(buf, off + 4);
        if t == 3 {
            Ok(ResponseOutcome::Finished)
        } else if t == 2 {
            if end - off < 20 {
                Err(NetlinkError::Truncated)
            } else if le32_at(buf, off + 16) == 0 {
                Ok(ResponseOutcome::Finished)
            } else {
                Err(NetlinkError::ErrorCode(le32_at(buf, off + 16) as u32))
            }
        } else if t == 1 || t == 20 {
            if len < 16 || off + len > end {
                Err(NetlinkError::Truncated)
            } else {
                spec_consume(buf, off + len, end)
            }
        } else {
            Err(NetlinkError::UnexpectedMessage(t as u16))
        }
    }
}

/// Consumes one response datagram of `size` bytes in a single pass.
pub fn consume_response(buf: &[u8], size: usize) -> (r: Result<ResponseOutcome, NetlinkError>)
    requires
        size <= buf@.len(),
    ensures
        r == spec_consume(buf@, 0, size as int),
{
    let mut off: usize = 0;
    loop
        invariant
            0 <= off <= size <= buf@.len(),
            spec_consume(buf@, 0, size as int) == spec_consume(buf@, off as int, size as int),
        decreases size - off,
    {
        if off == size {
            return Ok(ResponseOutcome::MoreNeeded);
        }
        if size - off < 16 {
            return Err(NetlinkError::Truncated);
        }
        let len: u32 = read_le_u32(buf, off);
        let t: u16 = read_le_u16(buf, off + 4);
        if t == 3 {
            return Ok(ResponseOutcome::Finished);
        }
        if t == 2 {
            if size - off < 20 {
                return Err(NetlinkError::Truncated);
            }
            let code: u32 = read_le_u32(buf, off + 16);
            if code == 0 {
                return Ok(ResponseOutcome::Finished);
            }
            return Err(NetlinkError::ErrorCode(code));
        }
        if t == 1 || t == 20 {
            let len_us: usize = len as usize;
            if len_us < 16 || len_us > size - off {
                return Err(NetlinkError::Truncated);
            }
            off = off + len_us;
        } else {
            return Err(NetlinkError::UnexpectedMessage(t));
        }
    }
}

} // verus!
