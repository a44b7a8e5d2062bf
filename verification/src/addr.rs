use vstd::prelude::*;

verus! {

/// One IP address. `V4(a)` holds the address whose dotted octets are the
/// big-endian bytes of `a` (so `127.0.0.1` is `V4(0x7F00_0001)`); `V6(a)`
/// holds the address whose sixteen network-order bytes are the big-endian
/// bytes of `a` (so `::1` is `V6(1)`).
#[derive(Clone, Copy, Debug, PartialEq, Eq, Structural)]
pub enum IpAddress {
    V4(u32),
    V6(u128),
}

/// One endpoint of a TCP connection: an address and a port in host order.
#[derive(Clone, Copy, Debug, PartialEq, Eq, Structural)]
pub struct SocketAddress {
    pub ip: IpAddress,
    pub port: u16,
}

/// One TCP connection as the kernel reports it: both endpoints. Keyed
/// externally by the socket inode; built fresh on every table read.
#[derive(Clone, Copy, Debug, PartialEq, Eq, Structural)]
pub struct Stream {
    pub local: SocketAddress,
    pub remote: SocketAddress,
}

/// One process's claim on a socket inode at scan time. Several processes may
/// hold the same inode; the scan reports every occurrence it finds.
#[derive(Clone, Copy, Debug, PartialEq, Eq, Structural)]
pub struct SocketFd {
    pub pid: u32,
    pub fd: u32,
    pub inode: u64,
}

/// Byte `i` (0 = most significant) of `v` read in big-endian order.
pub open spec fn be_byte_u32(v: u32, i: int) -> u8 {
    ((v >> (8 * (3 - i)) as u32) & 0xff) as u8
}

/// Byte `i` (0 = most significant) of `v` read in big-endian order.
pub open spec fn be_byte_u128(v: u128, i: int) -> u8 {
    ((v >> (8 * (15 - i)) as u128) & 0xff) as u8
}

/// `v` with its four bytes reversed.
pub open spec fn bswap32(v: u32) -> u32 {
    ((v & 0xff) << 24) | ((v & 0xff00) << 8) | ((v >> 8) & 0xff00) | ((v >> 24) & 0xff)
}

/// `v` with the bytes of each of its four 32-bit words reversed in place.
/// This is how a kernel table IPv6 address (four little-endian-stored words)
/// turns into the network-order address.
pub open spec fn v6_words_to_network(v: u128) -> u128 {
    (bswap32((v >> 96) as u32) as u128) << 96
        | (bswap32((v >> 64) as u32) as u128) << 64
        | (bswap32((v >> 32) as u32) as u128) << 32
        | (bswap32(v as u32) as u128)
}

/// `v` with its four bytes reversed, as executable code.
pub fn swap32(v: u32) -> (r: u32)
    ensures
        r == bswap32(v),
{
    ((v & 0xff) << 24u32) | ((v & 0xff00) << 8u32) | ((v >> 8u32) & 0xff00) | ((v >> 24u32) & 0xff)
}

/// Reorders a table-encoded IPv6 value (four little-endian-stored 32-bit
/// words) into the network-order address value.
pub fn v6_table_to_network(v: u128) -> (r: u128)
    ensures
        r == v6_words_to_network(v),
{
    let w3: u32 = (v >> 96u128) as u32;
    let w2: u32 = (v >> 64u128) as u32;
    let w1: u32 = (v >> 32u128) as u32;
    let w0: u32 = v as u32;
    ((swap32(w3) as u128) << 96u128) | ((swap32(w2) as u128) << 64u128) | ((swap32(w1) as u128)
        << 32u128) | (swap32(w0) as u128)
}

/// Reversing the bytes of a 32-bit word twice gives the word back.
pub proof fn lemma_bswap32_involution(v: u32)
    ensures
        bswap32(bswap32(v)) == v,
{
    assert(bswap32(bswap32(v)) == v) by (bit_vector);
}

/// Reordering the words of a table-encoded IPv6 value twice gives the
/// value back.
pub proof fn lemma_v6_words_involution(v: u128)
    ensures
        v6_words_to_network(v6_words_to_network(v)) == v,
{
    assert(v6_words_to_network(v6_words_to_network(v)) == v) by (bit_vector);
}

/// The word reorder is the same as reversing each four-byte group of the
/// big-endian reading of the table value: network byte `i` of the address
/// is big-endian byte `4*(i/4) + 3 - (i%4)` of the value the 32 hex digits
/// read as.
pub proof fn lemma_v6_reorder_reverses_groups(h: u128, i: int)
    requires
        0 <= i < 16,
    ensures
        be_byte_u128(v6_words_to_network(h), i) == be_byte_u128(h, 4 * (i / 4) + 3 - (i % 4)),
{
    assert(be_byte_u128(v6_words_to_network(h), 0) == be_byte_u128(h, 3) && be_byte_u128(
        v6_words_to_network(h),
        1,
    ) == be_byte_u128(h, 2) && be_byte_u128(v6_words_to_network(h), 2) == be_byte_u128(h, 1)
        && be_byte_u128(v6_words_to_network(h), 3) == be_byte_u128(h, 0) && be_byte_u128(
        v6_words_to_network(h),
        4,
    ) == be_byte_u128(h, 7) && be_byte_u128(v6_words_to_network(h), 5) == be_byte_u128(h, 6)
        && be_byte_u128(v6_words_to_network(h), 6) == be_byte_u128(h, 5) && be_byte_u128(
        v6_words_to_network(h),
        7,
    ) == be_byte_u128(h, 4) && be_byte_u128(v6_words_to_network(h), 8) == be_byte_u128(h, 11)
        && be_byte_u128(v6_words_to_network(h), 9) == be_byte_u128(h, 10) && be_byte_u128(
        v6_words_to_network(h),
        10,
    ) == be_byte_u128(h, 9) && be_byte_u128(v6_words_to_network(h), 11) == be_byte_u128(h, 8)
        && be_byte_u128(v6_words_to_network(h), 12) == be_byte_u128(h, 15) && be_byte_u128(
        v6_words_to_network(h),
        13,
    ) == be_byte_u128(h, 14) && be_byte_u128(v6_words_to_network(h), 14) == be_byte_u128(h, 13)
        && be_byte_u128(v6_words_to_network(h), 15) == be_byte_u128(h, 12)) by (bit_vector);
}

/// The sixteen network-order bytes of a table-encoded IPv6 value: the four
/// little-endian 32-bit words of `ip` are each put back into big-endian
/// byte order, keeping the word order.
pub fn v6_be_to_bytes(ip: u128) -> (r: [u8; 16])
    ensures
        forall|i: int| 0 <= i < 16 ==> r@[i] == be_byte_u128(v6_words_to_network(ip), i),
{
    let n: u128 = v6_table_to_network(ip);
    let r: [u8; 16] = [
        ((n >> 120u128) & 0xff) as u8,
        ((n >> 112u128) & 0xff) as u8,
        ((n >> 104u128) & 0xff) as u8,
        ((n >> 96u128) & 0xff) as u8,
        ((n >> 88u128) & 0xff) as u8,
        ((n >> 80u128) & 0xff) as u8,
        ((n >> 72u128) & 0xff) as u8,
        ((n >> 64u128) & 0xff) as u8,
        ((n >> 56u128) & 0xff) as u8,
        ((n >> 48u128) & 0xff) as u8,
        ((n >> 40u128) & 0xff) as u8,
        ((n >> 32u128) & 0xff) as u8,
        ((n >> 24u128) & 0xff) as u8,
        ((n >> 16u128) & 0xff) as u8,
        ((n >> 8u128) & 0xff) as u8,
        ((n >> 0u128) & 0xff) as u8,
    ];
    proof {
        assert(r@[0] == be_byte_u128(n, 0));
        assert(r@[1] == be_byte_u128(n, 1));
        assert(r@[2] == be_byte_u128(n, 2));
        assert(r@[3] == be_byte_u128(n, 3));
        assert(r@[4] == be_byte_u128(n, 4));
        assert(r@[5] == be_byte_u128(n, 5));
        assert(r@[6] == be_byte_u128(n, 6));
        assert(r@[7] == be_byte_u128(n, 7));
        assert(r@[8] == be_byte_u128(n, 8));
        assert(r@[9] == be_byte_u128(n, 9));
        assert(r@[10] == be_byte_u128(n, 10));
        assert(r@[11] == be_byte_u128(n, 11));
        assert(r@[12] == be_byte_u128(n, 12));
        assert(r@[13] == be_byte_u128(n, 13));
        assert(r@[14] == be_byte_u128(n, 14));
        assert(r@[15] == be_byte_u128(n, 15));
    }
    r
}

} // verus!
