//! Decoder of the kernel's textual TCP tables (`/proc/net/tcp` and
//! `/proc/net/tcp6`): one header line, then one line per socket whose
//! whitespace-separated columns hold `HEXADDR:HEXPORT` endpoints and the
//! socket inode. The decoder turns the raw text into an inode-keyed map of
//! connection records, or says exactly which width or digit check a
//! malformed line failed.

use crate::addr::{bswap32, v6_words_to_network, IpAddress, SocketAddress, Stream};
use crate::hexnum::{
    all_dec, all_hex, all_upper_hex, dec_value, hex_encode, hex_push, hex_value,
    is_upper_hex_digit, lemma_hex_encode_len, lemma_hex_encode_of_value, lemma_hex_encode_upper,
    lemma_hex_value_bound, lemma_hex_value_of_encode, parse_dec_u64, parse_hex_u128, pow16,
};
use std::collections::HashMap;
use vstd::prelude::*;

verus! {

broadcast use vstd::std_specs::hash::group_hash_axioms;

/// Which check a malformed table line failed.
#[derive(Clone, Copy, Debug, PartialEq, Eq, Structural)]
pub enum FormatError {
    /// A socket line held fewer than ten columns.
    FieldCount,
    /// An `addr:port` field had the wrong total width.
    FieldWidth,
    /// An `addr:port` field held no colon.
    MissingColon,
    /// The address part before the first colon was not exactly the
    /// family's digit count.
    AddressWidth,
    /// A non-hex byte stood in the address part.
    AddressHex,
    /// A non-hex byte stood in the port part.
    PortHex,
    /// The inode column was not a plain decimal number fitting 64 bits.
    BadInode,
}

/// The two table variants and their address field widths.
#[derive(Clone, Copy, Debug, PartialEq, Eq, Structural)]
pub enum AddrFamily {
    V4,
    V6,
}

impl AddrFamily {
    /// Hex digits of an address of this family in the table text.
    pub open spec fn spec_addr_digits(self) -> int {
        match self {
            AddrFamily::V4 => 8,
            AddrFamily::V6 => 32,
        }
    }

    /// Hex digits of an address of this family in the table text.
    pub fn addr_digits(self) -> (r: usize)
        ensures
            r == self.spec_addr_digits(),
    {
        match self {
            AddrFamily::V4 => 8,
            AddrFamily::V6 => 32,
        }
    }
}

/// Space or tab: the separators inside one table line.
pub open spec fn is_ws(b: u8) -> bool {
    b == 32 || b == 9
}

/// Length of the leading run of non-separator bytes.
pub open spec fn token_len(s: Seq<u8>) -> nat
    decreases s.len(),
{
    if s.len() == 0 || is_ws(s[0]) {
        0
    } else {
        1 + token_len(s.drop_first())
    }
}

pub proof fn lemma_token_len(s: Seq<u8>)
    ensures
        token_len(s) <= s.len(),
    decreases s.len(),
{
    if s.len() > 0 && !is_ws(s[0]) {
        lemma_token_len(s.drop_first());
    }
}

/// The whitespace-separated columns of one line, in order.
pub open spec fn split_fields(s: Seq<u8>) -> Seq<Seq<u8>>
    decreases s.len(),
    via split_fields_decreases
{
    if s.len() == 0 {
        Seq::empty()
    } else if is_ws(s[0]) {
        split_fields(s.drop_first())
    } else {
        seq![s.take(token_len(s) as int)] + split_fields(s.skip(token_len(s) as int))
    }
}

#[via_fn]
proof fn split_fields_decreases(s: Seq<u8>) {
    lemma_token_len(s);
}

/// Length of the leading run of non-newline bytes.
pub open spec fn line_len(s: Seq<u8>) -> nat
    decreases s.len(),
{
    if s.len() == 0 || s[0] == 10 {
        0
    } else {
        1 + line_len(s.drop_first())
    }
}

pub proof fn lemma_line_len(s: Seq<u8>)
    ensures
        line_len(s) <= s.len(),
    decreases s.len(),
{
    if s.len() > 0 && s[0] != 10 {
        lemma_line_len(s.drop_first());
    }
}

/// The lines of `s`, split at each newline byte; a final newline closes the
/// last line without opening an empty one.
pub open spec fn split_lines(s: Seq<u8>) -> Seq<Seq<u8>>
    decreases s.len(),
    via split_lines_decreases
{
    if s.len() == 0 {
        Seq::empty()
    } else {
        let k = line_len(s) as int;
        if k == s.len() {
            seq![s]
        } else {
            seq![s.take(k)] + split_lines(s.skip(k + 1))
        }
    }
}

#[via_fn]
proof fn split_lines_decreases(s: Seq<u8>) {
    lemma_line_len(s);
}

/// Splits one line into its whitespace-separated columns.
pub fn split_ws(s: &[u8]) -> (r: Vec<Vec<u8>>)
    ensures
        r@.map_values(|f: Vec<u8>| f@) == split_fields(s@),
{
    let mut r: Vec<Vec<u8>> = Vec::new();
    let mut i: usize = 0;
    proof {
        assert(s@.skip(0) =~= s@);
        assert(r@.map_values(|f: Vec<u8>| f@) =~= Seq::<Seq<u8>>::empty());
        assert(Seq::<Seq<u8>>::empty() + split_fields(s@) =~= split_fields(s@));
    }
    while i < s.len()
        invariant
            0 <= i <= s@.len(),
            split_fields(s@) == r@.map_values(|f: Vec<u8>| f@) + split_fields(s@.skip(i as int)),
        decreases s@.len() - i,
    {
        if is_sep(s[i]) {
            proof {
                assert(s@.skip(i as int)[0] == s@[i as int]);
                assert(s@.skip(i as int).drop_first() =~= s@.skip(i + 1));
            }
            i = i + 1;
        } else {
            let start: usize = i;
            let ghost rest = s@.skip(start as int);
            let mut j: usize = i + 1;
            proof {
                lemma_token_len(rest);
                assert(rest.drop_first() =~= s@.skip(start as int + 1));
                assert(token_len(rest) == 1 + token_len(s@.skip(start + 1)));
            }
            while j < s.len() && !is_sep(s[j])
                invariant
                    start < j <= s@.len(),
                    rest == s@.skip(start as int),
                    token_len(rest) == j - start + token_len(s@.skip(j as int)),
                decreases s@.len() - j,
            {
                proof {
                    lemma_token_len(s@.skip(j as int));
                    assert(s@.skip(j as int).drop_first() =~= s@.skip(j + 1));
                    assert(s@.skip(j as int)[0] == s@[j as int]);
                    assert(token_len(s@.skip(j as int)) == 1 + token_len(s@.skip(j + 1)));
                }
                j = j + 1;
            }
            proof {
                if j < s.len() {
                    assert(s@.skip(j as int)[0] == s@[j as int]);
                }
                assert(token_len(s@.skip(j as int)) == 0);
                assert(token_len(rest) == j - start);
            }
            let mut tok: Vec<u8> = Vec::new();
            let mut p: usize = start;
            while p < j
                invariant
                    start <= p <= j <= s@.len(),
                    tok@ == s@.subrange(start as int, p as int),
                decreases j - p,
            {
                tok.push(s[p]);
                proof {
                    assert(s@.subrange(start as int, p + 1) =~= s@.subrange(
                        start as int,
                        p as int,
                    ).push(s@[p as int]));
                }
                p = p + 1;
            }
            proof {
                assert(rest[0] == s@[start as int]);
                assert(tok@ =~= rest.take(token_len(rest) as int));
                assert(rest.skip(token_len(rest) as int) =~= s@.skip(j as int));
                assert(split_fields(rest) == seq![tok@] + split_fields(s@.skip(j as int)));
            }
            let ghost prev = r@.map_values(|f: Vec<u8>| f@);
            r.push(tok);
            proof {
                assert(r@.map_values(|f: Vec<u8>| f@) =~= prev.push(tok@));
                assert(prev + split_fields(rest) =~= prev.push(tok@) + split_fields(
                    s@.skip(j as int),
                ));
            }
            i = j;
        }
    }
    proof {
        assert(split_fields(s@.skip(i as int)) =~= Seq::<Seq<u8>>::empty());
        assert(split_fields(s@) =~= r@.map_values(|f: Vec<u8>| f@));
    }
    r
}

/// Space or tab, as executable code.
pub fn is_sep(b: u8) -> (r: bool)
    ensures
        r == is_ws(b),
{
    b == 32 || b == 9
}

/// No colon stands in `s` before position `i`.
pub open spec fn no_colon_before(s: Seq<u8>, i: int) -> bool {
    forall|j: int| 0 <= j < i ==> s[j] != 58
}

/// The address a table hex reading stands for: IPv4 fields are a
/// byte-reversed (little-endian-stored) 32-bit address, IPv6 fields four
/// little-endian-stored 32-bit words.
pub open spec fn table_ip(fam: AddrFamily, h: nat) -> IpAddress {
    match fam {
        AddrFamily::V4 => IpAddress::V4(bswap32(h as u32)),
        AddrFamily::V6 => IpAddress::V6(v6_words_to_network(h as u128)),
    }
}

/// What one `HEXADDR:HEXPORT` column of the table means: the decoded
/// endpoint, or the first check it fails, in the order width, colon,
/// address width, address digits, port digits.
pub open spec fn spec_parse_addr_field(s: Seq<u8>, fam: AddrFamily) -> Result<
    SocketAddress,
    FormatError,
> {
    let alen = fam.spec_addr_digits();
    if s.len() != alen + 5 {
        Err(FormatError::FieldWidth)
    } else if no_colon_before(s, s.len() as int) {
        Err(FormatError::MissingColon)
    } else if !(s[alen] == 58 && no_colon_before(s, alen)) {
        Err(FormatError::AddressWidth)
    } else {
        let ip = s.subrange(0, alen);
        let port = s.subrange(alen + 1, s.len() as int);
        if !all_hex(ip) {
            Err(FormatError::AddressHex)
        } else if !all_hex(port) {
            Err(FormatError::PortHex)
        } else {
            Ok(SocketAddress { ip: table_ip(fam, hex_value(ip)), port: hex_value(port) as u16 })
        }
    }
}

/// Decodes one `HEXADDR:HEXPORT` column of the table.
pub fn parse_addr_field(s: &[u8], fam: AddrFamily) -> (r: Result<SocketAddress, FormatError>)
    ensures
        r == spec_parse_addr_field(s@, fam),
{
    let alen: usize = fam.addr_digits();
    if s.len() != alen + 5 {
        return Err(FormatError::FieldWidth);
    }
    let mut c: usize = 0;
    while c < s.len() && s[c] != 58
        invariant
            0 <= c <= s@.len(),
            no_colon_before(s@, c as int),
        decreases s@.len() - c,
    {
        c = c + 1;
    }
    if c == s.len() {
        return Err(FormatError::MissingColon);
    }
    if c != alen {
        return Err(FormatError::AddressWidth);
    }
    let ip: &[u8] = &s[0..alen];
    let port: &[u8] = &s[alen + 1..s.len()];
    proof {
        assert(ip@ == s@.subrange(0, alen as int));
        assert(port@ == s@.subrange(alen + 1, s@.len() as int));
    }
    match parse_hex_u128(ip) {
        None => Err(FormatError::AddressHex),
        Some(h) => {
            match parse_hex_u128(port) {
                None => Err(FormatError::PortHex),
                Some(p) => {
                    proof {
                        lemma_hex_value_bound(port@);
                        lemma_hex_value_bound(ip@);
                        assert(pow16(4) == 0x1_0000 && pow16(8) == 0x1_0000_0000) by {
                            reveal_with_fuel(pow16, 9);
                        };
                    }
                    let ipaddr: IpAddress = match fam {
                        AddrFamily::V4 => IpAddress::V4(crate::addr::swap32(h as u32)),
                        AddrFamily::V6 => IpAddress::V6(crate::addr::v6_table_to_network(h)),
                    };
                    Ok(SocketAddress { ip: ipaddr, port: p as u16 })
                },
            }
        },
    }
}

/// The table text form of one endpoint: the family's fixed width of
/// uppercase hex digits for the address as the kernel stores it (IPv4
/// byte-reversed, IPv6 as four little-endian-stored words), a colon, four
/// uppercase hex digits for the port.
pub open spec fn spec_encode_addr_field(sa: SocketAddress) -> Seq<u8> {
    match sa.ip {
        IpAddress::V4(a) => hex_encode(bswap32(a) as nat, 8) + seq![58u8] + hex_encode(
            sa.port as nat,
            4,
        ),
        IpAddress::V6(a) => hex_encode(v6_words_to_network(a) as nat, 32) + seq![58u8] + hex_encode(
            sa.port as nat,
            4,
        ),
    }
}

/// Encodes one endpoint back into the table's `HEXADDR:HEXPORT` form.
pub fn encode_addr_field(sa: &SocketAddress) -> (r: Vec<u8>)
    ensures
        r@ == spec_encode_addr_field(*sa),
{
    let mut out: Vec<u8> = Vec::new();
    match sa.ip {
        IpAddress::V4(a) => hex_push(crate::addr::swap32(a) as u128, 8, &mut out),
        IpAddress::V6(a) => hex_push(crate::addr::v6_table_to_network(a), 32, &mut out),
    }
    out.push(58);
    hex_push(sa.port as u128, 4, &mut out);
    proof {
        assert(out@ =~= spec_encode_addr_field(*sa));
    }
    out
}

/// A well-formed table field of uppercase hex digits decodes, and encoding
/// the decoded endpoint gives the original text back byte for byte.
pub proof fn lemma_addr_field_round_trip(s: Seq<u8>, fam: AddrFamily)
    requires
        s.len() == fam.spec_addr_digits() + 5,
        s[fam.spec_addr_digits()] == 58,
        no_colon_before(s, fam.spec_addr_digits()),
        all_upper_hex(s.subrange(0, fam.spec_addr_digits())),
        all_upper_hex(s.subrange(fam.spec_addr_digits() + 1, s.len() as int)),
    ensures
        spec_parse_addr_field(s, fam) is Ok,
        spec_encode_addr_field(spec_parse_addr_field(s, fam)->Ok_0) == s,
{
    let alen = fam.spec_addr_digits();
    let ip = s.subrange(0, alen);
    let port = s.subrange(alen + 1, s.len() as int);
    assert(!no_colon_before(s, s.len() as int)) by {
        assert(s[alen] == 58);
    };
    assert(all_hex(ip) && all_hex(port));
    let h = hex_value(ip);
    let p = hex_value(port);
    lemma_hex_value_bound(ip);
    lemma_hex_value_bound(port);
    assert(pow16(4) == 0x1_0000 && pow16(8) == 0x1_0000_0000) by {
        reveal_with_fuel(pow16, 9);
    };
    assert(pow16(32) == 0x1_0000_0000_0000_0000_0000_0000_0000_0000) by {
        reveal_with_fuel(pow16, 33);
    };
    let sa = spec_parse_addr_field(s, fam)->Ok_0;
    assert(sa.port as nat == p);
    lemma_hex_encode_of_value(ip);
    lemma_hex_encode_of_value(port);
    match fam {
        AddrFamily::V4 => {
            crate::addr::lemma_bswap32_involution(h as u32);
            assert(sa.ip == IpAddress::V4(bswap32(h as u32)));
            assert(bswap32(bswap32(h as u32)) as nat == h);
            assert(spec_encode_addr_field(sa) == hex_encode(h, 8) + seq![58u8] + hex_encode(p, 4));
            assert(spec_encode_addr_field(sa) =~= s);
        },
        AddrFamily::V6 => {
            crate::addr::lemma_v6_words_involution(h as u128);
            assert(sa.ip == IpAddress::V6(v6_words_to_network(h as u128)));
            assert(v6_words_to_network(v6_words_to_network(h as u128)) as nat == h);
            assert(spec_encode_addr_field(sa) == hex_encode(h, 32) + seq![58u8] + hex_encode(p, 4));
            assert(spec_encode_addr_field(sa) =~= s);
        },
    }
}

/// The other direction of the round trip: encoding an endpoint of the
/// family always yields a well-formed field, and decoding that field gives
/// the endpoint back.
pub proof fn lemma_encode_then_parse(sa: SocketAddress, fam: AddrFamily)
    requires
        (fam is V4 <==> sa.ip is V4),
    ensures
        spec_parse_addr_field(spec_encode_addr_field(sa), fam) == Ok::<
            SocketAddress,
            FormatError,
        >(sa),
{
    let alen = fam.spec_addr_digits();
    let s = spec_encode_addr_field(sa);
    let h: nat = match sa.ip {
        IpAddress::V4(a) => bswap32(a) as nat,
        IpAddress::V6(a) => v6_words_to_network(a) as nat,
    };
    let ipd = hex_encode(h, alen as nat);
    let portd = hex_encode(sa.port as nat, 4);
    assert(s == ipd + seq![58u8] + portd);
    lemma_hex_encode_len(h, alen as nat);
    lemma_hex_encode_len(sa.port as nat, 4);
    lemma_hex_encode_upper(h, alen as nat);
    lemma_hex_encode_upper(sa.port as nat, 4);
    assert(s.len() == alen + 5);
    assert(s[alen] == 58);
    assert(forall|i: int| 0 <= i < alen ==> s[i] == ipd[i]);
    assert(forall|i: int| 0 <= i < 4 ==> s[alen + 1 + i] == portd[i]);
    assert(no_colon_before(s, alen)) by {
        assert(forall|i: int| 0 <= i < alen ==> is_upper_hex_digit(s[i]));
    };
    assert(!no_colon_before(s, s.len() as int));
    let ip = s.subrange(0, alen);
    let port = s.subrange(alen + 1, s.len() as int);
    assert(ip =~= ipd);
    assert(port =~= portd);
    assert(all_hex(ip) && all_hex(port));
    assert(pow16(4) == 0x1_0000 && pow16(8) == 0x1_0000_0000) by {
        reveal_with_fuel(pow16, 9);
    };
    assert(pow16(32) == 0x1_0000_0000_0000_0000_0000_0000_0000_0000) by {
        reveal_with_fuel(pow16, 33);
    };
    lemma_hex_value_of_encode(h, alen as nat);
    lemma_hex_value_of_encode(sa.port as nat, 4);
    match sa.ip {
        IpAddress::V4(a) => {
            crate::addr::lemma_bswap32_involution(a);
            assert(table_ip(fam, hex_value(ip)) == sa.ip);
        },
        IpAddress::V6(a) => {
            crate::addr::lemma_v6_words_involution(a);
            assert(table_ip(fam, hex_value(ip)) == sa.ip);
        },
    }
}

/// What one socket line of the table means: its inode key and connection
/// record, or the first check it fails. Columns two and three are the local
/// and remote endpoints; column ten is the decimal socket inode.
pub open spec fn spec_parse_line(line: Seq<u8>, fam: AddrFamily) -> Result<
    (u64, Stream),
    FormatError,
> {
    let f = split_fields(line);
    if f.len() < 10 {
        Err(FormatError::FieldCount)
    } else {
        match spec_parse_addr_field(f[1], fam) {
            Err(e) => Err(e),
            Ok(local) => match spec_parse_addr_field(f[2], fam) {
                Err(e) => Err(e),
                Ok(remote) => if f[9].len() > 0 && all_dec(f[9]) && dec_value(f[9]) <= u64::MAX {
                    Ok((dec_value(f[9]) as u64, Stream { local, remote }))
                } else {
                    Err(FormatError::BadInode)
                },
            },
        }
    }
}

/// Decodes one socket line of the table.
pub fn parse_line(line: &[u8], fam: AddrFamily) -> (r: Result<(u64, Stream), FormatError>)
    ensures
        r == spec_parse_line(line@, fam),
{
    let fields: Vec<Vec<u8>> = split_ws(line);
    proof {
        assert(fields@.map_values(|f: Vec<u8>| f@).len() == fields@.len());
    }
    if fields.len() < 10 {
        return Err(FormatError::FieldCount);
    }
    let local: SocketAddress = match parse_addr_field(fields[1].as_slice(), fam) {
        Err(e) => {
            return Err(e);
        },
        Ok(a) => a,
    };
    let remote: SocketAddress = match parse_addr_field(fields[2].as_slice(), fam) {
        Err(e) => {
            return Err(e);
        },
        Ok(a) => a,
    };
    match parse_dec_u64(fields[9].as_slice()) {
        None => Err(FormatError::BadInode),
        Some(inode) => Ok((inode, Stream { local, remote })),
    }
}

/// What a whole table reading means over an inode-keyed accumulator map:
/// each socket line in order adds its record, a later duplicate inode
/// overwriting an earlier one; the first bad line stops everything with its
/// error.
pub open spec fn spec_parse_table_lines(
    ls: Seq<Seq<u8>>,
    fam: AddrFamily,
    acc: Map<u64, Stream>,
) -> Result<Map<u64, Stream>, FormatError>
    decreases ls.len(),
{
    if ls.len() == 0 {
        Ok(acc)
    } else {
        match spec_parse_line(ls[0], fam) {
            Err(e) => Err(e),
            Ok(pair) => spec_parse_table_lines(ls.drop_first(), fam, acc.insert(pair.0, pair.1)),
        }
    }
}

/// What a raw table text means: its lines after the discarded header line,
/// folded over `acc`.
pub open spec fn spec_parse_table(text: Seq<u8>, fam: AddrFamily, acc: Map<u64, Stream>) -> Result<
    Map<u64, Stream>,
    FormatError,
> {
    let ls = split_lines(text);
    if ls.len() == 0 {
        Ok(acc)
    } else {
        spec_parse_table_lines(ls.drop_first(), fam, acc)
    }
}

/// Splits raw text into its lines; a final newline closes the last line
/// without opening an empty one.
pub fn split_text_lines(s: &[u8]) -> (r: Vec<Vec<u8>>)
    ensures
        r@.map_values(|f: Vec<u8>| f@) == split_lines(s@),
{
    let mut r: Vec<Vec<u8>> = Vec::new();
    let mut i: usize = 0;
    proof {
        assert(s@.skip(0) =~= s@);
        assert(r@.map_values(|f: Vec<u8>| f@) =~= Seq::<Seq<u8>>::empty());
        assert(Seq::<Seq<u8>>::empty() + split_lines(s@) =~= split_lines(s@));
    }
    while i < s.len()
        invariant
            0 <= i <= s@.len(),
            split_lines(s@) == r@.map_values(|f: Vec<u8>| f@) + split_lines(s@.skip(i as int)),
        decreases s@.len() - i,
    {
        let start: usize = i;
        let ghost rest = s@.skip(start as int);
        let mut j: usize = i;
        while j < s.len() && s[j] != 10
            invariant
                start <= j <= s@.len(),
                rest == s@.skip(start as int),
                line_len(rest) == j - start + line_len(s@.skip(j as int)),
            decreases s@.len() - j,
        {
            proof {
                lemma_line_len(s@.skip(j as int));
                assert(s@.skip(j as int).drop_first() =~= s@.skip(j + 1));
                assert(s@.skip(j as int)[0] == s@[j as int]);
            }
            j = j + 1;
        }
        proof {
            if j < s.len() {
                assert(s@.skip(j as int)[0] == s@[j as int]);
            }
            assert(line_len(s@.skip(j as int)) == 0);
            assert(line_len(rest) == j - start);
        }
        let mut tok: Vec<u8> = Vec::new();
        let mut p: usize = start;
        while p < j
            invariant
                start <= p <= j <= s@.len(),
                tok@ == s@.subrange(start as int, p as int),
            decreases j - p,
        {
            tok.push(s[p]);
            proof {
                assert(s@.subrange(start as int, p + 1) =~= s@.subrange(start as int, p as int).push(
                    s@[p as int],
                ));
            }
            p = p + 1;
        }
        proof {
            assert(tok@ =~= rest.take(line_len(rest) as int));
        }
        let ghost prev = r@.map_values(|f: Vec<u8>| f@);
        r.push(tok);
        proof {
            assert(r@.map_values(|f: Vec<u8>| f@) =~= prev.push(tok@));
        }
        if j == s.len() {
            proof {
                assert(tok@ =~= rest);
                assert(split_lines(rest) == seq![tok@]);
                assert(prev + split_lines(rest) =~= prev.push(tok@));
                assert(s@.skip(s@.len() as int) =~= Seq::<u8>::empty());
                assert(prev.push(tok@) + split_lines(s@.skip(s@.len() as int)) =~= prev.push(tok@));
            }
            i = s.len();
        } else {
            proof {
                assert(rest.skip(line_len(rest) as int + 1) =~= s@.skip(j + 1));
                assert(split_lines(rest) == seq![tok@] + split_lines(s@.skip(j + 1)));
                assert(prev + split_lines(rest) =~= prev.push(tok@) + split_lines(s@.skip(j + 1)));
            }
            i = j + 1;
        }
    }
    proof {
        assert(split_lines(s@.skip(i as int)) =~= Seq::<Seq<u8>>::empty());
        assert(split_lines(s@) =~= r@.map_values(|f: Vec<u8>| f@));
    }
    r
}

/// Reads one raw table text into `streams`, one entry per socket line, a
/// later duplicate inode overwriting an earlier one. On a malformed line
/// the error of its first failed check comes back and `streams` keeps the
/// rows of the lines before it.
pub fn parse_table(text: &[u8], fam: AddrFamily, streams: &mut HashMap<u64, Stream>) -> (r: Result<
    (),
    FormatError,
>)
    ensures
        match spec_parse_table(text@, fam, old(streams)@) {
            Ok(m) => r is Ok && final(streams)@ == m,
            Err(e) => r is Err && r->Err_0 == e,
        },
{
    let lines: Vec<Vec<u8>> = split_text_lines(text);
    proof {
        assert(lines@.map_values(|f: Vec<u8>| f@).len() == lines@.len());
    }
    if lines.len() == 0 {
        return Ok(());
    }
    let ghost dl = split_lines(text@).drop_first();
    let mut idx: usize = 1;
    proof {
        assert(dl.skip(0) =~= dl);
    }
    while idx < lines.len()
        invariant
            1 <= idx <= lines@.len(),
            lines@.map_values(|f: Vec<u8>| f@) == split_lines(text@),
            dl == split_lines(text@).drop_first(),
            spec_parse_table_lines(dl, fam, old(streams)@) == spec_parse_table_lines(
                dl.skip(idx - 1),
                fam,
                streams@,
            ),
        decreases lines@.len() - idx,
    {
        proof {
            assert(dl.skip(idx - 1)[0] == dl[idx - 1]);
            assert(dl[idx - 1] == split_lines(text@)[idx as int]);
            assert(lines@.map_values(|f: Vec<u8>| f@)[idx as int] == lines@[idx as int]@);
        }
        match parse_line(lines[idx].as_slice(), fam) {
            Err(e) => {
                return Err(e);
            },
            Ok(pair) => {
                let (inode, st): (u64, Stream) = pair;
                let _ = streams.insert(inode, st);
                proof {
                    assert(dl.skip(idx - 1).drop_first() =~= dl.skip(idx as int));
                }
                idx = idx + 1;
            },
        }
    }
    proof {
        assert(dl.skip(idx - 1) =~= Seq::<Seq<u8>>::empty());
    }
    Ok(())
}

} // verus!
