use tcpkill::addr::{v6_be_to_bytes, IpAddress, SocketAddress, Stream};
use tcpkill::table::{
    encode_addr_field, parse_addr_field, parse_line, parse_table, split_text_lines, split_ws,
    AddrFamily, FormatError,
};

use std::collections::HashMap;

#[test]
fn ipv4_field_decodes_byte_reversed() {
    // The documented example: table hex 0100007F:0050 is 127.0.0.1 port 80.
    let r = parse_addr_field(b"0100007F:0050", AddrFamily::V4).unwrap();
    assert_eq!(r, SocketAddress { ip: IpAddress::V4(0x7F00_0001), port: 80 });
}

#[test]
fn ipv4_field_round_trips_to_the_same_text() {
    let field: &[u8] = b"0100007F:0050";
    let sa = parse_addr_field(field, AddrFamily::V4).unwrap();
    assert_eq!(encode_addr_field(&sa), field.to_vec());

    let field2: &[u8] = b"22D8B85D:01BB";
    let sa2 = parse_addr_field(field2, AddrFamily::V4).unwrap();
    assert_eq!(encode_addr_field(&sa2), field2.to_vec());
}

#[test]
fn ipv6_field_decodes_word_reordered() {
    // The documented example: four little-endian-stored words holding ::1,
    // port 0x1F90 = 8080.
    let r = parse_addr_field(
        b"00000000000000000000000001000000:1F90",
        AddrFamily::V6,
    )
    .unwrap();
    assert_eq!(r, SocketAddress { ip: IpAddress::V6(1), port: 8080 });
}

#[test]
fn ipv6_field_round_trips_to_the_same_text() {
    let field: &[u8] = b"00000000000000000000000001000000:1F90";
    let sa = parse_addr_field(field, AddrFamily::V6).unwrap();
    assert_eq!(encode_addr_field(&sa), field.to_vec());
}

#[test]
fn v6_reorder_matches_reversing_each_four_byte_group() {
    let ip: u128 = 0x00000000_00000000_00000000_01000000;
    let by = v6_be_to_bytes(ip);
    // Manually reverse each 4-byte group of the big-endian reading.
    let be = ip.to_be_bytes();
    let mut manual = [0u8; 16];
    for g in 0..4 {
        for k in 0..4 {
            manual[4 * g + k] = be[4 * g + 3 - k];
        }
    }
    assert_eq!(by, manual);
    let mut localhost = [0u8; 16];
    localhost[15] = 1;
    assert_eq!(by, localhost);

    let ip2: u128 = 0x69FE0020_795C2F1B_FF730D65_292D2CFE;
    let by2 = v6_be_to_bytes(ip2);
    let be2 = ip2.to_be_bytes();
    let mut manual2 = [0u8; 16];
    for g in 0..4 {
        for k in 0..4 {
            manual2[4 * g + k] = be2[4 * g + 3 - k];
        }
    }
    assert_eq!(by2, manual2);
}

#[test]
fn lowercase_hex_decodes_too() {
    let upper = parse_addr_field(b"22D8B85D:01BB", AddrFamily::V4).unwrap();
    let lower = parse_addr_field(b"22d8b85d:01bb", AddrFamily::V4).unwrap();
    assert_eq!(upper, lower);
}

#[test]
fn short_line_fails_with_field_count() {
    let r = parse_line(b"  0: 0100007F:0050 00000000:0000 01", AddrFamily::V4);
    assert_eq!(r, Err(FormatError::FieldCount));
}

#[test]
fn wrong_width_address_field_fails() {
    assert_eq!(
        parse_addr_field(b"0100007:0050", AddrFamily::V4),
        Err(FormatError::FieldWidth)
    );
    // Right total width, but the colon in the wrong place.
    assert_eq!(
        parse_addr_field(b"0100007F0:050", AddrFamily::V4),
        Err(FormatError::AddressWidth)
    );
    assert_eq!(
        parse_addr_field(b"0100007F00050", AddrFamily::V4),
        Err(FormatError::MissingColon)
    );
    // An IPv4-width field handed to the IPv6 table decoder.
    assert_eq!(
        parse_addr_field(b"0100007F:0050", AddrFamily::V6),
        Err(FormatError::FieldWidth)
    );
}

#[test]
fn non_hex_characters_fail() {
    assert_eq!(
        parse_addr_field(b"0100G07F:0050", AddrFamily::V4),
        Err(FormatError::AddressHex)
    );
    assert_eq!(
        parse_addr_field(b"0100007F:00Z0", AddrFamily::V4),
        Err(FormatError::PortHex)
    );
    // A sign is not a hex digit.
    assert_eq!(
        parse_addr_field(b"+100007F:0050", AddrFamily::V4),
        Err(FormatError::AddressHex)
    );
}

#[test]
fn bad_inode_fails() {
    let line = b"   0: 0100007F:0050 00000000:0000 0A 00000000:00000000 00:00000000 00000000  1000        0 12x45";
    assert_eq!(parse_line(line, AddrFamily::V4), Err(FormatError::BadInode));
}

#[test]
fn full_line_parses() {
    let line = b"   0: 0100007F:0050 22D8B85D:01BB 01 00000000:00000000 00:00000000 00000000  1000        0 12345 1 000000000 100 0 0 10 0";
    let (inode, st) = parse_line(line, AddrFamily::V4).unwrap();
    assert_eq!(inode, 12345);
    assert_eq!(
        st,
        Stream {
            local: SocketAddress { ip: IpAddress::V4(0x7F00_0001), port: 80 },
            remote: SocketAddress { ip: IpAddress::V4(0x5DB8_D822), port: 443 },
        }
    );
}

#[test]
fn table_parses_one_entry_per_line_and_skips_the_header() {
    let text = b"  sl  local_address rem_address   st tx_queue rx_queue tr tm->when retrnsmt   uid  timeout inode\n   0: 0100007F:0050 00000000:0000 0A 00000000:00000000 00:00000000 00000000  1000        0 111 1 0 100 0 0 10 0\n   1: 0100007F:1F90 00000000:0000 0A 00000000:00000000 00:00000000 00000000  1000        0 222 1 0 100 0 0 10 0\n";
    let mut m: HashMap<u64, Stream> = HashMap::new();
    parse_table(text, AddrFamily::V4, &mut m).unwrap();
    assert_eq!(m.len(), 2);
    assert_eq!(m.get(&111).unwrap().local.port, 80);
    assert_eq!(m.get(&222).unwrap().local.port, 8080);
}

#[test]
fn later_duplicate_inode_wins() {
    let text = b"header\n   0: 0100007F:0050 00000000:0000 0A 0:0 00:0 0  1000 0 111 x\n   1: 0100007F:1F90 00000000:0000 0A 0:0 00:0 0  1000 0 111 x\n";
    let mut m: HashMap<u64, Stream> = HashMap::new();
    parse_table(text, AddrFamily::V4, &mut m).unwrap();
    assert_eq!(m.len(), 1);
    assert_eq!(m.get(&111).unwrap().local.port, 8080);
}

#[test]
fn malformed_line_aborts_the_table() {
    let text = b"header\n   0: 0100007F:005 00000000:0000 0A 0:0 00:0 0 1000 0 111\n";
    let mut m: HashMap<u64, Stream> = HashMap::new();
    assert_eq!(
        parse_table(text, AddrFamily::V4, &mut m),
        Err(FormatError::FieldWidth)
    );
}

#[test]
fn empty_table_text_is_empty() {
    let mut m: HashMap<u64, Stream> = HashMap::new();
    parse_table(b"", AddrFamily::V4, &mut m).unwrap();
    assert!(m.is_empty());
    parse_table(b"header only\n", AddrFamily::V4, &mut m).unwrap();
    assert!(m.is_empty());
}

#[test]
fn splitters_behave_like_the_kernel_text() {
    let fields = split_ws(b"  a\tbb   c ");
    let views: Vec<&[u8]> = fields.iter().map(|f| f.as_slice()).collect();
    assert_eq!(views, vec![b"a" as &[u8], b"bb", b"c"]);

    let lines = split_text_lines(b"one\ntwo\n");
    assert_eq!(lines.len(), 2);
    assert_eq!(lines[0], b"one".to_vec());
    assert_eq!(lines[1], b"two".to_vec());
    let lines2 = split_text_lines(b"one\n\nthree");
    assert_eq!(lines2.len(), 3);
    assert_eq!(lines2[1], Vec::<u8>::new());
    assert_eq!(lines2[2], b"three".to_vec());
}
