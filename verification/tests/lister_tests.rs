use std::collections::HashMap;
use tcpkill::addr::{IpAddress, SocketAddress, SocketFd, Stream};
use tcpkill::lister::{join_connections, ListRow};

fn stream(port: u16) -> Stream {
    Stream {
        local: SocketAddress { ip: IpAddress::V4(0x7F00_0001), port },
        remote: SocketAddress { ip: IpAddress::V4(0x5DB8_D822), port: 443 },
    }
}

#[test]
fn three_records() {
    // Inode 10 and 20 stand in both the table and the scan; 30 only in the
    // scan; 99 only in the table. Exactly the two matches come out, in
    // scan discovery order.
    let mut tbl: HashMap<u64, Stream> = HashMap::new();
    tbl.insert(10, stream(80));
    tbl.insert(20, stream(8080));
    tbl.insert(99, stream(9999));
    let socks = vec![
        SocketFd { pid: 7, fd: 3, inode: 20 },
        SocketFd { pid: 8, fd: 4, inode: 30 },
        SocketFd { pid: 9, fd: 5, inode: 10 },
    ];
    let rows = join_connections(&tbl, &socks);
    assert_eq!(
        rows,
        vec![
            ListRow { stream: stream(8080), sock: SocketFd { pid: 7, fd: 3, inode: 20 } },
            ListRow { stream: stream(80), sock: SocketFd { pid: 9, fd: 5, inode: 10 } },
        ]
    );
}

#[test]
fn empty_sides_join_to_nothing() {
    let tbl: HashMap<u64, Stream> = HashMap::new();
    let socks = vec![SocketFd { pid: 7, fd: 3, inode: 20 }];
    assert_eq!(join_connections(&tbl, &socks), Vec::new());
    let mut tbl2: HashMap<u64, Stream> = HashMap::new();
    tbl2.insert(10, stream(80));
    assert_eq!(join_connections(&tbl2, &Vec::new()), Vec::new());
}

#[test]
fn every_claim_on_one_inode_is_reported() {
    // Two processes holding the same socket: both rows come out.
    let mut tbl: HashMap<u64, Stream> = HashMap::new();
    tbl.insert(10, stream(80));
    let socks = vec![
        SocketFd { pid: 7, fd: 3, inode: 10 },
        SocketFd { pid: 8, fd: 9, inode: 10 },
    ];
    let rows = join_connections(&tbl, &socks);
    assert_eq!(rows.len(), 2);
    assert_eq!(rows[0].sock.pid, 7);
    assert_eq!(rows[1].sock.pid, 8);
}
