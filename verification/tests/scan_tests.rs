use tcpkill::addr::SocketFd;
use tcpkill::scan::{parse_socket_link, scan_one_process, FdEntry, ScanError};

#[test]
fn socket_link_parses_its_inode() {
    assert_eq!(parse_socket_link(b"socket:[123456]"), Ok(Some(123456)));
    assert_eq!(parse_socket_link(b"socket:[1]"), Ok(Some(1)));
}

#[test]
fn non_socket_links_are_skipped() {
    assert_eq!(parse_socket_link(b"pipe:[44858]"), Ok(None));
    assert_eq!(parse_socket_link(b"/dev/null"), Ok(None));
    assert_eq!(parse_socket_link(b"anon_inode:[eventpoll]"), Ok(None));
    assert_eq!(parse_socket_link(b""), Ok(None));
}

#[test]
fn malformed_socket_links_are_errors() {
    assert_eq!(
        parse_socket_link(b"socket:[12345"),
        Err(ScanError::NoClosingBracket)
    );
    assert_eq!(parse_socket_link(b"socket:["), Err(ScanError::NoClosingBracket));
    assert_eq!(parse_socket_link(b"socket:[]"), Err(ScanError::BadInodeDigits));
    assert_eq!(
        parse_socket_link(b"socket:[12a45]"),
        Err(ScanError::BadInodeDigits)
    );
}

#[test]
fn vanished_process_is_omitted_not_an_error() {
    // The fd directory could not be opened: the process exited between the
    // listing and the read. The scan yields nothing and no error.
    let r = scan_one_process(b"4242", None);
    assert_eq!(r, Ok(Vec::new()));
}

#[test]
fn non_numeric_directory_names_are_not_processes() {
    let entries = vec![FdEntry { name: b"0".to_vec(), link: Some(b"socket:[7]".to_vec()) }];
    assert_eq!(scan_one_process(b"self", Some(&entries)), Ok(Vec::new()));
    assert_eq!(scan_one_process(b"", Some(&entries)), Ok(Vec::new()));
    assert_eq!(scan_one_process(b"12a", Some(&entries)), Ok(Vec::new()));
}

#[test]
fn socket_entries_come_out_in_order() {
    let entries = vec![
        FdEntry { name: b"0".to_vec(), link: Some(b"/dev/pts/3".to_vec()) },
        FdEntry { name: b"3".to_vec(), link: Some(b"socket:[111]".to_vec()) },
        FdEntry { name: b"4".to_vec(), link: None },
        FdEntry { name: b"7".to_vec(), link: Some(b"socket:[222]".to_vec()) },
    ];
    let r = scan_one_process(b"1000", Some(&entries)).unwrap();
    assert_eq!(
        r,
        vec![
            SocketFd { pid: 1000, fd: 3, inode: 111 },
            SocketFd { pid: 1000, fd: 7, inode: 222 },
        ]
    );
}

#[test]
fn malformed_entry_is_reported() {
    let entries = vec![
        FdEntry { name: b"3".to_vec(), link: Some(b"socket:[1x1]".to_vec()) },
        FdEntry { name: b"7".to_vec(), link: Some(b"socket:[222]".to_vec()) },
    ];
    assert_eq!(
        scan_one_process(b"1000", Some(&entries)),
        Err(ScanError::BadInodeDigits)
    );
    let entries2 = vec![FdEntry { name: b"x".to_vec(), link: Some(b"socket:[5]".to_vec()) }];
    assert_eq!(
        scan_one_process(b"1000", Some(&entries2)),
        Err(ScanError::BadFdName)
    );
}
