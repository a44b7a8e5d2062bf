//! The process/fd scan: turns what a walk of the process directories finds
//! (directory names, fd entry names, their link targets) into the
//! `SocketFd` claims it means. The walk itself reads the live filesystem
//! and stays outside; these functions decide, for what any walk hands them,
//! which entries are socket claims, which are skipped, and which malformed
//! link is an error.

use crate::addr::SocketFd;
use crate::hexnum::{all_dec, dec_value, parse_dec_u64};
use vstd::prelude::*;

verus! {

/// A malformed entry inside a process's fd directory.
#[derive(Clone, Copy, Debug, PartialEq, Eq, Structural)]
pub enum ScanError {
    /// A link target began with `socket:[` but did not end in `]`.
    NoClosingBracket,
    /// A link target was `socket:[...]` but the inside was not a plain
    /// decimal number fitting 64 bits.
    BadInodeDigits,
    /// A socket fd entry whose own name was not a plain decimal fd number
    /// fitting 32 bits.
    BadFdName,
}

/// The eight bytes of `socket:[`.
pub open spec fn socket_link_prefix() -> Seq<u8> {
    seq![115u8, 111u8, 99u8, 107u8, 101u8, 116u8, 58u8, 91u8]
}

/// What an fd symlink target means: `Ok(Some(inode))` for a well-formed
/// `socket:[<digits>]`, `Ok(None)` for anything that does not begin with
/// `socket:[`, and an error for a target that begins so but is malformed.
pub open spec fn spec_parse_socket_link(s: Seq<u8>) -> Result<Option<u64>, ScanError> {
    if s.len() < 8 || s.subrange(0, 8) != socket_link_prefix() {
        Ok(None)
    } else if s.len() < 9 || s.last() != 93 {
        Err(ScanError::NoClosingBracket)
    } else {
        let digits = s.subrange(8, s.len() - 1);
        if digits.len() > 0 && all_dec(digits) && dec_value(digits) <= u64::MAX {
            Ok(Some(dec_value(digits) as u64))
        } else {
            Err(ScanError::BadInodeDigits)
        }
    }
}

/// Reads one fd symlink target.
pub fn parse_socket_link(s: &[u8]) -> (r: Result<Option<u64>, ScanError>)
    ensures
        r == spec_parse_socket_link(s@),
{
    if s.len() < 8 {
        return Ok(None);
    }
    let is_socket: bool = s[0] == 115 && s[1] == 111 && s[2] == 99 && s[3] == 107 && s[4] == 101
        && s[5] == 116 && s[6] == 58 && s[7] == 91;
    proof {
        if is_socket {
            assert(s@.subrange(0, 8) =~= socket_link_prefix());
        } else {
            assert(s@.subrange(0, 8) != socket_link_prefix()) by {
                if s@.subrange(0, 8) == socket_link_prefix() {
                    assert(s@[0] == socket_link_prefix()[0]);
                    assert(s@[1] == socket_link_prefix()[1]);
                    assert(s@[2] == socket_link_prefix()[2]);
                    assert(s@[3] == socket_link_prefix()[3]);
                    assert(s@[4] == socket_link_prefix()[4]);
                    assert(s@[5] == socket_link_prefix()[5]);
                    assert(s@[6] == socket_link_prefix()[6]);
                    assert(s@[7] == socket_link_prefix()[7]);
                }
            };
        }
    }
    if !is_socket {
        return Ok(None);
    }
    if s.len() < 9 || s[s.len() - 1] != 93 {
        return Err(ScanError::NoClosingBracket);
    }
    let digits: &[u8] = &s[8..s.len() - 1];
    proof {
        assert(digits@ == s@.subrange(8, s@.len() - 1));
    }
    match parse_dec_u64(digits) {
        Some(inode) => Ok(Some(inode)),
        None => Err(ScanError::BadInodeDigits),
    }
}

/// One entry of a process's fd directory as a walk reports it: the entry's
/// own name, and its symlink target where one could be read.
#[derive(Clone, Debug)]
pub struct FdEntry {
    pub name: Vec<u8>,
    pub link: Option<Vec<u8>>,
}

/// What one fd entry means: a socket claim, nothing, or a malformed-entry
/// error. An entry whose link could not be read is skipped.
pub open spec fn spec_scan_entry(pid: u32, e: FdEntry) -> Result<Option<SocketFd>, ScanError> {
    match e.link {
        None => Ok(None),
        Some(l) => match spec_parse_socket_link(l@) {
            Err(err) => Err(err),
            Ok(None) => Ok(None),
            Ok(Some(inode)) => if e.name@.len() > 0 && all_dec(e.name@) && dec_value(e.name@)
                <= u32::MAX {
                Ok(Some(SocketFd { pid, fd: dec_value(e.name@) as u32, inode }))
            } else {
                Err(ScanError::BadFdName)
            },
        },
    }
}

/// What a process's whole fd directory means: its socket claims in entry
/// order, or the first malformed entry's error.
pub open spec fn spec_scan_fds(pid: u32, es: Seq<FdEntry>) -> Result<Seq<SocketFd>, ScanError>
    decreases es.len(),
{
    if es.len() == 0 {
        Ok(Seq::empty())
    } else {
        match spec_scan_entry(pid, es[0]) {
            Err(e) => Err(e),
            Ok(opt) => match spec_scan_fds(pid, es.drop_first()) {
                Err(e2) => Err(e2),
                Ok(tail) => Ok(
                    match opt {
                        Some(x) => seq![x] + tail,
                        None => tail,
                    },
                ),
            },
        }
    }
}

/// Reads one fd entry.
pub fn scan_entry(pid: u32, e: &FdEntry) -> (r: Result<Option<SocketFd>, ScanError>)
    ensures
        r == spec_scan_entry(pid, *e),
{
    match &e.link {
        None => Ok(None),
        Some(l) => match parse_socket_link(l.as_slice()) {
            Err(err) => Err(err),
            Ok(None) => Ok(None),
            Ok(Some(inode)) => match parse_dec_u64(e.name.as_slice()) {
                Some(fdnum) => if fdnum <= u32::MAX as u64 {
                    Ok(Some(SocketFd { pid, fd: fdnum as u32, inode }))
                } else {
                    Err(ScanError::BadFdName)
                },
                None => Err(ScanError::BadFdName),
            },
        },
    }
}

/// Reads a process's whole fd directory: every socket claim in entry
/// order, or the first malformed entry's error.
pub fn scan_fd_entries(pid: u32, entries: &Vec<FdEntry>) -> (r: Result<Vec<SocketFd>, ScanError>)
    ensures
        match spec_scan_fds(pid, entries@) {
            Ok(claims) => r is Ok && r->Ok_0@ == claims,
            Err(e) => r is Err && r->Err_0 == e,
        },
{
    let mut out: Vec<SocketFd> = Vec::new();
    let mut i: usize = 0;
    proof {
        assert(entries@.skip(0) =~= entries@);
    }
    while i < entries.len()
        invariant
            0 <= i <= entries@.len(),
            match spec_scan_fds(pid, entries@.skip(i as int)) {
                Ok(t) => spec_scan_fds(pid, entries@) == Ok::<Seq<SocketFd>, ScanError>(out@ + t),
                Err(e) => spec_scan_fds(pid, entries@) == Err::<Seq<SocketFd>, ScanError>(e),
            },
        decreases entries@.len() - i,
    {
        proof {
            assert(entries@.skip(i as int)[0] == entries@[i as int]);
            assert(entries@.skip(i as int).drop_first() =~= entries@.skip(i + 1));
        }
        match scan_entry(pid, &entries[i]) {
            Err(e) => {
                return Err(e);
            },
            Ok(opt) => {
                let ghost prev = out@;
                match opt {
                    Some(x) => {
                        out.push(x);
                        proof {
                            if spec_scan_fds(pid, entries@.skip(i + 1)) is Ok {
                                let t = spec_scan_fds(pid, entries@.skip(i + 1))->Ok_0;
                                assert(prev + (seq![x] + t) =~= out@ + t);
                            }
                        }
                    },
                    None => {},
                }
                i = i + 1;
            },
        }
    }
    proof {
        assert(entries@.skip(i as int) =~= Seq::<FdEntry>::empty());
        assert(out@ + Seq::<SocketFd>::empty() =~= out@);
    }
    Ok(out)
}

/// What one process directory means to the scan: nothing unless its name
/// is a plain decimal pid, nothing when its fd directory could not be read
/// (the process vanished or refused access — skipped, never an error), and
/// otherwise its fd directory's socket claims.
pub open spec fn spec_scan_process(name: Seq<u8>, fds: Option<Seq<FdEntry>>) -> Result<
    Seq<SocketFd>,
    ScanError,
> {
    if !(name.len() > 0 && all_dec(name) && dec_value(name) <= u32::MAX) {
        Ok(Seq::empty())
    } else {
        match fds {
            None => Ok(Seq::empty()),
            Some(es) => spec_scan_fds(dec_value(name) as u32, es),
        }
    }
}

/// A process directory that vanishes between listing and fd-read is
/// omitted, never an error, whatever its name was.
pub proof fn lemma_vanished_process_is_skipped(name: Seq<u8>)
    ensures
        spec_scan_process(name, None) == Ok::<Seq<SocketFd>, ScanError>(Seq::empty()),
{
}

/// Reads one process directory of the walk: `name` is the directory's own
/// name, `fds` the entries of its fd directory, or `None` where that could
/// not be opened. One call per directory keeps the walk streaming.
pub fn scan_one_process(name: &[u8], fds: Option<&Vec<FdEntry>>) -> (r: Result<
    Vec<SocketFd>,
    ScanError,
>)
    ensures
        match spec_scan_process(
            name@,
            match fds {
                Some(v) => Some(v@),
                None => None,
            },
        ) {
            Ok(claims) => r is Ok && r->Ok_0@ == claims,
            Err(e) => r is Err && r->Err_0 == e,
        },
{
    let pid: u32 = match parse_dec_u64(name) {
        Some(v) => if v <= u32::MAX as u64 {
            v as u32
        } else {
            return Ok(Vec::new());
        },
        None => {
            return Ok(Vec::new());
        },
    };
    match fds {
        None => Ok(Vec::new()),
        Some(entries) => scan_fd_entries(pid, entries),
    }
}

} // verus!
