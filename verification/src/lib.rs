//! Locates and forcibly terminates TCP connections owned by other processes
//! on the same Linux host, and enumerates live TCP connections with their
//! owning process, fd and socket inode.
//!
//! The crate holds the logic of the tool: decoding the kernel's textual TCP
//! tables, joining them with a scan of every process's open fds, the
//! decision sequence of the pidfd-based connection stealer, and the wire
//! codec of the netlink socket-diagnostics destroy exchange. The thin layer
//! that touches the live system (reading `/proc`, the syscalls, the netlink
//! socket) sits outside and hands plain values in and out.

pub mod addr;
pub mod hexnum;
pub mod lister;
pub mod netlink;
pub mod pidfd;
pub mod scan;
pub mod table;
