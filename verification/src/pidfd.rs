//! The decision sequence of the pidfd-based connection stealer. The
//! syscalls themselves (opening a process handle, duplicating the target
//! fd, the socket queries, setting linger, shutting down, closing) are
//! plain blocking calls made outside; a driver performs each asked-for
//! action and reports its outcome back as an event. These types and the
//! step function decide, from the outcomes alone, what happens next: the
//! checks run in a fixed order, nothing destructive happens before the
//! socket is confirmed a clean, connected byte stream, and the one
//! duplicated descriptor is released exactly once on every path.

use crate::addr::Stream;
use vstd::prelude::*;

verus! {

/// Why a pidfd steal failed.
#[derive(Clone, Copy, Debug, PartialEq, Eq, Structural)]
pub enum KillError {
    /// The target process does not exist (or vanished mid-sequence).
    ProcessNotFound,
    /// Opening the process handle was refused.
    PermissionDenied,
    /// Duplicating the target fd was refused. This is distinguished from
    /// an ordinary permission error because it is almost always a kernel
    /// hardening setting, not a normal access failure.
    FdStealDenied,
    /// The duplicated fd is not a byte-stream socket.
    WrongSocketType,
    /// The socket has no local or peer address: it is not connected.
    NotConnected,
    /// The socket already carried a pending error before anything was
    /// done to it; carries that error and stops short of killing a socket
    /// that already failed.
    StaleSocketError(u32),
    /// Any other failed system call; carries its errno.
    OsError(i32),
}

impl KillError {
    /// One line a caller can print for this failure. The fd-steal refusal
    /// names the ptrace scope control, its usual cause.
    pub fn describe(&self) -> &'static str {
        match self {
            KillError::ProcessNotFound => "no such process",
            KillError::PermissionDenied => "permission denied opening the process handle",
            KillError::FdStealDenied => "duplicating the fd was refused: most likely the kernel's ptrace scope hardening (kernel.yama.ptrace_scope) forbids process-fd access, not an ordinary permission problem",
            KillError::WrongSocketType => "the fd is not a TCP stream socket",
            KillError::NotConnected => "the socket is not connected",
            KillError::StaleSocketError(_) => "the socket already had a pending error",
            KillError::OsError(_) => "a system call failed",
        }
    }
}

/// How a process-handle or fd-duplication call failed, as the driver
/// classifies its errno.
#[derive(Clone, Copy, Debug, PartialEq, Eq, Structural)]
pub enum SysFailure {
    /// No such process.
    NotFound,
    /// Access refused.
    Denied,
    /// Anything else; carries the errno.
    Other(i32),
}

/// What the machine asks the driver to do next.
#[derive(Clone, Copy, Debug, PartialEq, Eq, Structural)]
pub enum StealAction {
    /// Open a process handle for this pid.
    OpenPidfd(u32),
    /// Duplicate this fd of the target process through the handle.
    DupTargetFd(u32),
    /// Query the duplicated socket's type.
    QuerySocketType,
    /// Query and clear the duplicated socket's pending error.
    QueryPendingError,
    /// Read the duplicated socket's local and peer addresses.
    QueryAddresses,
    /// Set linger to enabled, zero seconds, so the close sends a reset.
    SetLingerZero,
    /// Shut the duplicated socket down in both directions.
    ShutdownBoth,
    /// Close the duplicated descriptor.
    CloseFd,
    /// Nothing: the sequence is over.
    Stop,
}

/// What the driver reports back: the outcome of the action it performed.
#[derive(Clone, Copy, Debug, PartialEq, Eq, Structural)]
pub enum StealEvent {
    PidfdOpened,
    PidfdOpenFailed(SysFailure),
    FdDuplicated,
    FdDupFailed(SysFailure),
    /// The socket type value; 1 is a byte stream.
    SocketTypeIs(u16),
    SocketTypeQueryFailed(i32),
    /// The pending-error value; 0 is a clean socket.
    PendingErrorIs(u32),
    PendingErrorQueryFailed(i32),
    /// Both addresses, local and peer.
    AddressesAre(Stream),
    /// Local or peer address unavailable: not connected.
    AddressesUnavailable,
    AddressesQueryFailed(i32),
    LingerSetOk,
    LingerSetFailed(i32),
    ShutdownOk,
    ShutdownFailed(i32),
    FdClosed,
}

/// Where the sequence stands: which outcome it is waiting for, or how it
/// ended. The established connection's endpoints ride along from the
/// moment they are read, so success can report what was killed.
#[derive(Clone, Copy, Debug, PartialEq, Eq, Structural)]
pub enum Phase {
    AwaitPidfd,
    AwaitDup,
    AwaitType,
    AwaitPending,
    AwaitAddrs,
    AwaitLinger(Stream),
    AwaitShutdown(Stream),
    AwaitCloseOk(Stream),
    AwaitCloseErr(KillError),
    DoneOk(Stream),
    DoneErr(KillError),
}

/// The machine: the target, and where the sequence stands.
#[derive(Clone, Copy, Debug, PartialEq, Eq, Structural)]
pub struct Stealer {
    pub pid: u32,
    pub fd: u32,
    pub phase: Phase,
}

/// The machine owns the duplicated descriptor in these phases; it must be
/// closed exactly once before the sequence ends.
pub open spec fn phase_holds_fd(p: Phase) -> bool {
    match p {
        Phase::AwaitType => true,
        Phase::AwaitPending => true,
        Phase::AwaitAddrs => true,
        Phase::AwaitLinger(_) => true,
        Phase::AwaitShutdown(_) => true,
        Phase::AwaitCloseOk(_) => true,
        Phase::AwaitCloseErr(_) => true,
        _ => false,
    }
}

/// A close has been asked for and not yet confirmed.
pub open spec fn phase_closing(p: Phase) -> bool {
    match p {
        Phase::AwaitCloseOk(_) => true,
        Phase::AwaitCloseErr(_) => true,
        _ => false,
    }
}

/// The sequence has ended.
pub open spec fn phase_done(p: Phase) -> bool {
    match p {
        Phase::DoneOk(_) => true,
        Phase::DoneErr(_) => true,
        _ => false,
    }
}

/// The error a failed process-handle open means.
pub open spec fn open_failure_error(f: SysFailure) -> KillError {
    match f {
        SysFailure::NotFound => KillError::ProcessNotFound,
        SysFailure::Denied => KillError::PermissionDenied,
        SysFailure::Other(e) => KillError::OsError(e),
    }
}

/// The error a failed fd duplication means: a refusal here is the
/// distinguished fd-steal denial.
pub open spec fn dup_failure_error(f: SysFailure) -> KillError {
    match f {
        SysFailure::NotFound => KillError::ProcessNotFound,
        SysFailure::Denied => KillError::FdStealDenied,
        SysFailure::Other(e) => KillError::OsError(e),
    }
}

/// `s` with another phase.
pub open spec fn with_phase(s: Stealer, p: Phase) -> Stealer {
    Stealer { phase: p, ..s }
}

/// One decision of the sequence: from where it stands and what the driver
/// reported, the machine's next state and what to do next. An event that
/// does not answer the phase's question changes nothing. Every error
/// after the duplication closes the descriptor before ending; the two
/// destructive actions come only after the type check, the pending-error
/// check and the address read all passed.
pub open spec fn spec_step(s: Stealer, ev: StealEvent) -> (Stealer, StealAction) {
    match s.phase {
        Phase::AwaitPidfd => match ev {
            StealEvent::PidfdOpened => (with_phase(s, Phase::AwaitDup), StealAction::DupTargetFd(s.fd)),
            StealEvent::PidfdOpenFailed(f) => (
                with_phase(s, Phase::DoneErr(open_failure_error(f))),
                StealAction::Stop,
            ),
            _ => (s, StealAction::Stop),
        },
        Phase::AwaitDup => match ev {
            StealEvent::FdDuplicated => (with_phase(s, Phase::AwaitType), StealAction::QuerySocketType),
            StealEvent::FdDupFailed(f) => (
                with_phase(s, Phase::DoneErr(dup_failure_error(f))),
                StealAction::Stop,
            ),
            _ => (s, StealAction::Stop),
        },
        Phase::AwaitType => match ev {
            StealEvent::SocketTypeIs(t) => if t == 1 {
                (with_phase(s, Phase::AwaitPending), StealAction::QueryPendingError)
            } else {
                (
                    with_phase(s, Phase::AwaitCloseErr(KillError::WrongSocketType)),
                    StealAction::CloseFd,
                )
            },
            StealEvent::SocketTypeQueryFailed(e) => (
                with_phase(s, Phase::AwaitCloseErr(KillError::OsError(e))),
                StealAction::CloseFd,
            ),
            _ => (s, StealAction::Stop),
        },
        Phase::AwaitPending => match ev {
            StealEvent::PendingErrorIs(e) => if e == 0 {
                (with_phase(s, Phase::AwaitAddrs), StealAction::QueryAddresses)
            } else {
                (
                    with_phase(s, Phase::AwaitCloseErr(KillError::StaleSocketError(e))),
                    StealAction::CloseFd,
                )
            },
            StealEvent::PendingErrorQueryFailed(e) => (
                with_phase(s, Phase::AwaitCloseErr(KillError::OsError(e))),
                StealAction::CloseFd,
            ),
            _ => (s, StealAction::Stop),
        },
        Phase::AwaitAddrs => match ev {
            StealEvent::AddressesAre(st) => (
                with_phase(s, Phase::AwaitLinger(st)),
                StealAction::SetLingerZero,
            ),
            StealEvent::AddressesUnavailable => (
                with_phase(s, Phase::AwaitCloseErr(KillError::NotConnected)),
                StealAction::CloseFd,
            ),
            StealEvent::AddressesQueryFailed(e) => (
                with_phase(s, Phase::AwaitCloseErr(KillError::OsError(e))),
                StealAction::CloseFd,
            ),
            _ => (s, StealAction::Stop),
        },
        Phase::AwaitLinger(st) => match ev {
            StealEvent::LingerSetOk => (with_phase(s, Phase::AwaitShutdown(st)), StealAction::ShutdownBoth),
            StealEvent::LingerSetFailed(e) => (
                with_phase(s, Phase::AwaitCloseErr(KillError::OsError(e))),
                StealAction::CloseFd,
            ),
            _ => (s, StealAction::Stop),
        },
        Phase::AwaitShutdown(st) => match ev {
            StealEvent::ShutdownOk => (with_phase(s, Phase::AwaitCloseOk(st)), StealAction::CloseFd),
            StealEvent::ShutdownFailed(e) => (
                with_phase(s, Phase::AwaitCloseErr(KillError::OsError(e))),
                StealAction::CloseFd,
            ),
            _ => (s, StealAction::Stop),
        },
        Phase::AwaitCloseOk(st) => match ev {
            StealEvent::FdClosed => (with_phase(s, Phase::DoneOk(st)), StealAction::Stop),
            _ => (s, StealAction::Stop),
        },
        Phase::AwaitCloseErr(e) => match ev {
            StealEvent::FdClosed => (with_phase(s, Phase::DoneErr(e)), StealAction::Stop),
            _ => (s, StealAction::Stop),
        },
        Phase::DoneOk(_) => (s, StealAction::Stop),
        Phase::DoneErr(_) => (s, StealAction::Stop),
    }
}

/// The machine a fresh steal of `fd` from `pid` starts with.
pub open spec fn initial_stealer(pid: u32, fd: u32) -> Stealer {
    Stealer { pid, fd, phase: Phase::AwaitPidfd }
}

/// Starts a steal: the initial machine and its first action.
pub fn start(pid: u32, fd: u32) -> (r: (Stealer, StealAction))
    ensures
        r.0 == initial_stealer(pid, fd),
        r.1 == StealAction::OpenPidfd(pid),
{
    (Stealer { pid, fd, phase: Phase::AwaitPidfd }, StealAction::OpenPidfd(pid))
}

/// One decision of the sequence, as executable code.
pub fn step(s: &Stealer, ev: &StealEvent) -> (r: (Stealer, StealAction))
    ensures
        r == spec_step(*s, *ev),
{
    match s.phase {
        Phase::AwaitPidfd => match ev {
            StealEvent::PidfdOpened => (
                Stealer { phase: Phase::AwaitDup, ..*s },
                StealAction::DupTargetFd(s.fd),
            ),
            StealEvent::PidfdOpenFailed(f) => {
                let e: KillError = match f {
                    SysFailure::NotFound => KillError::ProcessNotFound,
                    SysFailure::Denied => KillError::PermissionDenied,
                    SysFailure::Other(e) => KillError::OsError(*e),
                };
                (Stealer { phase: Phase::DoneErr(e), ..*s }, StealAction::Stop)
            },
            _ => (*s, StealAction::Stop),
        },
        Phase::AwaitDup => match ev {
            StealEvent::FdDuplicated => (
                Stealer { phase: Phase::AwaitType, ..*s },
                StealAction::QuerySocketType,
            ),
            StealEvent::FdDupFailed(f) => {
                let e: KillError = match f {
                    SysFailure::NotFound => KillError::ProcessNotFound,
                    SysFailure::Denied => KillError::FdStealDenied,
                    SysFailure::Other(e) => KillError::OsError(*e),
                };
                (Stealer { phase: Phase::DoneErr(e), ..*s }, StealAction::Stop)
            },
            _ => (*s, StealAction::Stop),
        },
        Phase::AwaitType => match ev {
            StealEvent::SocketTypeIs(t) => if *t == 1 {
                (Stealer { phase: Phase::AwaitPending, ..*s }, StealAction::QueryPendingError)
            } else {
                (
                    Stealer { phase: Phase::AwaitCloseErr(KillError::WrongSocketType), ..*s },
                    StealAction::CloseFd,
                )
            },
            StealEvent::SocketTypeQueryFailed(e) => (
                Stealer { phase: Phase::AwaitCloseErr(KillError::OsError(*e)), ..*s },
                StealAction::CloseFd,
            ),
            _ => (*s, StealAction::Stop),
        },
        Phase::AwaitPending => match ev {
            StealEvent::PendingErrorIs(e) => if *e == 0 {
                (Stealer { phase: Phase::AwaitAddrs, ..*s }, StealAction::QueryAddresses)
            } else {
                (
                    Stealer {
                        phase: Phase::AwaitCloseErr(KillError::StaleSocketError(*e)),
                        ..*s
                    },
                    StealAction::CloseFd,
                )
            },
            StealEvent::PendingErrorQueryFailed(e) => (
                Stealer { phase: Phase::AwaitCloseErr(KillError::OsError(*e)), ..*s },
                StealAction::CloseFd,
            ),
            _ => (*s, StealAction::Stop),
        },
        Phase::AwaitAddrs => match ev {
            StealEvent::AddressesAre(st) => (
                Stealer { phase: Phase::AwaitLinger(*st), ..*s },
                StealAction::SetLingerZero,
            ),
            StealEvent::AddressesUnavailable => (
                Stealer { phase: Phase::AwaitCloseErr(KillError::NotConnected), ..*s },
                StealAction::CloseFd,
            ),
            StealEvent::AddressesQueryFailed(e) => (
                Stealer { phase: Phase::AwaitCloseErr(KillError::OsError(*e)), ..*s },
                StealAction::CloseFd,
            ),
            _ => (*s, StealAction::Stop),
        },
        Phase::AwaitLinger(st) => match ev {
            StealEvent::LingerSetOk => (
                Stealer { phase: Phase::AwaitShutdown(st), ..*s },
                StealAction::ShutdownBoth,
            ),
            StealEvent::LingerSetFailed(e) => (
                Stealer { phase: Phase::AwaitCloseErr(KillError::OsError(*e)), ..*s },
                StealAction::CloseFd,
            ),
            _ => (*s, StealAction::Stop),
        },
        Phase::AwaitShutdown(st) => match ev {
            StealEvent::ShutdownOk => (
                Stealer { phase: Phase::AwaitCloseOk(st), ..*s },
                StealAction::CloseFd,
            ),
            StealEvent::ShutdownFailed(e) => (
                Stealer { phase: Phase::AwaitCloseErr(KillError::OsError(*e)), ..*s },
                StealAction::CloseFd,
            ),
            _ => (*s, StealAction::Stop),
        },
        Phase::AwaitCloseOk(st) => match ev {
            StealEvent::FdClosed => (Stealer { phase: Phase::DoneOk(st), ..*s }, StealAction::Stop),
            _ => (*s, StealAction::Stop),
        },
        Phase::AwaitCloseErr(e) => match ev {
            StealEvent::FdClosed => (
                Stealer { phase: Phase::DoneErr(e), ..*s },
                StealAction::Stop,
            ),
            _ => (*s, StealAction::Stop),
        },
        Phase::DoneOk(_) => (*s, StealAction::Stop),
        Phase::DoneErr(_) => (*s, StealAction::Stop),
    }
}

/// A whole driver loop: the machine folded over the driver's reported
/// events, with every action it asked for along the way, in order.
pub open spec fn spec_run(s: Stealer, evs: Seq<StealEvent>) -> (Stealer, Seq<StealAction>)
    decreases evs.len(),
{
    if evs.len() == 0 {
        (s, Seq::empty())
    } else {
        let first = spec_step(s, evs[0]);
        let rest = spec_run(first.0, evs.drop_first());
        (rest.0, seq![first.1] + rest.1)
    }
}

/// What one step can do: shutdown is only asked for out of the
/// linger-done phase, linger only out of the address-read phase, and the
/// linger phase is only ever entered by asking for the linger set.
pub proof fn lemma_step_ordering(s: Stealer, ev: StealEvent)
    ensures
        spec_step(s, ev).1 == StealAction::ShutdownBoth ==> s.phase is AwaitLinger,
        spec_step(s, ev).1 == StealAction::SetLingerZero ==> s.phase is AwaitAddrs,
        spec_step(s, ev).0.phase is AwaitLinger ==> (s.phase is AwaitLinger || spec_step(s, ev).1
            == StealAction::SetLingerZero),
{
}

/// The error the machine is carrying to its end, if any.
pub open spec fn phase_error(p: Phase) -> Option<KillError> {
    match p {
        Phase::AwaitCloseErr(e) => Some(e),
        Phase::DoneErr(e) => Some(e),
        _ => None,
    }
}

/// Once the machine is closing on an error, or done, nothing more
/// happens: no run from there asks for any action but the pending close
/// confirmation, and the carried error is kept to the end.
pub proof fn lemma_error_path_is_inert(s: Stealer, evs: Seq<StealEvent>)
    requires
        s.phase is AwaitCloseErr || s.phase is DoneErr,
    ensures
        forall|i: int|
            0 <= i < spec_run(s, evs).1.len() ==> #[trigger] spec_run(s, evs).1[i]
                == StealAction::Stop,
        spec_run(s, evs).0.phase is AwaitCloseErr || spec_run(s, evs).0.phase is DoneErr,
        phase_error(spec_run(s, evs).0.phase) == phase_error(s.phase),
    decreases evs.len(),
{
    if evs.len() > 0 {
        let first = spec_step(s, evs[0]);
        lemma_error_path_is_inert(first.0, evs.drop_first());
    }
}

/// A target fd that is not a byte-stream socket is never destroyed: the
/// type check fails with the wrong-socket-type error, the only thing asked
/// for is the release of the duplicated descriptor, and no continuation of
/// the run ever asks for the linger set or the shutdown.
pub proof fn lemma_wrong_type_never_destroys(s: Stealer, t: u16, evs: Seq<StealEvent>)
    requires
        s.phase is AwaitType,
        t != 1,
    ensures
        spec_step(s, StealEvent::SocketTypeIs(t)).1 == StealAction::CloseFd,
        spec_step(s, StealEvent::SocketTypeIs(t)).0.phase == Phase::AwaitCloseErr(
            KillError::WrongSocketType,
        ),
        forall|i: int|
            0 <= i < spec_run(spec_step(s, StealEvent::SocketTypeIs(t)).0, evs).1.len()
                ==> #[trigger] spec_run(spec_step(s, StealEvent::SocketTypeIs(t)).0, evs).1[i]
                != StealAction::SetLingerZero && spec_run(
                spec_step(s, StealEvent::SocketTypeIs(t)).0,
                evs,
            ).1[i] != StealAction::ShutdownBoth,
{
    lemma_error_path_is_inert(spec_step(s, StealEvent::SocketTypeIs(t)).0, evs);
}

/// In any run of a fresh machine, the linger option is set before the
/// shutdown: a shutdown request at position `i` has a linger request at
/// some earlier position.
pub proof fn lemma_linger_precedes_shutdown(pid: u32, fd: u32, evs: Seq<StealEvent>)
    ensures
        forall|i: int|
            0 <= i < spec_run(initial_stealer(pid, fd), evs).1.len() && #[trigger] spec_run(
                initial_stealer(pid, fd),
                evs,
            ).1[i] == StealAction::ShutdownBoth ==> exists|j: int|
                0 <= j < i && spec_run(initial_stealer(pid, fd), evs).1[j]
                    == StealAction::SetLingerZero,
{
    lemma_linger_precedes_shutdown_from(initial_stealer(pid, fd), evs);
}

/// The generalized induction behind the linger-before-shutdown fact: from
/// any state, a shutdown request is preceded by a linger request unless
/// the machine already stood past the linger step when the run began.
pub proof fn lemma_linger_precedes_shutdown_from(s: Stealer, evs: Seq<StealEvent>)
    ensures
        forall|i: int|
            0 <= i < spec_run(s, evs).1.len() && #[trigger] spec_run(s, evs).1[i]
                == StealAction::ShutdownBoth ==> (exists|j: int|
                0 <= j < i && spec_run(s, evs).1[j] == StealAction::SetLingerZero) || s.phase
                is AwaitLinger,
    decreases evs.len(),
{
    if evs.len() > 0 {
        let first = spec_step(s, evs[0]);
        let acts = spec_run(s, evs).1;
        let rest_acts = spec_run(first.0, evs.drop_first()).1;
        lemma_linger_precedes_shutdown_from(first.0, evs.drop_first());
        lemma_step_ordering(s, evs[0]);
        assert forall|i: int|
            0 <= i < acts.len() && #[trigger] acts[i] == StealAction::ShutdownBoth implies (exists|
            j: int,
        |
            0 <= j < i && acts[j] == StealAction::SetLingerZero) || s.phase
            is AwaitLinger by {
            if i == 0 {
                assert(first.1 == StealAction::ShutdownBoth);
            } else {
                assert(acts[i] == rest_acts[i - 1]);
                if exists|j: int|
                    0 <= j < i - 1 && rest_acts[j] == StealAction::SetLingerZero {
                    let j = choose|j: int|
                        0 <= j < i - 1 && rest_acts[j] == StealAction::SetLingerZero;
                    assert(acts[j + 1] == StealAction::SetLingerZero);
                } else {
                    assert(first.0.phase is AwaitLinger);
                    if !(s.phase is AwaitLinger) {
                        assert(first.1 == StealAction::SetLingerZero);
                        assert(acts[0] == StealAction::SetLingerZero);
                    }
                }
            }
        };
    }
}

/// How many times a run asked for the descriptor to be closed.
pub open spec fn count_close(acts: Seq<StealAction>) -> nat
    decreases acts.len(),
{
    if acts.len() == 0 {
        0
    } else {
        count_close(acts.drop_first()) + (if acts[0] == StealAction::CloseFd {
            1nat
        } else {
            0nat
        })
    }
}

/// The ownership discipline of the one duplicated descriptor, from any
/// state: a run never asks for more than one close; none at all once the
/// close is already pending or the sequence is over; and a run that ends
/// in confirmed success asked for exactly one close unless the close was
/// already pending when it began.
pub proof fn lemma_close_exactly_once(s: Stealer, evs: Seq<StealEvent>)
    ensures
        count_close(spec_run(s, evs).1) <= 1,
        phase_closing(s.phase) || phase_done(s.phase) ==> count_close(spec_run(s, evs).1) == 0,
        spec_run(s, evs).0.phase is DoneOk && !(s.phase is AwaitCloseOk || s.phase is DoneOk)
            ==> count_close(spec_run(s, evs).1) == 1,
    decreases evs.len(),
{
    if evs.len() > 0 {
        let first = spec_step(s, evs[0]);
        let acts = spec_run(s, evs).1;
        let rest_acts = spec_run(first.0, evs.drop_first()).1;
        lemma_close_exactly_once(first.0, evs.drop_first());
        assert(acts.drop_first() =~= rest_acts);
    }
}

} // verus!
