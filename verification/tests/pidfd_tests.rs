use tcpkill::addr::{IpAddress, SocketAddress, Stream};
use tcpkill::pidfd::{start, step, KillError, Phase, StealAction, StealEvent, Stealer, SysFailure};

fn run(pid: u32, fd: u32, events: &[StealEvent]) -> (Stealer, Vec<StealAction>) {
    let (mut s, first) = start(pid, fd);
    let mut actions = vec![first];
    for ev in events {
        let (next, action) = step(&s, ev);
        s = next;
        actions.push(action);
    }
    (s, actions)
}

fn sample_stream() -> Stream {
    Stream {
        local: SocketAddress { ip: IpAddress::V4(0x7F00_0001), port: 34712 },
        remote: SocketAddress { ip: IpAddress::V4(0x5DB8_D822), port: 443 },
    }
}

#[test]
fn happy_path_sets_linger_before_shutdown_and_closes_once() {
    let st = sample_stream();
    let (end, actions) = run(
        1234,
        7,
        &[
            StealEvent::PidfdOpened,
            StealEvent::FdDuplicated,
            StealEvent::SocketTypeIs(1),
            StealEvent::PendingErrorIs(0),
            StealEvent::AddressesAre(st),
            StealEvent::LingerSetOk,
            StealEvent::ShutdownOk,
            StealEvent::FdClosed,
        ],
    );
    assert_eq!(end.phase, Phase::DoneOk(st));
    assert_eq!(
        actions,
        vec![
            StealAction::OpenPidfd(1234),
            StealAction::DupTargetFd(7),
            StealAction::QuerySocketType,
            StealAction::QueryPendingError,
            StealAction::QueryAddresses,
            StealAction::SetLingerZero,
            StealAction::ShutdownBoth,
            StealAction::CloseFd,
            StealAction::Stop,
        ]
    );
    let linger = actions.iter().position(|a| *a == StealAction::SetLingerZero).unwrap();
    let shutdown = actions.iter().position(|a| *a == StealAction::ShutdownBoth).unwrap();
    assert!(linger < shutdown);
    let closes = actions.iter().filter(|a| **a == StealAction::CloseFd).count();
    assert_eq!(closes, 1);
}

#[test]
fn a_udp_socket_fails_without_any_shutdown() {
    // The type query reports a datagram socket: the steal ends with the
    // wrong-socket-type error, and neither the linger set nor the
    // shutdown is ever asked for — only the descriptor release.
    let (end, actions) = run(
        1234,
        7,
        &[
            StealEvent::PidfdOpened,
            StealEvent::FdDuplicated,
            StealEvent::SocketTypeIs(2),
            StealEvent::FdClosed,
        ],
    );
    assert_eq!(end.phase, Phase::DoneErr(KillError::WrongSocketType));
    assert!(!actions.contains(&StealAction::SetLingerZero));
    assert!(!actions.contains(&StealAction::ShutdownBoth));
    let closes = actions.iter().filter(|a| **a == StealAction::CloseFd).count();
    assert_eq!(closes, 1);
}

#[test]
fn a_failing_type_query_stops_before_anything_destructive() {
    let (end, actions) = run(
        1234,
        7,
        &[
            StealEvent::PidfdOpened,
            StealEvent::FdDuplicated,
            StealEvent::SocketTypeQueryFailed(9),
            StealEvent::FdClosed,
        ],
    );
    assert_eq!(end.phase, Phase::DoneErr(KillError::OsError(9)));
    assert!(!actions.contains(&StealAction::SetLingerZero));
    assert!(!actions.contains(&StealAction::ShutdownBoth));
}

#[test]
fn a_stale_socket_error_is_reported_not_killed() {
    let (end, actions) = run(
        1234,
        7,
        &[
            StealEvent::PidfdOpened,
            StealEvent::FdDuplicated,
            StealEvent::SocketTypeIs(1),
            StealEvent::PendingErrorIs(104),
            StealEvent::FdClosed,
        ],
    );
    assert_eq!(end.phase, Phase::DoneErr(KillError::StaleSocketError(104)));
    assert!(!actions.contains(&StealAction::ShutdownBoth));
}

#[test]
fn an_unconnected_socket_is_not_killed() {
    let (end, actions) = run(
        1234,
        7,
        &[
            StealEvent::PidfdOpened,
            StealEvent::FdDuplicated,
            StealEvent::SocketTypeIs(1),
            StealEvent::PendingErrorIs(0),
            StealEvent::AddressesUnavailable,
            StealEvent::FdClosed,
        ],
    );
    assert_eq!(end.phase, Phase::DoneErr(KillError::NotConnected));
    assert!(!actions.contains(&StealAction::ShutdownBoth));
}

#[test]
fn early_failures_never_touch_a_descriptor() {
    let (end, actions) = run(1234, 7, &[StealEvent::PidfdOpenFailed(SysFailure::NotFound)]);
    assert_eq!(end.phase, Phase::DoneErr(KillError::ProcessNotFound));
    assert!(!actions.contains(&StealAction::CloseFd));

    let (end2, actions2) = run(
        1234,
        7,
        &[StealEvent::PidfdOpened, StealEvent::FdDupFailed(SysFailure::Denied)],
    );
    assert_eq!(end2.phase, Phase::DoneErr(KillError::FdStealDenied));
    assert!(!actions2.contains(&StealAction::CloseFd));
}

#[test]
fn the_fd_steal_refusal_names_the_ptrace_scope_control() {
    let text = KillError::FdStealDenied.describe();
    assert!(text.contains("ptrace"));
    assert!(text.contains("ptrace_scope"));
}

#[test]
fn open_failure_errnos_map_to_their_kinds() {
    let (end, _) = run(1234, 7, &[StealEvent::PidfdOpenFailed(SysFailure::Denied)]);
    assert_eq!(end.phase, Phase::DoneErr(KillError::PermissionDenied));
    let (end2, _) = run(1234, 7, &[StealEvent::PidfdOpenFailed(SysFailure::Other(22))]);
    assert_eq!(end2.phase, Phase::DoneErr(KillError::OsError(22)));
}

#[test]
fn shutdown_failure_still_closes_the_descriptor() {
    let st = sample_stream();
    let (end, actions) = run(
        1234,
        7,
        &[
            StealEvent::PidfdOpened,
            StealEvent::FdDuplicated,
            StealEvent::SocketTypeIs(1),
            StealEvent::PendingErrorIs(0),
            StealEvent::AddressesAre(st),
            StealEvent::LingerSetOk,
            StealEvent::ShutdownFailed(32),
            StealEvent::FdClosed,
        ],
    );
    assert_eq!(end.phase, Phase::DoneErr(KillError::OsError(32)));
    let closes = actions.iter().filter(|a| **a == StealAction::CloseFd).count();
    assert_eq!(closes, 1);
}
