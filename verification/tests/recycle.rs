use tcpconnpool::AddressFamily;
use tcpconnpool::COOLDOWN_MILLIS;
use tcpconnpool::LoadBalancing;
use tcpconnpool::ProbeClass;
use tcpconnpool::ProbeErrorKind;
use tcpconnpool::ProbeOutcome;
use tcpconnpool::RecycleError;
use tcpconnpool::SockAddr;
use tcpconnpool::TcpConnectionManager;
use tcpconnpool::validate::classify_probe;
use tcpconnpool::validate::cooldown_millis;

fn manager(max_requests: usize) -> TcpConnectionManager {
    let addrs = vec![SockAddr::V4 { ip: 1, port: 80 }, SockAddr::V4 { ip: 2, port: 80 }];
    TcpConnectionManager::new(addrs, AddressFamily::Any, LoadBalancing::Next, max_requests)
        .unwrap()
}

#[test]
fn limit_reached_regardless_of_probe_outcome() {
    let m = manager(3);
    let outcomes = [
        ProbeOutcome::Success,
        ProbeOutcome::Failure(ProbeErrorKind::WouldBlock),
        ProbeOutcome::Failure(ProbeErrorKind::ConnectionReset),
    ];
    for o in outcomes {
        assert_eq!(m.recycle(2, &o), Err(RecycleError::LimitReached));
        assert_eq!(m.recycle(5, &o), Err(RecycleError::LimitReached));
    }
}

#[test]
fn max_requests_of_one_disables_reuse() {
    let m = manager(1);
    assert_eq!(m.recycle(0, &ProbeOutcome::Success), Err(RecycleError::LimitReached));
}

#[test]
fn probe_outcomes_classify_three_ways() {
    assert_eq!(classify_probe(&ProbeOutcome::Success), ProbeClass::Alive);
    assert_eq!(
        classify_probe(&ProbeOutcome::Failure(ProbeErrorKind::WouldBlock)),
        ProbeClass::AssumeAlive
    );
    assert_eq!(
        classify_probe(&ProbeOutcome::Failure(ProbeErrorKind::ConnectionReset)),
        ProbeClass::Dead
    );
    assert_eq!(
        classify_probe(&ProbeOutcome::Failure(ProbeErrorKind::UnexpectedEof)),
        ProbeClass::Dead
    );
}

#[test]
fn healthy_idle_connection_is_kept_without_delay() {
    let m = manager(10);
    let verdict = m.recycle(3, &ProbeOutcome::Success);
    assert_eq!(verdict, Ok(()));
    assert_eq!(cooldown_millis(&verdict), 0);
}

#[test]
fn would_block_probe_is_kept_like_success() {
    let m = manager(10);
    let verdict = m.recycle(3, &ProbeOutcome::Failure(ProbeErrorKind::WouldBlock));
    assert_eq!(verdict, Ok(()));
    assert_eq!(cooldown_millis(&verdict), 0);
}

#[test]
fn fatal_probe_is_discarded_with_cooldown() {
    let m = manager(10);
    for kind in [
        ProbeErrorKind::ConnectionReset,
        ProbeErrorKind::BrokenPipe,
        ProbeErrorKind::UnexpectedEof,
        ProbeErrorKind::TimedOut,
        ProbeErrorKind::Other,
    ] {
        let verdict = m.recycle(0, &ProbeOutcome::Failure(kind));
        assert_eq!(verdict, Err(RecycleError::ProbeFailed(kind)));
        assert_eq!(cooldown_millis(&verdict), COOLDOWN_MILLIS);
        assert_eq!(COOLDOWN_MILLIS, 3000);
    }
}

#[test]
fn end_to_end_next_strategy_with_reuse_cap() {
    // max_requests = 2, Next strategy, two addresses: the first connection is
    // made to the first address, survives one recycle, is retired on the
    // second, and the replacement connection goes to the second address.
    let a = SockAddr::V4 { ip: 0xc0a8_0001, port: 9000 };
    let b = SockAddr::V4 { ip: 0xc0a8_0002, port: 9000 };
    let mut m =
        TcpConnectionManager::new(vec![a, b], AddressFamily::Any, LoadBalancing::Next, 2).unwrap();

    assert_eq!(m.get_addr(), a);
    assert_eq!(m.recycle(0, &ProbeOutcome::Success), Ok(()));
    assert_eq!(m.recycle(1, &ProbeOutcome::Success), Err(RecycleError::LimitReached));
    assert_eq!(m.get_addr(), b);
}
