use tcpconnpool::AddressFamily;
use tcpconnpool::LoadBalancing;
use tcpconnpool::ResolutionError;
use tcpconnpool::SockAddr;
use tcpconnpool::TcpConnectionManager;

fn v4(ip: u32, port: u16) -> SockAddr {
    SockAddr::V4 { ip, port }
}

fn v6(ip: u128, port: u16) -> SockAddr {
    SockAddr::V6 { ip, port }
}

#[test]
fn first_strategy_always_returns_first_address() {
    let addrs = vec![v4(0x0101_0101, 80), v4(0x0202_0202, 80), v4(0x0303_0303, 80)];
    let mut m =
        TcpConnectionManager::new(addrs.clone(), AddressFamily::Any, LoadBalancing::First, 4)
            .unwrap();
    for _ in 0..5 {
        assert_eq!(m.get_addr(), addrs[0]);
    }
}

#[test]
fn next_strategy_visits_every_address_once_then_wraps() {
    let addrs = vec![v4(1, 80), v4(2, 80), v4(3, 80)];
    let mut m = TcpConnectionManager::new(addrs.clone(), AddressFamily::Any, LoadBalancing::Next, 4)
        .unwrap();
    let mut seen = Vec::new();
    for _ in 0..addrs.len() {
        seen.push(m.get_addr());
    }
    assert_eq!(seen, addrs);
    // one full round later the cursor has wrapped to the first address
    assert_eq!(m.get_addr(), addrs[0]);
}

#[test]
fn random_strategy_never_leaves_the_set() {
    let addrs = vec![v4(1, 80), v6(2, 443), v4(3, 8080)];
    let mut m =
        TcpConnectionManager::new(addrs.clone(), AddressFamily::Any, LoadBalancing::Random, 4)
            .unwrap();
    assert!(m.well_formed());
    let mut hits = [0usize; 3];
    for _ in 0..200 {
        let a = m.get_addr();
        let i = addrs.iter().position(|x| *x == a).expect("address outside the set");
        hits[i] += 1;
    }
    // each address has nonzero selection probability: over 200 uniform draws
    // from 3 addresses, missing one entirely is vanishingly unlikely
    assert!(hits.iter().all(|h| *h > 0));
}

#[test]
fn random_strategy_on_single_address_returns_it() {
    let only = v4(7, 7777);
    let mut m =
        TcpConnectionManager::new(vec![only], AddressFamily::Any, LoadBalancing::Random, 4)
            .unwrap();
    for _ in 0..50 {
        assert_eq!(m.get_addr(), only);
    }
}

#[test]
fn filtering_ipv4_keeps_only_ipv4_in_order() {
    let mixed = vec![v6(1, 80), v4(2, 80), v6(3, 80), v4(4, 80)];
    let m = TcpConnectionManager::new(mixed, AddressFamily::IPv4, LoadBalancing::First, 1).unwrap();
    assert_eq!(m.addrs, vec![v4(2, 80), v4(4, 80)]);
}

#[test]
fn filtering_ipv6_keeps_only_ipv6_in_order() {
    let mixed = vec![v6(1, 80), v4(2, 80), v6(3, 80), v4(4, 80)];
    let m = TcpConnectionManager::new(mixed, AddressFamily::IPv6, LoadBalancing::First, 1).unwrap();
    assert_eq!(m.addrs, vec![v6(1, 80), v6(3, 80)]);
}

#[test]
fn filtering_any_keeps_everything_in_order() {
    let mixed = vec![v6(1, 80), v4(2, 80), v6(3, 80), v4(4, 80)];
    let m = TcpConnectionManager::new(mixed.clone(), AddressFamily::Any, LoadBalancing::First, 1)
        .unwrap();
    assert_eq!(m.addrs, mixed);
}

#[test]
fn construction_fails_when_filtering_leaves_nothing() {
    let only_v6 = vec![v6(1, 80), v6(2, 80)];
    let r = TcpConnectionManager::new(only_v6, AddressFamily::IPv4, LoadBalancing::Next, 4);
    assert_eq!(r.unwrap_err(), ResolutionError::NoMatchingAddress);
}

#[test]
fn construction_fails_on_empty_input() {
    let r = TcpConnectionManager::new(Vec::new(), AddressFamily::Any, LoadBalancing::First, 4);
    assert_eq!(r.unwrap_err(), ResolutionError::NoMatchingAddress);
}
