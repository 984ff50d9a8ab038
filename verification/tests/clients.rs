use ore_hq_server::clients::{ClientAddr, ClientSet, Sockets};

fn v4(port: u16) -> ClientAddr {
    ClientAddr::V4 { ip: 10, port }
}

fn v6(scope_id: u32) -> ClientAddr {
    ClientAddr::V6 { ip6: 1, port: 1, flowinfo: 0, scope_id }
}

#[test]
fn waiting_clients_are_kept_once_and_in_order() {
    let mut set = ClientSet::new();
    assert!(set.insert(v4(1)));
    assert!(set.insert(v6(0)));
    assert!(!set.insert(v4(1)));
    assert!(set.insert(v6(1)));
    assert_eq!(set.to_vec(), vec![v4(1), v6(0), v6(1)]);
    assert_eq!(set.len(), 3);
    assert!(set.contains(v6(1)));
    assert!(!set.contains(v4(2)));
}

#[test]
fn second_connection_from_an_address_is_dropped() {
    let mut sockets = Sockets::new();
    assert!(sockets.connect(v4(1), "first"));
    assert!(!sockets.connect(v4(1), "second"));
    assert!(sockets.connect(v4(2), "third"));
    assert_eq!(sockets.get(v4(1)), Some(&"first"));
    assert_eq!(sockets.get(v4(2)), Some(&"third"));
    assert_eq!(sockets.get(v6(0)), None);
    assert!(sockets.contains(v4(2)));
}

#[test]
fn unreachable_clients_lose_their_sockets() {
    let mut sockets = Sockets::new();
    for port in 0..5 {
        sockets.connect(v4(port), port);
    }
    sockets.remove_all(&vec![v4(1), v6(0), v4(3), v4(1)]);
    let mut left = sockets.addresses();
    left.sort_by_key(|addr| match addr {
        ClientAddr::V4 { port, .. } => *port,
        ClientAddr::V6 { port, .. } => *port,
    });
    assert_eq!(left, vec![v4(0), v4(2), v4(4)]);
    assert_eq!(sockets.get(v4(4)), Some(&4));
    assert!(sockets.remove(v4(4)));
    assert!(!sockets.remove(v4(4)));
    assert!(sockets.connect(v4(4), 40));
    assert_eq!(sockets.get(v4(4)), Some(&40));
}
