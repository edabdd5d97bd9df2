use cync::peers::{handle_connection, ConnectionEvent, PeerAddr, PeerMap};

fn v4(port: u16) -> PeerAddr {
    PeerAddr::V4 { ip: 0x7f00_0001, port }
}

fn v6(port: u16) -> PeerAddr {
    PeerAddr::V6 { ip: 1, port, flowinfo: 0, scope_id: 0 }
}

fn sorted(peers: &PeerMap<u32>, from: PeerAddr) -> Vec<u32> {
    let mut senders: Vec<u32> = peers.recipients(from).into_iter().copied().collect();
    senders.sort();
    senders
}

#[test]
fn message_goes_to_all_others() {
    let mut peers = PeerMap::new();
    peers.insert(v4(1), 10);
    peers.insert(v4(2), 20);
    peers.insert(v6(1), 30);
    assert_eq!(sorted(&peers, v4(1)), vec![20, 30]);
    assert_eq!(sorted(&peers, v6(1)), vec![10, 20]);
    assert_eq!(sorted(&peers, v4(3)), vec![10, 20, 30]);
}

#[test]
fn lone_client_reaches_nobody() {
    let mut peers = PeerMap::new();
    assert_eq!(sorted(&peers, v4(1)), Vec::<u32>::new());
    peers.insert(v4(1), 10);
    assert_eq!(sorted(&peers, v4(1)), Vec::<u32>::new());
}

#[test]
fn address_is_kept_once() {
    let mut peers = PeerMap::new();
    peers.insert(v4(1), 10);
    peers.insert(v4(1), 11);
    assert_eq!(sorted(&peers, v4(2)), vec![11]);
}

#[test]
fn client_that_left_receives_nothing() {
    let mut peers = PeerMap::new();
    peers.insert(v4(1), 10);
    peers.insert(v4(2), 20);
    peers.remove(v4(2));
    assert_eq!(sorted(&peers, v4(3)), vec![10]);
    peers.remove(v4(2));
    assert_eq!(sorted(&peers, v4(3)), vec![10]);
}

#[test]
fn connection_is_followed_from_its_opening_to_its_close() {
    let mut peers = PeerMap::new();
    assert!(handle_connection(&mut peers, v4(1), ConnectionEvent::Opened(10)).is_empty());
    assert!(handle_connection(&mut peers, v4(1), ConnectionEvent::Message).is_empty());
    assert!(handle_connection(&mut peers, v4(2), ConnectionEvent::Opened(20)).is_empty());
    assert_eq!(handle_connection(&mut peers, v4(1), ConnectionEvent::Message), vec![&20]);
    assert_eq!(handle_connection(&mut peers, v4(2), ConnectionEvent::Message), vec![&10]);
    assert!(handle_connection(&mut peers, v4(2), ConnectionEvent::Closed).is_empty());
    assert!(handle_connection(&mut peers, v4(1), ConnectionEvent::Message).is_empty());
    assert_eq!(sorted(&peers, v4(3)), vec![10]);
}

#[test]
fn client_stays_whatever_happens_on_other_connections() {
    let mut peers = PeerMap::new();
    handle_connection(&mut peers, v4(1), ConnectionEvent::Opened(10));
    handle_connection(&mut peers, v4(2), ConnectionEvent::Opened(20));
    handle_connection(&mut peers, v4(1), ConnectionEvent::Message);
    handle_connection(&mut peers, v4(2), ConnectionEvent::Message);
    handle_connection(&mut peers, v4(2), ConnectionEvent::Opened(21));
    handle_connection(&mut peers, v4(2), ConnectionEvent::Closed);
    handle_connection(&mut peers, v6(1), ConnectionEvent::Closed);
    assert_eq!(handle_connection(&mut peers, v4(2), ConnectionEvent::Message), vec![&10]);
    handle_connection(&mut peers, v4(1), ConnectionEvent::Closed);
    assert!(handle_connection(&mut peers, v4(2), ConnectionEvent::Message).is_empty());
}
