use gossip::peer::PeerConnectInfo;
use gossip::sampling::{shuffled_by_os, shuffled_by_thread};

fn many() -> Vec<PeerConnectInfo> {
    (0..100u16)
        .map(|i| PeerConnectInfo { peer_id: format!("p{i}"), ip_octets: [10, 0, 0, 1], port: i })
        .collect()
}

fn check_order(order: Vec<PeerConnectInfo>) {
    assert_ne!(order, many());
    let mut sorted = order;
    sorted.sort_by_key(|peer| peer.port);
    assert_eq!(sorted, many());
}

#[test]
fn the_system_draws_an_order() {
    check_order(shuffled_by_os(many()));
}

#[test]
fn the_thread_draws_an_order() {
    check_order(shuffled_by_thread(many()));
}

#[test]
fn nothing_stays_nothing() {
    assert!(shuffled_by_os(Vec::new()).is_empty());
    assert!(shuffled_by_thread(Vec::new()).is_empty());
}
