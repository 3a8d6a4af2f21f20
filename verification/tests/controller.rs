use gossip::controller::{NetworkViewController, PeriodicShuffleController};
use gossip::message::NetworkViewEvent;
use gossip::network_view::ImmutableNetworkView;
use gossip::peer::PeerConnectInfo;

fn peer(id: &str) -> PeerConnectInfo {
    PeerConnectInfo { peer_id: id.to_string(), ip_octets: [10, 0, 0, 1], port: 7000 }
}

#[test]
fn without_events_nothing_happens() {
    let mut controller = NetworkViewController::new();
    let broadcast = controller.tick(None);
    assert!(broadcast.to_shuffle.is_none() && broadcast.to_handler.is_none());
    assert_eq!(controller.network_view().active_view().len(), 0);
}

#[test]
fn active_peers_are_announced_at_the_next_tick() {
    let mut controller = NetworkViewController::new();
    let first = controller.tick(Some(NetworkViewEvent::AddActivePeer(peer("a"))));
    assert!(first.to_shuffle.is_none() && first.to_handler.is_none());
    assert_eq!(controller.network_view().active_view().values(), vec![peer("a")]);
    let second = controller.tick(None);
    assert_eq!(second.to_shuffle.unwrap().active_view.values(), vec![peer("a")]);
    let to_handler = second.to_handler.unwrap();
    assert_eq!(to_handler.active_view.values(), vec![peer("a")]);
    assert_eq!(to_handler.ttl, 3);
    assert_eq!(controller.network_view().active_view().len(), 1);
}

#[test]
fn passive_peers_are_announced_once_and_to_the_shuffle() {
    let mut controller = NetworkViewController::new();
    let first = controller.tick(Some(NetworkViewEvent::AddPassivePeer(peer("a"))));
    assert_eq!(first.to_shuffle.unwrap().passive_view.values(), vec![peer("a")]);
    assert!(first.to_handler.is_none());
    let second = controller.tick(None);
    assert!(second.to_shuffle.is_none() && second.to_handler.is_none());
    assert_eq!(controller.network_view().passive_view().len(), 1);
}

#[test]
fn a_passive_peer_can_be_made_active_too() {
    let mut controller = NetworkViewController::new();
    controller.tick(Some(NetworkViewEvent::AddPassivePeer(peer("a"))));
    controller.tick(Some(NetworkViewEvent::AddActivePeer(peer("a"))));
    assert_eq!(controller.network_view().active_view().len(), 1);
    assert_eq!(controller.network_view().passive_view().len(), 1);
}

#[test]
fn an_active_peer_does_not_become_passive() {
    let mut controller = NetworkViewController::new();
    controller.tick(Some(NetworkViewEvent::AddActivePeer(peer("a"))));
    let broadcast = controller.tick(Some(NetworkViewEvent::AddPassivePeer(peer("a"))));
    assert!(broadcast.to_shuffle.is_none() && broadcast.to_handler.is_none());
    assert_eq!(controller.network_view().passive_view().len(), 0);
}

#[test]
fn other_events_change_nothing() {
    let mut controller = NetworkViewController::new();
    controller.tick(Some(NetworkViewEvent::AddActivePeer(peer("a"))));
    for event in [
        NetworkViewEvent::UnreachablePeer("a".to_string()),
        NetworkViewEvent::RemoveActivePeer,
    ] {
        let broadcast = controller.tick(Some(event));
        assert!(broadcast.to_shuffle.is_none() && broadcast.to_handler.is_none());
        assert_eq!(controller.network_view().active_view().values(), vec![peer("a")]);
    }
    let broadcast = controller.tick(None);
    assert!(broadcast.to_shuffle.is_none() && broadcast.to_handler.is_none());
}

#[test]
fn the_shuffle_keeps_the_latest_snapshot() {
    let mut controller = PeriodicShuffleController::new();
    assert!(controller.tick(None).is_none());
    let mut snapshot = ImmutableNetworkView::default();
    snapshot.passive_view.insert("a".to_string(), peer("a"));
    assert_eq!(controller.tick(Some(snapshot)).unwrap().passive_view.len(), 1);
    assert_eq!(controller.tick(None).unwrap().passive_view.values(), vec![peer("a")]);
    assert_eq!(
        controller.tick(Some(ImmutableNetworkView::default())).unwrap().passive_view.len(),
        0
    );
}
