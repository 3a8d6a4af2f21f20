use gossip::network_view::{ttl_of_size, ImmutableNetworkView, NetworkView};
use gossip::peer::PeerConnectInfo;
use gossip::peers::Peers;

fn peer(id: &str, port: u16) -> PeerConnectInfo {
    PeerConnectInfo { peer_id: id.to_string(), ip_octets: [10, 0, 0, 1], port }
}

#[test]
fn a_new_view_is_empty() {
    let view = NetworkView::new();
    assert_eq!(view.active_view().len(), 0);
    assert_eq!(view.passive_view().len(), 0);
    assert_eq!(view.assumed_network_size(), 4);
}

#[test]
fn capacities_follow_the_assumed_size() {
    let view = NetworkView::new();
    assert_eq!(view.active_peer_capacity(), 2);
    assert_eq!(view.passive_peer_capacity(), 8);
    assert_eq!(view.ttl_for_network_size(), 3);
}

#[test]
fn hops_follow_the_size() {
    for (size, ttl) in [(0, 3), (1, 3), (4, 3), (8, 3), (15, 3), (16, 4), (31, 4), (32, 5), (u32::MAX, 31)] {
        assert_eq!(ttl_of_size(size), ttl);
    }
}

#[test]
fn the_default_snapshot_is_that_of_a_new_view() {
    let fresh = ImmutableNetworkView::from(NetworkView::new());
    for snapshot in [fresh, ImmutableNetworkView::default()] {
        assert_eq!(snapshot.assumed_network_size, 4);
        assert_eq!(snapshot.active_view.len(), 0);
        assert_eq!(snapshot.passive_view.len(), 0);
        assert_eq!(snapshot.ttl, 3);
    }
}

#[test]
fn known_peers_are_refused() {
    let mut view = NetworkView::new();
    assert_eq!(view.insert_active("a".to_string(), peer("a", 1)), Ok(()));
    assert_eq!(view.insert_passive("b".to_string(), peer("b", 2)), Ok(()));
    for id in ["a", "b"] {
        assert_eq!(view.insert_active(id.to_string(), peer(id, 9)), Err(()));
        assert_eq!(view.insert_passive(id.to_string(), peer(id, 9)), Err(()));
    }
    assert_eq!(view.active_view().get(&"a".to_string()), Some(&peer("a", 1)));
    assert_eq!(view.passive_view().get(&"b".to_string()), Some(&peer("b", 2)));
    assert_eq!(view.active_view().len(), 1);
    assert_eq!(view.passive_view().len(), 1);
}

#[test]
fn no_peer_is_both_active_and_passive() {
    let mut view = NetworkView::new();
    for id in ["a", "b", "a", "c"] {
        let _ = view.insert_active(id.to_string(), peer(id, 1));
        let _ = view.insert_passive(id.to_string(), peer(id, 1));
    }
    assert_eq!(view.active_view().len(), 3);
    assert_eq!(view.passive_view().len(), 0);
}

#[test]
fn removal_undoes_insertion() {
    let mut view = NetworkView::new();
    assert_eq!(view.insert_active("a".to_string(), peer("other name", 1)), Ok(()));
    assert_eq!(view.remove_active(&"a".to_string()), Some(peer("other name", 1)));
    assert_eq!(view.active_view().len(), 0);
    assert_eq!(view.remove_active(&"a".to_string()), None);
    assert_eq!(view.insert_passive("a".to_string(), peer("a", 2)), Ok(()));
}

#[test]
fn passive_peers_are_not_removed() {
    let mut view = NetworkView::new();
    assert_eq!(view.insert_passive("a".to_string(), peer("a", 1)), Ok(()));
    assert_eq!(view.remove_active(&"a".to_string()), None);
    assert_eq!(view.passive_view().len(), 1);
}

#[test]
fn replacing_files_a_peer_that_is_passive() {
    let mut view = NetworkView::new();
    assert_eq!(view.insert_passive("a".to_string(), peer("a", 1)), Ok(()));
    assert_eq!(view.replace_active("a".to_string(), peer("a", 2)), None);
    assert_eq!(view.replace_active("a".to_string(), peer("a", 3)), Some(peer("a", 2)));
    assert!(view.active_view().contains_key(&"a".to_string()));
    assert!(view.passive_view().contains_key(&"a".to_string()));
}

#[test]
fn snapshots_do_not_follow_the_view() {
    let mut view = NetworkView::new();
    let _ = view.insert_active("a".to_string(), peer("a", 1));
    let _ = view.insert_passive("b".to_string(), peer("b", 2));
    let snapshot = ImmutableNetworkView::from(view.clone());
    let _ = view.insert_active("c".to_string(), peer("c", 3));
    assert_eq!(snapshot.active_view.values(), vec![peer("a", 1)]);
    assert_eq!(snapshot.clone().passive_view.values(), vec![peer("b", 2)]);
}

#[test]
fn peers_are_walked_in_order_of_insertion() {
    let mut peers = Peers::new();
    for (id, port) in [("x", 1), ("y", 2), ("z", 3)] {
        assert_eq!(peers.insert(id.to_string(), peer(id, port)), None);
    }
    assert_eq!(peers.insert("y".to_string(), peer("y", 9)), Some(peer("y", 2)));
    assert_eq!(peers.values(), vec![peer("x", 1), peer("y", 9), peer("z", 3)]);
    assert_eq!(peers.remove(&"x".to_string()), Some(peer("x", 1)));
    assert_eq!(peers.remove(&"x".to_string()), None);
    assert_eq!(peers.len(), 2);
    assert_eq!(peers.id_at(0), "y");
    assert_eq!(peers.peer_at(1), &peer("z", 3));
    assert_eq!(peers.get(&"x".to_string()), None);
    assert_eq!(peers.clone().values(), peers.values());
}
