use gossip::client::{client_message, client_round, ClientRun, MESSAGES_PER_RUN};
use gossip::handler::PeerEventHandler;
use gossip::message::{acknowledgement, Action, ConnectPriority, NetworkViewEvent, Outgoing, PeerMessage, MAX_DATAGRAM_SIZE};
use gossip::network_view::ImmutableNetworkView;
use gossip::peer::{PeerConnectInfo, SocketAddress};
use gossip::server::Server;

const V6: SocketAddress = SocketAddress::V6([1; 16], 50000, 0, 0);

fn v4(last: u8, port: u16) -> SocketAddress {
    SocketAddress::V4([10, 0, 0, last], port)
}

fn peer(id: &str, last: u8, port: u16) -> PeerConnectInfo {
    PeerConnectInfo { peer_id: id.to_string(), ip_octets: [10, 0, 0, last], port }
}

fn snapshot(active: &[PeerConnectInfo], passive: &[PeerConnectInfo]) -> ImmutableNetworkView {
    let mut view = ImmutableNetworkView::default();
    for one in active {
        view.active_view.insert(one.peer_id.clone(), one.clone());
    }
    for one in passive {
        view.passive_view.insert(one.peer_id.clone(), one.clone());
    }
    view
}

fn node(active: &[PeerConnectInfo]) -> PeerEventHandler {
    let mut handler = PeerEventHandler::new("me".to_string(), 7000);
    handler.observe(Some(snapshot(active, &[])));
    handler
}

fn show(actions: &Vec<Action>) -> String {
    format!("{:?}", actions)
}

fn expect_active(action: &Action, expected: PeerConnectInfo) {
    match action {
        Action::Notify(NetworkViewEvent::AddActivePeer(added)) => assert_eq!(*added, expected),
        _ => panic!("not an active peer: {:?}", action),
    }
}

fn expect_passive(action: &Action, expected: PeerConnectInfo) {
    match action {
        Action::Notify(NetworkViewEvent::AddPassivePeer(added)) => assert_eq!(*added, expected),
        _ => panic!("not a passive peer: {:?}", action),
    }
}

fn expect_forward(action: &Action, to: SocketAddress, hops: u8) {
    match action {
        Action::Send(Outgoing { to: sent_to, message: PeerMessage::ForwardJoin(ip, id, ttl, port) }) => {
            assert_eq!(*sent_to, to);
            assert_eq!((*ip, id.as_str(), *ttl, *port), ([10, 0, 0, 9], "new", hops, 7009));
        }
        _ => panic!("not a forward: {:?}", action),
    }
}

#[test]
fn a_join_is_welcomed_and_passed_on() {
    let handler = node(&[peer("a", 1, 7001), peer("new", 9, 7009), peer("b", 2, 7002)]);
    let join = PeerMessage::Join("new".to_string(), 4, 7009);
    let actions = handler.handle_message(join, v4(9, 50000));
    assert_eq!(actions.len(), 4);
    expect_active(&actions[0], peer("new", 9, 7009));
    match &actions[1] {
        Action::Send(Outgoing { to, message: PeerMessage::Connect(id, priority, port) }) => {
            assert_eq!(*to, v4(9, 7009));
            assert_eq!((id.as_str(), *priority, *port), ("me", ConnectPriority::Normal, 7000));
        }
        _ => panic!("not a connect: {:?}", actions[1]),
    }
    expect_forward(&actions[2], v4(1, 7001), 3);
    expect_forward(&actions[3], v4(2, 7002), 3);
}

#[test]
fn joins_over_ipv6_are_ignored() {
    let handler = node(&[peer("a", 1, 7001)]);
    assert!(handler.handle_message(PeerMessage::Join("new".to_string(), 0, 7009), V6).is_empty());
    let connect = PeerMessage::Connect("new".to_string(), ConnectPriority::High, 7009);
    assert!(handler.handle_message(connect, V6).is_empty());
}

#[test]
fn a_join_without_hops_cannot_be_answered() {
    let handler = node(&[]);
    assert!(!handler.can_answer(&PeerMessage::Join("new".to_string(), 0, 7009), &v4(9, 1)));
    assert!(handler.can_answer(&PeerMessage::Join("new".to_string(), 1, 7009), &v4(9, 1)));
    assert!(handler.can_answer(&PeerMessage::Join("new".to_string(), 0, 7009), &V6));
    let actions = handler.welcome_peer([10, 0, 0, 9], &"new".to_string(), 7009);
    assert_eq!(actions.len(), 2);
    expect_active(&actions[0], peer("new", 9, 7009));
}

fn forward(id: &str, ttl: u8) -> PeerMessage {
    PeerMessage::ForwardJoin([10, 0, 0, 9], id.to_string(), ttl, 7009)
}

#[test]
fn a_forward_goes_on_with_one_hop_less() {
    let handler = node(&[peer("a", 1, 7001), peer("new", 9, 7009)]);
    let actions = handler.handle_message(forward("new", 2), v4(1, 7001));
    assert_eq!(actions.len(), 2);
    expect_passive(&actions[0], peer("new", 9, 7009));
    expect_forward(&actions[1], v4(1, 7001), 1);
}

#[test]
fn a_forward_without_hops_ends() {
    let handler = node(&[peer("a", 1, 7001)]);
    let actions = handler.handle_message(forward("new", 0), v4(1, 7001));
    assert_eq!(actions.len(), 1);
    expect_active(&actions[0], peer("new", 9, 7009));
}

#[test]
fn a_node_ignores_its_own_forward() {
    let handler = node(&[peer("a", 1, 7001)]);
    assert!(handler.handle_message(forward("me", 2), v4(1, 7001)).is_empty());
    assert!(handler.handle_message(forward("me", 0), v4(1, 7001)).is_empty());
}

#[test]
fn a_connect_adds_an_active_peer() {
    let handler = node(&[]);
    let connect = PeerMessage::Connect("a".to_string(), ConnectPriority::High, 7001);
    let actions = handler.handle_message(connect, v4(1, 50000));
    assert_eq!(actions.len(), 1);
    expect_active(&actions[0], peer("a", 1, 7001));
}

#[test]
fn joining_is_mutual() {
    let asked = PeerEventHandler::new("asked".to_string(), 7001);
    let joining = PeerEventHandler::new("joining".to_string(), 7002);
    let sent = Server::send_join(v4(1, 7001), "joining".to_string(), 7002);
    assert_eq!(sent.to, v4(1, 7001));
    let mut actions = asked.handle_message(sent.message, v4(2, 50000));
    expect_active(&actions[0], peer("joining", 2, 7002));
    match actions.remove(1) {
        Action::Send(connect) => {
            assert_eq!(connect.to, v4(2, 7002));
            let answer = joining.handle_message(connect.message, v4(1, 50001));
            assert_eq!(answer.len(), 1);
            expect_active(&answer[0], peer("asked", 1, 7001));
        }
        other => panic!("not a connect: {:?}", other),
    }
}

fn request(peers: Vec<PeerConnectInfo>, ttl: u8) -> PeerMessage {
    PeerMessage::ShuffleRequest([10, 0, 0, 8], peers, ttl, 7008)
}

#[test]
fn a_shuffle_that_ends_is_answered_at_its_origin() {
    let active = [peer("a", 1, 7001), peer("b", 2, 7002), peer("c", 3, 7003)];
    let handler = node(&active);
    let brought = vec![peer("x", 4, 7004), peer("y", 5, 7005)];
    let actions = handler.handle_message(request(brought, 0), v4(7, 50000));
    assert_eq!(actions.len(), 2);
    match &actions[0] {
        Action::Send(Outgoing { to, message: PeerMessage::ShuffleResponse(returned) }) => {
            assert_eq!(*to, v4(8, 7008));
            assert_eq!(returned.len(), 2);
            assert_ne!(returned[0], returned[1]);
            assert!(returned.iter().all(|one| active.contains(one)));
        }
        _ => panic!("not a response: {:?}", actions[0]),
    }
    assert!(matches!(actions[1], Action::Acknowledge(to) if to == v4(7, 50000)));
}

#[test]
fn a_shuffle_with_hops_goes_on() {
    let handler = node(&[peer("a", 1, 7001)]);
    let actions = handler.handle_message(request(vec![peer("x", 4, 7004)], 3), V6);
    assert_eq!(actions.len(), 2);
    match &actions[0] {
        Action::Send(Outgoing { to, message: PeerMessage::ShuffleRequest(ip, peers, ttl, port) }) => {
            assert_eq!(*to, v4(1, 7001));
            assert_eq!((*ip, *ttl, *port), ([10, 0, 0, 8], 2, 7008));
            assert_eq!(*peers, vec![peer("x", 4, 7004)]);
        }
        _ => panic!("not a request: {:?}", actions[0]),
    }
    assert!(matches!(actions[1], Action::Acknowledge(to) if to == V6));
}

#[test]
fn a_given_order_decides_a_shuffle() {
    let handler = node(&[]);
    let order = vec![peer("b", 2, 7002), peer("a", 1, 7001)];
    let ended = handler.handle_shuffle_request(
        [10, 0, 0, 8], vec![peer("x", 4, 7004)], 0, 7008, v4(7, 1), &order);
    match &ended[0] {
        Action::Send(Outgoing { message: PeerMessage::ShuffleResponse(returned), .. }) => {
            assert_eq!(*returned, vec![peer("b", 2, 7002)]);
        }
        _ => panic!("not a response: {:?}", ended[0]),
    }
    let passed_on = handler.handle_shuffle_request([10, 0, 0, 8], vec![], 1, 7008, v4(7, 1), &order);
    assert!(matches!(&passed_on[0], Action::Send(sent) if sent.to == v4(2, 7002)));
}

#[test]
fn shuffles_need_active_peers() {
    let alone = node(&[]);
    assert!(!alone.can_answer(&request(vec![], 1), &V6));
    assert!(alone.can_answer(&request(vec![], 0), &V6));
    assert!(!alone.can_answer(&request(vec![peer("x", 4, 7004)], 0), &V6));
    let paired = node(&[peer("a", 1, 7001)]);
    assert!(paired.can_answer(&request(vec![], 1), &V6));
    assert!(paired.can_answer(&request(vec![peer("x", 4, 7004)], 0), &V6));
    assert!(!paired.can_answer(&request(vec![peer("x", 4, 7004), peer("y", 5, 7005)], 0), &V6));
}

#[test]
fn shuffled_peers_become_passive() {
    let handler = node(&[]);
    let response = PeerMessage::ShuffleResponse(vec![
        peer("a", 1, 7001),
        peer("me", 2, 7000),
        peer("b", 3, 7003),
    ]);
    let actions = handler.handle_message(response, v4(1, 1));
    assert_eq!(actions.len(), 2);
    expect_passive(&actions[0], peer("a", 1, 7001));
    expect_passive(&actions[1], peer("b", 3, 7003));
}

#[test]
fn a_disconnect_is_ignored() {
    let handler = node(&[peer("a", 1, 7001)]);
    let message = PeerMessage::Disconnect("a".to_string(), true, true);
    assert!(handler.handle_message(message, v4(1, 1)).is_empty());
}

#[test]
fn gossip_dies_out() {
    let handler = node(&[peer("a", 1, 7001)]);
    let mut message = PeerMessage::Join("new".to_string(), 4, 7009);
    let mut length = 1;
    loop {
        let sent = handler.handle_message(message, v4(9, 1)).into_iter().filter_map(|action| {
            match action {
                Action::Send(outgoing) => Some(outgoing.message),
                _ => None,
            }
        });
        match sent.last() {
            Some(next) => message = next,
            None => break,
        }
        length += 1;
    }
    assert_eq!(length, 5);
}

#[test]
fn no_snapshot_leaves_the_last_one() {
    let mut handler = node(&[peer("a", 1, 7001)]);
    let before = show(&handler.handle_message(forward("new", 1), V6));
    handler.observe(None);
    assert_eq!(show(&handler.handle_message(forward("new", 1), V6)), before);
}

#[test]
fn a_shuffle_starts_at_one_of_the_known_peers() {
    let (a, b) = (peer("a", 1, 7001), peer("b", 2, 7002));
    let view = snapshot(&[a.clone()], &[b.clone()]);
    let mut seen = Vec::new();
    for _ in 0..200 {
        let mut round = Server::send_shuffle(&view, 2, 7000);
        let sent = round.next_message().unwrap();
        match sent.message {
            PeerMessage::ShuffleRequest(ip, peers, ttl, port) => {
                assert_eq!((ip, ttl, port), ([127, 0, 0, 1], 2, 7000));
                assert_eq!(peers.len(), 1);
                assert_eq!(sent.to, peers[0].address());
                if !seen.contains(&peers[0]) {
                    seen.push(peers[0].clone());
                }
            }
            _ => panic!("not a shuffle"),
        }
        assert!(round.next_message().is_none());
    }
    assert_eq!(seen.len(), 2);
    assert!(seen.contains(&a) && seen.contains(&b));
}

#[test]
fn a_round_is_given_up_when_nothing_goes_out() {
    let order = vec![peer("a", 1, 7001), peer("b", 2, 7002)];
    let mut round = Server::shuffle_round(&order, 1, 7000);
    round.sent(0);
    assert!(round.next_message().is_none());
    let mut round = Server::shuffle_round(&order, 1, 7000);
    round.sent(12);
    assert_eq!(round.next_message().unwrap().to, v4(1, 7001));
}

#[test]
fn acknowledgements_are_three_letters() {
    assert_eq!(&acknowledgement(), b"ACK");
}

#[test]
fn client_messages_are_filled() {
    let sent = client_message(5);
    assert_eq!(sent.pubkey, [5; 32]);
    assert_eq!(sent.signature, [1; 64]);
    assert_eq!(sent.topic, [1; 32]);
    assert_eq!(sent.payload_size, 924);
    assert_eq!(sent.message, [2; 892]);
    assert_eq!(MAX_DATAGRAM_SIZE, 1024);
}

#[test]
fn client_rounds_need_a_socket() {
    assert!(client_round(5, false).is_none());
    let (to, message) = client_round(5, true).unwrap();
    assert_eq!(to, SocketAddress::V4([127, 0, 0, 1], 3000));
    assert_eq!(message.pubkey, [5; 32]);
    assert_eq!(message.message, [2; 892]);
    assert_eq!(MESSAGES_PER_RUN, 1000);
}

#[test]
fn a_shuffle_may_be_given_no_hops() {
    let mut view = snapshot(&[peer("a", 1, 7001)], &[]);
    view.ttl = 0;
    let sent = Server::send_shuffle(&view, 0, 7000).next_message().unwrap();
    assert!(matches!(sent.message, PeerMessage::ShuffleRequest(_, _, 0, 7000)));
}

#[test]
fn a_failed_bind_costs_one_round() {
    let mut run = ClientRun::new();
    let (mut rounds, mut sent) = (0, 0);
    while run.rounds_left() > 0 {
        if let Some((to, _)) = run.next_round(5, rounds != 10) {
            assert_eq!(to, SocketAddress::V4([127, 0, 0, 1], 3000));
            sent += 1;
        }
        rounds += 1;
    }
    assert_eq!((rounds, sent), (1000, 999));
}
