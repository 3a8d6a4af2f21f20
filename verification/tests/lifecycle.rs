use gossip::message::{Outgoing, PeerMessage};
use gossip::peer::SocketAddress;
use gossip::server::Server;

#[test]
fn test_server_lifecycle_happy_path() {
    let mut server = Server::new();
    let bootstrapped = Server::bootstrap_local_node(None, false, "me".to_string(), 7000);
    assert!(matches!(bootstrapped, Ok(None)));
    let handler = server.run("me".to_string(), &7000, bootstrapped.map(|_| ()));
    assert!(handler.is_ok());
    assert!(server.is_running());
    server.shutdown();
    assert!(!server.is_running());
}

#[test]
fn a_new_server_does_not_run() {
    assert!(!Server::new().is_running());
}

#[test]
fn a_failed_bootstrap_does_not_start_the_server() {
    let mut server = Server::new();
    assert!(server.run("me".to_string(), &7000, Err(())).is_err());
    assert!(!server.is_running());
}

#[test]
fn a_failed_bootstrap_does_not_stop_the_server() {
    let mut server = Server::new();
    assert!(server.run("me".to_string(), &7000, Ok(())).is_ok());
    assert!(server.run("me".to_string(), &7000, Err(())).is_err());
    assert!(server.is_running());
}

#[test]
fn text_that_is_no_address_is_refused() {
    let join = Server::bootstrap_local_node(Some(Err(())), true, "me".to_string(), 7000);
    assert!(join.is_err());
}

#[test]
fn a_node_does_not_bootstrap_from_itself() {
    let own = SocketAddress::V4([127, 0, 0, 1], 7000);
    let join = Server::bootstrap_local_node(Some(Ok(own)), true, "me".to_string(), 7000);
    assert!(join.is_err());
}

fn expect_join(to: SocketAddress) {
    let join = Server::bootstrap_local_node(Some(Ok(to)), true, "me".to_string(), 7000);
    match join {
        Ok(Some(Outgoing { to: sent_to, message: PeerMessage::Join(id, ttl, port) })) => {
            assert_eq!(sent_to, to);
            assert_eq!(id, "me");
            assert_eq!(ttl, 4);
            assert_eq!(port, 7000);
        }
        _ => panic!("no join was sent"),
    }
}

#[test]
fn other_addresses_are_sent_a_join() {
    expect_join(SocketAddress::V4([127, 0, 0, 1], 7001));
    expect_join(SocketAddress::V4([127, 0, 0, 2], 7000));
    expect_join(SocketAddress::V4([0, 0, 0, 1], 7000));
    expect_join(SocketAddress::V6([0, 0, 0, 0, 0, 0, 0, 0, 0, 0, 0, 0, 0, 0, 0, 1], 7000, 0, 0));
}

#[test]
fn without_a_socket_no_join_is_sent() {
    let to = SocketAddress::V4([10, 0, 0, 1], 7000);
    let join = Server::bootstrap_local_node(Some(Ok(to)), false, "me".to_string(), 7000);
    assert!(matches!(join, Ok(None)));
}
