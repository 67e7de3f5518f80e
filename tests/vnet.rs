use bluesea_net::identity::{ConnId, NodeAddr, Protocol};
use bluesea_net::transport::OutgoingConnectionError;
use bluesea_net::vnet::{acceptance_error, initial_stats, VnetEarth, VnetOutgoing, VNET_PROTOCOL_ID};

fn addr(node: u32, port: u64) -> NodeAddr {
    NodeAddr::from_protocols(vec![Protocol::P2p(node), Protocol::Memory(port)])
}

#[test]
fn connect_between_two_listeners() {
    let mut earth = VnetEarth::new();
    earth.create_listener(100, 1, addr(1, 100));
    earth.create_listener(200, 2, addr(2, 200));
    assert_eq!(
        earth.create_outgoing(100, 2, 200),
        Some(VnetOutgoing::Connect {
            conn_out: ConnId::from_out(VNET_PROTOCOL_ID, 0),
            conn_in: ConnId::from_in(VNET_PROTOCOL_ID, 1),
            from_node: 1,
            from_addr: addr(1, 100),
            to_node: 2,
            to_addr: addr(2, 200),
        })
    );
    assert_eq!(earth.remove_connection(ConnId::from_out(VNET_PROTOCOL_ID, 0)), Some((1, 2)));
    assert_eq!(earth.remove_connection(ConnId::from_out(VNET_PROTOCOL_ID, 0)), None);
}

#[test]
fn connect_to_unbound_port_is_not_found() {
    let mut earth = VnetEarth::new();
    earth.create_listener(100, 1, addr(1, 100));
    assert_eq!(
        earth.create_outgoing(100, 2, 200),
        Some(VnetOutgoing::Rejected { conn_id: ConnId::from_out(VNET_PROTOCOL_ID, 0), err: OutgoingConnectionError::DestinationNotFound })
    );
    earth.create_listener(200, 2, addr(2, 200));
    assert!(matches!(earth.create_outgoing(100, 2, 200), Some(VnetOutgoing::Connect { conn_out, .. }) if conn_out == ConnId::from_out(VNET_PROTOCOL_ID, 2)));
}

#[test]
fn connect_to_other_node_fails_authentication() {
    let mut earth = VnetEarth::new();
    earth.create_listener(100, 1, addr(1, 100));
    earth.create_listener(200, 2, addr(2, 200));
    assert_eq!(
        earth.create_outgoing(100, 3, 200),
        Some(VnetOutgoing::Rejected { conn_id: ConnId::from_out(VNET_PROTOCOL_ID, 0), err: OutgoingConnectionError::AuthenticationError })
    );
}

#[test]
fn connect_from_unbound_port_is_refused() {
    let mut earth = VnetEarth::new();
    earth.create_listener(200, 2, addr(2, 200));
    assert_eq!(earth.create_outgoing(100, 2, 200), None);
    earth.create_listener(100, 1, addr(1, 100));
    assert!(matches!(earth.create_outgoing(100, 2, 200), Some(VnetOutgoing::Connect { conn_out, .. }) if conn_out == ConnId::from_out(VNET_PROTOCOL_ID, 0)));
}

#[test]
fn rebinding_a_port_replaces_its_node() {
    let mut earth = VnetEarth::new();
    earth.create_listener(100, 1, addr(1, 100));
    earth.create_listener(200, 2, addr(2, 200));
    earth.create_listener(200, 5, addr(5, 200));
    assert!(matches!(earth.create_outgoing(100, 5, 200), Some(VnetOutgoing::Connect { to_node: 5, .. })));
}

#[test]
fn first_stats_are_synthetic() {
    let s = initial_stats();
    assert_eq!(s.rtt_ms, 1);
    assert_eq!(s.send_est_kbps, 100000);
    assert_eq!(s.sending_kbps, 0);
    assert_eq!(s.loss_percent, 0);
    assert!(!s.over_use);
}

#[test]
fn acceptance_outcomes() {
    let rejected = |s: &str| Some(OutgoingConnectionError::BehaviorRejected(String::from(s)));
    assert_eq!(acceptance_error(Some(Ok(())), Some(Ok(()))), None);
    assert_eq!(acceptance_error(Some(Err(String::from("a"))), Some(Err(String::from("b")))), rejected("a"));
    assert_eq!(acceptance_error(Some(Ok(())), Some(Err(String::from("b")))), rejected("b"));
    assert_eq!(acceptance_error(None, Some(Err(String::from("b")))), rejected("b"));
    assert_eq!(acceptance_error(Some(Ok(())), None), rejected("ChannelError"));
    assert_eq!(acceptance_error(None, None), rejected("ChannelError"));
}

#[test]
fn address_copy_keeps_layers() {
    let mut a = NodeAddr::empty();
    a.push(Protocol::Ip4(0x7f000001));
    a.push(Protocol::Tcp(8080));
    a.push(Protocol::P2p(9));
    let b = a.duplicate();
    assert_eq!(b, NodeAddr(vec![Protocol::Ip4(0x7f000001), Protocol::Tcp(8080), Protocol::P2p(9)]));
}
