use bluesea_net::identity::{ConnDirection, ConnId};
use bluesea_net::mock::MockConnections;

#[test]
fn messages_go_to_incoming_first() {
    let mut conns = MockConnections::new();
    let c = ConnId::from_in(0, 1);
    assert_eq!(conns.route(c), None);
    conns.add(ConnDirection::Outgoing, c);
    assert_eq!(conns.route(c), Some(ConnDirection::Outgoing));
    conns.add(ConnDirection::Incoming, c);
    assert_eq!(conns.route(c), Some(ConnDirection::Incoming));
}

#[test]
fn disconnect_removes_only_that_direction() {
    let mut conns = MockConnections::new();
    let c = ConnId::from_out(0, 3);
    conns.add(ConnDirection::Incoming, c);
    conns.add(ConnDirection::Incoming, c);
    conns.add(ConnDirection::Outgoing, c);
    assert!(conns.remove(ConnDirection::Incoming, c));
    assert!(!conns.remove(ConnDirection::Incoming, c));
    assert_eq!(conns.route(c), Some(ConnDirection::Outgoing));
    assert!(conns.remove(ConnDirection::Outgoing, c));
    assert_eq!(conns.route(c), None);
}
