//! The in-process network used for tests: a registry of virtual ports, each
//! bound to a node, that decides how a connection between two ports is set up.
//! Delivering the resulting events to the listeners is left to the caller.
use vstd::prelude::*;

use crate::identity::{ConnId, NodeAddr, NodeId};
use crate::slot_table::{find_key, has_key, put, slot_of, table_put, unique_keys};
use crate::transport::{ConnectionStats, OutgoingConnectionError};

verus! {

/// Protocol id that namespaces the connection ids of the virtual network.
pub const VNET_PROTOCOL_ID: u8 = 2;

/// The node and address bound to a port.
pub struct VnetPort {
    pub node: NodeId,
    pub addr: NodeAddr,
}

/// How a request for a connection from one port to another is answered.
#[derive(Debug, PartialEq, Eq)]
pub enum VnetOutgoing {
    /// Report this error to the originating port's listener, under `conn_id`.
    Rejected { conn_id: ConnId, err: OutgoingConnectionError },
    /// Ask both listeners to accept: the originator under `conn_out`, the
    /// destination under `conn_in`; each side sees the other's node and address.
    Connect {
        conn_out: ConnId,
        conn_in: ConnId,
        from_node: NodeId,
        from_addr: NodeAddr,
        to_node: NodeId,
        to_addr: NodeAddr,
    },
}

pub struct VnetEarth {
    conn_id_seed: u64,
    ports: Vec<(u64, VnetPort)>,
    connections: Vec<(ConnId, (NodeId, NodeId))>,
}

pub struct VnetEarthView {
    pub conn_id_seed: u64,
    pub ports: Seq<(u64, VnetPort)>,
    /// Connections set up so far: outgoing id, originating node, destination node.
    pub connections: Seq<(ConnId, (NodeId, NodeId))>,
}

impl View for VnetEarth {
    type V = VnetEarthView;

    closed spec fn view(&self) -> VnetEarthView {
        VnetEarthView { conn_id_seed: self.conn_id_seed, ports: self.ports@, connections: self.connections@ }
    }
}

/// Connection ids are drawn from a counter that wraps around.
pub open spec fn seed_plus(seed: u64, n: int) -> u64 {
    ((seed + n) % 0x1_0000_0000_0000_0000int) as u64
}

/// The synthetic link metrics that a new virtual connection reports first.
pub open spec fn initial_stats_spec() -> ConnectionStats {
    ConnectionStats { rtt_ms: 1, sending_kbps: 0, send_est_kbps: 100000, loss_percent: 0, over_use: false }
}

pub fn initial_stats() -> (r: ConnectionStats)
    ensures
        r == initial_stats_spec(),
{
    ConnectionStats { rtt_ms: 1, sending_kbps: 0, send_est_kbps: 100000, loss_percent: 0, over_use: false }
}

/// Why a connection whose two sides were asked to accept was refused: the
/// originator's answer first, then the destination's; `None` for an answer
/// that never came. `None` when both accepted.
pub fn acceptance_error(
    outgoing: Option<Result<(), String>>,
    incoming: Option<Result<(), String>>,
) -> (r: Option<OutgoingConnectionError>)
    ensures
        match (outgoing, incoming) {
            (Some(Ok(_)), Some(Ok(_))) => r is None,
            (Some(Err(e)), _) => r == Some(OutgoingConnectionError::BehaviorRejected(e)),
            (_, Some(Err(e))) => r == Some(OutgoingConnectionError::BehaviorRejected(e)),
            _ => r matches Some(OutgoingConnectionError::BehaviorRejected(reason)) && reason@
                == "ChannelError"@,
        },
{
    match (outgoing, incoming) {
        (Some(Ok(())), Some(Ok(()))) => None,
        (Some(Err(e)), _) => Some(OutgoingConnectionError::BehaviorRejected(e)),
        (_, Some(Err(e))) => Some(OutgoingConnectionError::BehaviorRejected(e)),
        _ => {
            let reason = String::from_str("ChannelError");
            proof {
                reveal_strlit("ChannelError");
            }
            Some(OutgoingConnectionError::BehaviorRejected(reason))
        },
    }
}

impl VnetEarthView {
    pub open spec fn wf(self) -> bool {
        unique_keys(self.ports)
    }
}

impl VnetEarth {
    pub open spec fn wf(&self) -> bool {
        self@.wf()
    }

    pub fn new() -> (r: VnetEarth)
        ensures
            r.wf(),
            r@.conn_id_seed == 0,
            r@.ports.len() == 0,
            r@.connections.len() == 0,
    {
        VnetEarth { conn_id_seed: 0, ports: Vec::new(), connections: Vec::new() }
    }

    /// Binds `port` to `node` and `addr`, replacing an earlier binding.
    pub fn create_listener(&mut self, port: u64, node: NodeId, addr: NodeAddr)
        requires
            old(self).wf(),
        ensures
            final(self).wf(),
            final(self)@ == (VnetEarthView {
                ports: put(old(self)@.ports, port, VnetPort { node, addr }),
                ..old(self)@
            }),
    {
        table_put(&mut self.ports, port, VnetPort { node, addr });
    }

    /// Decides how a connection from `from_port` to node `to_node` on
    /// `to_port` is set up. `None` when `from_port` is not bound. Otherwise
    /// two connection ids are taken, the outgoing one first, and the request
    /// is refused with `DestinationNotFound` when `to_port` is not bound, with
    /// `AuthenticationError` when it is bound to another node, and else goes
    /// ahead and is recorded.
    pub fn create_outgoing(&mut self, from_port: u64, to_node: NodeId, to_port: u64) -> (r: Option<VnetOutgoing>)
        requires
            old(self).wf(),
            from_port != to_port,
        ensures
            final(self).wf(),
            final(self)@.ports == old(self)@.ports,
            !has_key(old(self)@.ports, from_port) ==> r is None && final(self)@ == old(self)@,
            has_key(old(self)@.ports, from_port) ==> {
                let seed = old(self)@.conn_id_seed;
                let conn_out = ConnId::from_out_spec(VNET_PROTOCOL_ID, seed);
                let conn_in = ConnId::from_in_spec(VNET_PROTOCOL_ID, seed_plus(seed, 1));
                let from = slot_of(old(self)@.ports, from_port);
                &&& final(self)@.conn_id_seed == seed_plus(seed, 2)
                &&& !has_key(old(self)@.ports, to_port) ==> r == Some(
                    VnetOutgoing::Rejected { conn_id: conn_out, err: OutgoingConnectionError::DestinationNotFound },
                ) && final(self)@.connections == old(self)@.connections
                &&& has_key(old(self)@.ports, to_port) && slot_of(old(self)@.ports, to_port).node
                    != to_node ==> r == Some(
                    VnetOutgoing::Rejected { conn_id: conn_out, err: OutgoingConnectionError::AuthenticationError },
                ) && final(self)@.connections == old(self)@.connections
                &&& has_key(old(self)@.ports, to_port) && slot_of(old(self)@.ports, to_port).node
                    == to_node ==> {
                    let to = slot_of(old(self)@.ports, to_port);
                    &&& r matches Some(VnetOutgoing::Connect { conn_out: o, conn_in: i, from_node, from_addr, to_node: tn, to_addr })
                    &&& o == conn_out && i == conn_in
                    &&& from_node == from.node && from_addr@ == from.addr@
                    &&& tn == to.node && to_addr@ == to.addr@
                    &&& final(self)@.connections == old(self)@.connections.push((conn_out, (from.node, to.node)))
                }
            },
    {
        let from_idx = match find_key(&self.ports, from_port) {
            Some(i) => i,
            None => {
                return None;
            },
        };
        let conn_out = ConnId::from_out(VNET_PROTOCOL_ID, self.conn_id_seed);
        self.conn_id_seed = self.conn_id_seed.wrapping_add(1);
        let conn_in = ConnId::from_in(VNET_PROTOCOL_ID, self.conn_id_seed);
        self.conn_id_seed = self.conn_id_seed.wrapping_add(1);
        proof {
            let seed = old(self)@.conn_id_seed;
            assert(self.conn_id_seed == seed_plus(seed, 2)) by {
                let m = 0x1_0000_0000_0000_0000int;
                vstd::arithmetic::div_mod::lemma_add_mod_noop(seed + 1, 1, m);
                vstd::arithmetic::div_mod::lemma_small_mod(1nat, m as nat);
                vstd::arithmetic::div_mod::lemma_mod_twice(seed + 2, m);
            }
        }
        match find_key(&self.ports, to_port) {
            None => Some(VnetOutgoing::Rejected { conn_id: conn_out, err: OutgoingConnectionError::DestinationNotFound }),
            Some(to_idx) => {
                if self.ports[to_idx].1.node == to_node {
                    let from_node = self.ports[from_idx].1.node;
                    let from_addr = self.ports[from_idx].1.addr.duplicate();
                    let to_addr = self.ports[to_idx].1.addr.duplicate();
                    self.connections.push((conn_out, (from_node, to_node)));
                    Some(VnetOutgoing::Connect { conn_out, conn_in, from_node, from_addr, to_node, to_addr })
                } else {
                    Some(VnetOutgoing::Rejected { conn_id: conn_out, err: OutgoingConnectionError::AuthenticationError })
                }
            },
        }
    }

    /// Forgets a connection that ended; returns its two nodes if it was recorded.
    pub fn remove_connection(&mut self, conn_id: ConnId) -> (r: Option<(NodeId, NodeId)>)
        ensures
            final(self)@.ports == old(self)@.ports,
            final(self)@.conn_id_seed == old(self)@.conn_id_seed,
            r is None <==> (forall|i: int| 0 <= i < old(self)@.connections.len() ==> #[trigger] old(self)@.connections[i].0 != conn_id),
            r matches Some(nodes) ==> exists|i: int| 0 <= i < old(self)@.connections.len()
                && #[trigger] old(self)@.connections[i] == (conn_id, nodes)
                && final(self)@.connections == old(self)@.connections.remove(i),
            r is None ==> final(self)@.connections == old(self)@.connections,
    {
        let n = self.connections.len();
        let mut i: usize = 0;
        while i < n
            invariant
                n == self.connections@.len(),
                self@ == old(self)@,
                i <= n,
                forall|j: int| 0 <= j < i ==> #[trigger] self.connections@[j].0 != conn_id,
            decreases n - i,
        {
            if self.connections[i].0 == conn_id {
                let e = self.connections.remove(i);
                return Some(e.1);
            }
            i = i + 1;
        }
        None
    }
}

} // verus!
