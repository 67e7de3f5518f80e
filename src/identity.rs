use vstd::prelude::*;

verus! {

/// Globally unique identifier of a peer.
pub type NodeId = u32;

/// Which side opened a connection.
#[derive(Clone, Copy, Debug, PartialEq, Eq, Structural, Hash)]
pub enum ConnDirection {
    Incoming,
    Outgoing,
}

/// Process-wide connection identifier, namespaced by the transport's
/// protocol id and by the direction of the connection.
#[derive(Clone, Copy, Debug, PartialEq, Eq, Structural, Hash)]
pub struct ConnId {
    pub protocol: u8,
    pub direction: ConnDirection,
    pub session: u64,
}

impl ConnId {
    pub open spec fn from_out_spec(protocol: u8, session: u64) -> ConnId {
        ConnId { protocol, direction: ConnDirection::Outgoing, session }
    }

    pub open spec fn from_in_spec(protocol: u8, session: u64) -> ConnId {
        ConnId { protocol, direction: ConnDirection::Incoming, session }
    }

    pub fn from_out(protocol: u8, session: u64) -> (r: ConnId)
        ensures
            r == Self::from_out_spec(protocol, session),
    {
        ConnId { protocol, direction: ConnDirection::Outgoing, session }
    }

    pub fn from_in(protocol: u8, session: u64) -> (r: ConnId)
        ensures
            r == Self::from_in_spec(protocol, session),
    {
        ConnId { protocol, direction: ConnDirection::Incoming, session }
    }
}

/// One layer of a node address.
#[derive(Clone, Copy, Debug, PartialEq, Eq, Structural, Hash)]
pub enum Protocol {
    Ip4(u32),
    Tcp(u16),
    P2p(NodeId),
    Memory(u64),
}

/// A routable multi-hop address: an ordered stack of protocol tags.
#[derive(Clone, Debug, PartialEq, Eq, Hash)]
pub struct NodeAddr(pub Vec<Protocol>);

impl View for NodeAddr {
    type V = Seq<Protocol>;

    open spec fn view(&self) -> Seq<Protocol> {
        self.0@
    }
}

impl NodeAddr {
    pub fn empty() -> (r: NodeAddr)
        ensures
            r@ == Seq::<Protocol>::empty(),
    {
        NodeAddr(Vec::new())
    }

    pub fn from_protocols(protocols: Vec<Protocol>) -> (r: NodeAddr)
        ensures
            r@ == protocols@,
    {
        NodeAddr(protocols)
    }

    /// Appends one more layer to the address.
    pub fn push(&mut self, p: Protocol)
        ensures
            final(self)@ == old(self)@.push(p),
    {
        self.0.push(p);
    }

    /// A copy of the address with the same layers.
    pub fn duplicate(&self) -> (r: NodeAddr)
        ensures
            r@ == self@,
    {
        let mut out: Vec<Protocol> = Vec::new();
        let n = self.0.len();
        let mut i: usize = 0;
        while i < n
            invariant
                n == self.0@.len(),
                i <= n,
                out@ == self.0@.take(i as int),
            decreases n - i,
        {
            out.push(self.0[i]);
            proof {
                assert(self.0@.take(i as int + 1) =~= self.0@.take(i as int).push(self.0@[i as int]));
            }
            i = i + 1;
        }
        proof {
            assert(self.0@.take(n as int) =~= self.0@);
        }
        NodeAddr(out)
    }
}

} // verus!
