use vstd::prelude::*;

use crate::identity::{NodeAddr, NodeId};
use crate::transport::ConnectionMsg;

verus! {

/// Frames exchanged on a stream connection.
#[derive(Debug, PartialEq, Eq)]
pub enum TcpMsg<M> {
    /// Sender's id, the id it expects of the peer, and the sender's address.
    ConnectRequest(NodeId, NodeId, NodeAddr),
    /// The responder's id and address, or why it refused.
    ConnectResponse(Result<(NodeId, NodeAddr), String>),
    /// A liveness probe carrying the time it was sent.
    Ping(u64),
    /// The answer to a probe, echoing its time.
    Pong(u64),
    Msg(u8, ConnectionMsg<M>),
}

} // verus!
