use vstd::prelude::*;

use crate::identity::ConnId;

verus! {

/// A message on one connection, on its reliable or its unreliable stream.
#[derive(Clone, Debug, PartialEq, Eq)]
pub enum ConnectionMsg<M> {
    Reliable { stream_id: u16, data: M },
    Unreliable { stream_id: u16, data: M },
}

impl<M> ConnectionMsg<M> {
    pub fn is_reliable(&self) -> (r: bool)
        ensures
            r == (self is Reliable),
    {
        match self {
            ConnectionMsg::Reliable { .. } => true,
            ConnectionMsg::Unreliable { .. } => false,
        }
    }
}

/// Link metrics of a connection.
#[derive(Clone, Copy, Debug, PartialEq, Eq, Structural)]
pub struct ConnectionStats {
    pub rtt_ms: u16,
    pub sending_kbps: u32,
    pub send_est_kbps: u32,
    pub loss_percent: u32,
    pub over_use: bool,
}

/// What the receiving side of a connection yields.
#[derive(Clone, Debug, PartialEq, Eq)]
pub enum ConnectionEvent<M> {
    Msg { service_id: u8, msg: ConnectionMsg<M> },
    Stats(ConnectionStats),
}

/// Why an outgoing connection could not be made.
#[derive(Clone, Debug, PartialEq, Eq)]
pub enum OutgoingConnectionError {
    TooManyConnection,
    AuthenticationError,
    DestinationNotFound,
    BehaviorRejected(String),
}

/// An outgoing connection whose outcome is still to come on the event stream.
#[derive(Clone, Copy, Debug, PartialEq, Eq, Structural)]
pub struct TransportPendingOutgoing {
    pub conn_id: ConnId,
}

} // verus!
