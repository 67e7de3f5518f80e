//! The opening exchange of a stream connection: the initiator writes a
//! `ConnectRequest` naming itself, the node it expects, and its address;
//! the responder answers with its own id and address, or refuses.
use vstd::prelude::*;

use crate::identity::{NodeAddr, NodeId};
use crate::tcp_msg::TcpMsg;
use crate::transport::OutgoingConnectionError;

verus! {

/// The first frame written by the initiator.
pub fn connect_request<M>(local_id: NodeId, remote_id: NodeId, local_addr: NodeAddr) -> (r: TcpMsg<M>)
    ensures
        r == TcpMsg::<M>::ConnectRequest(local_id, remote_id, local_addr),
{
    TcpMsg::ConnectRequest(local_id, remote_id, local_addr)
}

/// The responder's side: accepts a request that names this node, giving the
/// peer's id and address and the answer to write; refuses anything else with
/// `AuthenticationError` and an answer that carries the refusal.
pub fn answer_connect_request<M>(local_id: NodeId, local_addr: &NodeAddr, frame: TcpMsg<M>) -> (r: (
    TcpMsg<M>,
    Result<(NodeId, NodeAddr), OutgoingConnectionError>,
))
    ensures
        frame matches TcpMsg::ConnectRequest(peer_id, expected, peer_addr) ==> (expected == local_id
            ==> r.1 == Ok::<(NodeId, NodeAddr), OutgoingConnectionError>((peer_id, peer_addr)) && (
        r.0 matches TcpMsg::ConnectResponse(Ok((id, addr))) && id == local_id && addr@
            == local_addr@)),
        !(frame matches TcpMsg::ConnectRequest(_, expected, _) && expected == local_id) ==> r.1
            == Err::<(NodeId, NodeAddr), OutgoingConnectionError>(
            OutgoingConnectionError::AuthenticationError,
        ) && r.0 is ConnectResponse && r.0->ConnectResponse_0 is Err,
{
    match frame {
        TcpMsg::ConnectRequest(peer_id, expected, peer_addr) => {
            if expected == local_id {
                let addr = local_addr.duplicate();
                (TcpMsg::ConnectResponse(Ok((local_id, addr))), Ok((peer_id, peer_addr)))
            } else {
                (
                    TcpMsg::ConnectResponse(Err(String::from_str("wrong node id"))),
                    Err(OutgoingConnectionError::AuthenticationError),
                )
            }
        },
        _ => (
            TcpMsg::ConnectResponse(Err(String::from_str("expected a connect request"))),
            Err(OutgoingConnectionError::AuthenticationError),
        ),
    }
}

/// The initiator's side: the peer's id and address when it answered as the
/// node expected; `BehaviorRejected` with its reason when it refused;
/// `AuthenticationError` when another node answered, or no answer came.
pub fn check_connect_response<M>(expected: NodeId, frame: Option<TcpMsg<M>>) -> (r: Result<
    (NodeId, NodeAddr),
    OutgoingConnectionError,
>)
    ensures
        frame matches Some(TcpMsg::ConnectResponse(Ok((id, addr)))) ==> (id == expected ==> r == Ok::<
            (NodeId, NodeAddr),
            OutgoingConnectionError,
        >((id, addr))),
        frame matches Some(TcpMsg::ConnectResponse(Err(reason))) ==> r == Err::<
            (NodeId, NodeAddr),
            OutgoingConnectionError,
        >(OutgoingConnectionError::BehaviorRejected(reason)),
        !(frame matches Some(TcpMsg::ConnectResponse(Ok((id, _)))) && id == expected) && !(frame matches Some(
            TcpMsg::ConnectResponse(Err(_)),
        )) ==> r == Err::<(NodeId, NodeAddr), OutgoingConnectionError>(
            OutgoingConnectionError::AuthenticationError,
        ),
{
    match frame {
        Some(TcpMsg::ConnectResponse(Ok((id, addr)))) => {
            if id == expected {
                Ok((id, addr))
            } else {
                Err(OutgoingConnectionError::AuthenticationError)
            }
        },
        Some(TcpMsg::ConnectResponse(Err(reason))) => Err(OutgoingConnectionError::BehaviorRejected(reason)),
        _ => Err(OutgoingConnectionError::AuthenticationError),
    }
}

} // verus!
