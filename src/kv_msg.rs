use vstd::prelude::*;

use crate::identity::NodeId;

verus! {

pub type KeyId = u64;

pub type KeyVersion = u64;

/// The node that originated an update of a key.
pub type KeySource = NodeId;

pub type ReqId = u64;

pub type ValueType = Vec<u8>;

/// How a message should be routed to its destination.
#[derive(Clone, Copy, Debug, PartialEq, Eq, Structural, Hash)]
pub enum RouteRule {
    /// Unicast to one node.
    ToNode(NodeId),
    /// To the node responsible for a key.
    ToKey(u32),
}

/// Events sent from the local agent to the remote storage.
#[derive(Clone, Debug, PartialEq, Eq)]
pub enum SimpleRemoteEvent {
    SetKey(ReqId, KeyId, ValueType, KeyVersion, Option<u64>),
    Get(ReqId, KeyId),
    Del(ReqId, KeyId, KeyVersion),
    Sub(ReqId, KeyId, Option<u64>),
    Unsub(ReqId, KeyId),
    OnKeySetAck(ReqId),
    OnKeyDelAck(ReqId),
}

/// Events sent from the remote storage to the local agent.
#[derive(Clone, Debug, PartialEq, Eq)]
pub enum SimpleLocalEvent {
    SetAck(ReqId, KeyId, KeyVersion, bool),
    GetAck(ReqId, KeyId, Option<(ValueType, KeyVersion, KeySource)>),
    DelAck(ReqId, KeyId, Option<KeyVersion>),
    SubAck(ReqId, KeyId),
    UnsubAck(ReqId, KeyId, bool),
    OnKeySet(ReqId, KeyId, ValueType, KeyVersion, KeySource),
    OnKeyDel(ReqId, KeyId, KeyVersion, KeySource),
}

/// Mathematical form of a `SimpleRemoteEvent`, with the value as a sequence of bytes.
pub enum RemoteEventView {
    SetKey(ReqId, KeyId, Seq<u8>, KeyVersion, Option<u64>),
    Get(ReqId, KeyId),
    Del(ReqId, KeyId, KeyVersion),
    Sub(ReqId, KeyId, Option<u64>),
    Unsub(ReqId, KeyId),
    OnKeySetAck(ReqId),
    OnKeyDelAck(ReqId),
}

impl View for SimpleRemoteEvent {
    type V = RemoteEventView;

    open spec fn view(&self) -> RemoteEventView {
        match self {
            SimpleRemoteEvent::SetKey(r, k, v, ver, ex) => RemoteEventView::SetKey(*r, *k, v@, *ver, *ex),
            SimpleRemoteEvent::Get(r, k) => RemoteEventView::Get(*r, *k),
            SimpleRemoteEvent::Del(r, k, ver) => RemoteEventView::Del(*r, *k, *ver),
            SimpleRemoteEvent::Sub(r, k, ex) => RemoteEventView::Sub(*r, *k, *ex),
            SimpleRemoteEvent::Unsub(r, k) => RemoteEventView::Unsub(*r, *k),
            SimpleRemoteEvent::OnKeySetAck(r) => RemoteEventView::OnKeySetAck(*r),
            SimpleRemoteEvent::OnKeyDelAck(r) => RemoteEventView::OnKeyDelAck(*r),
        }
    }
}

/// An event for the remote storage, with the rule that routes it there.
#[derive(Clone, Debug, PartialEq, Eq)]
pub struct LocalStorageAction(pub SimpleRemoteEvent, pub RouteRule);

impl View for LocalStorageAction {
    type V = (RemoteEventView, RouteRule);

    open spec fn view(&self) -> (RemoteEventView, RouteRule) {
        (self.0@, self.1)
    }
}

/// The rule that routes an event about a key.
pub open spec fn key_route(key: KeyId) -> RouteRule {
    RouteRule::ToKey(key as u32)
}

pub fn route_to_key(key: KeyId) -> (r: RouteRule)
    ensures
        r == key_route(key),
{
    RouteRule::ToKey(key as u32)
}

} // verus!
