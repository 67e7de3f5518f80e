//! The logic of one stream connection, apart from its socket and its tasks.
//!
//! The sending side keeps two queues: an unbounded reliable one (data that
//! must not be lost, and control frames) and a bounded unreliable one, which
//! drops data when full. The send loop takes events from them and turns each
//! into a frame to write or a decision to stop. The receiving side turns each
//! frame read into an event for the application, answering probes itself.
use std::collections::VecDeque;
use vstd::prelude::*;

use crate::tcp_msg::TcpMsg;
use crate::transport::{ConnectionEvent, ConnectionMsg, ConnectionStats};

verus! {

/// How often the send loop probes the peer.
pub const PING_INTERVAL_MS: u64 = 5000;

/// What the send loop of a connection takes from its queues.
#[derive(Debug, PartialEq, Eq)]
pub enum OutgoingEvent<M> {
    Msg(TcpMsg<M>),
    /// The local side asked to close.
    CloseRequest,
    /// The receiving side saw the stream end.
    ClosedNotify,
}

/// The two send queues of a connection.
pub struct ConnectionOutbox<M> {
    reliable: VecDeque<OutgoingEvent<M>>,
    unreliable: VecDeque<OutgoingEvent<M>>,
    unreliable_capacity: usize,
}

impl<M> ConnectionOutbox<M> {
    /// Events waiting on the reliable queue, oldest first.
    pub closed spec fn reliable(&self) -> Seq<OutgoingEvent<M>> {
        self.reliable@
    }

    /// Events waiting on the unreliable queue, oldest first.
    pub closed spec fn unreliable(&self) -> Seq<OutgoingEvent<M>> {
        self.unreliable@
    }

    /// How many data messages the unreliable queue holds at most.
    pub closed spec fn capacity(&self) -> nat {
        self.unreliable_capacity as nat
    }

    pub fn new(unreliable_capacity: usize) -> (r: Self)
        ensures
            r.reliable() == Seq::<OutgoingEvent<M>>::empty(),
            r.unreliable() == Seq::<OutgoingEvent<M>>::empty(),
            r.capacity() == unreliable_capacity,
    {
        ConnectionOutbox { reliable: VecDeque::new(), unreliable: VecDeque::new(), unreliable_capacity }
    }

    /// Queues a message for the peer. Reliable messages are always queued;
    /// an unreliable one is dropped, and `false` returned, when its queue is full.
    pub fn send(&mut self, service_id: u8, msg: ConnectionMsg<M>) -> (queued: bool)
        ensures
            final(self).capacity() == old(self).capacity(),
            msg is Reliable ==> queued && final(self).reliable() == old(self).reliable().push(
                OutgoingEvent::Msg(TcpMsg::Msg(service_id, msg)),
            ) && final(self).unreliable() == old(self).unreliable(),
            msg is Unreliable ==> queued == (old(self).unreliable().len() < old(self).capacity())
                && final(self).reliable() == old(self).reliable() && final(self).unreliable() == if queued {
                old(self).unreliable().push(OutgoingEvent::Msg(TcpMsg::Msg(service_id, msg)))
            } else {
                old(self).unreliable()
            },
    {
        proof {
            broadcast use vstd::std_specs::vecdeque::group_vec_dequeue_axioms;
        }
        if msg.is_reliable() {
            self.reliable.push_back(OutgoingEvent::Msg(TcpMsg::Msg(service_id, msg)));
            true
        } else if self.unreliable.len() < self.unreliable_capacity {
            self.unreliable.push_back(OutgoingEvent::Msg(TcpMsg::Msg(service_id, msg)));
            true
        } else {
            false
        }
    }

    /// Asks the send loop to close, behind the unreliable data already queued.
    /// The request is never dropped.
    pub fn close(&mut self)
        ensures
            final(self).capacity() == old(self).capacity(),
            final(self).reliable() == old(self).reliable(),
            final(self).unreliable() == old(self).unreliable().push(OutgoingEvent::CloseRequest),
    {
        self.unreliable.push_back(OutgoingEvent::CloseRequest);
    }

    /// Queues a control event on the reliable queue.
    pub fn push_reliable(&mut self, event: OutgoingEvent<M>)
        ensures
            final(self).capacity() == old(self).capacity(),
            final(self).reliable() == old(self).reliable().push(event),
            final(self).unreliable() == old(self).unreliable(),
    {
        self.reliable.push_back(event);
    }

    /// The next event for the send loop: the reliable queue goes first.
    pub fn next_event(&mut self) -> (r: Option<OutgoingEvent<M>>)
        ensures
            final(self).capacity() == old(self).capacity(),
            old(self).reliable().len() > 0 ==> r == Some(old(self).reliable()[0])
                && final(self).reliable() == old(self).reliable().drop_first()
                && final(self).unreliable() == old(self).unreliable(),
            old(self).reliable().len() == 0 && old(self).unreliable().len() > 0 ==> r == Some(
                old(self).unreliable()[0],
            ) && final(self).unreliable() == old(self).unreliable().drop_first()
                && final(self).reliable() == old(self).reliable(),
            old(self).reliable().len() == 0 && old(self).unreliable().len() == 0 ==> r is None
                && final(self).reliable() == old(self).reliable() && final(self).unreliable() == old(
                self,
            ).unreliable(),
    {
        match self.reliable.pop_front() {
            Some(e) => {
                proof {
                    assert(self.reliable@ =~= old(self).reliable@.drop_first());
                }
                Some(e)
            },
            None => {
                let r = self.unreliable.pop_front();
                proof {
                    if old(self).unreliable@.len() > 0 {
                        assert(self.unreliable@ =~= old(self).unreliable@.drop_first());
                    }
                }
                r
            },
        }
    }
}

/// What the send loop does with one event.
#[derive(Debug, PartialEq, Eq)]
pub enum SenderAction<M> {
    /// Write this frame to the stream.
    Write(TcpMsg<M>),
    /// Shut both directions of the stream down, then stop.
    Shutdown,
    /// Stop without touching the stream.
    Stop,
}

/// The decision of the send loop for one event; `None` means that the queues
/// are gone.
pub fn sender_step<M>(event: Option<OutgoingEvent<M>>) -> (r: SenderAction<M>)
    ensures
        event matches Some(OutgoingEvent::Msg(m)) ==> r == SenderAction::Write(m),
        event matches Some(OutgoingEvent::CloseRequest) ==> r == SenderAction::<M>::Shutdown,
        event matches Some(OutgoingEvent::ClosedNotify) ==> r == SenderAction::<M>::Stop,
        event is None ==> r == SenderAction::<M>::Stop,
{
    match event {
        Some(OutgoingEvent::Msg(m)) => SenderAction::Write(m),
        Some(OutgoingEvent::CloseRequest) => SenderAction::Shutdown,
        Some(OutgoingEvent::ClosedNotify) => SenderAction::Stop,
        None => SenderAction::Stop,
    }
}

/// The probe written when the connection is established and on every interval.
pub fn ping_frame<M>(now_ms: u64) -> (r: TcpMsg<M>)
    ensures
        r == TcpMsg::<M>::Ping(now_ms),
{
    TcpMsg::Ping(now_ms)
}

/// The round-trip time of a probe sent at `sent_ms`, seen back at `now_ms`,
/// clamped to what a `u16` holds.
pub open spec fn rtt_of(now_ms: u64, sent_ms: u64) -> u16 {
    if now_ms <= sent_ms {
        0
    } else if now_ms - sent_ms > u16::MAX {
        u16::MAX
    } else {
        (now_ms - sent_ms) as u16
    }
}

/// What one read from the stream gives the caller of `poll`.
#[derive(Debug, PartialEq, Eq)]
pub enum PollStep<M> {
    /// An event for the application.
    Event(ConnectionEvent<M>),
    /// Nothing for the application; read on.
    Continue,
    /// The stream is closed.
    Closed,
}

/// Handles one frame read from the stream (`None` when the stream ended or
/// could not be decoded). A probe is answered by one `Pong` with its time on
/// the reliable queue; the end of the stream is reported to the send loop.
pub fn handle_frame<M>(outbox: &mut ConnectionOutbox<M>, frame: Option<TcpMsg<M>>, now_ms: u64) -> (r: PollStep<M>)
    ensures
        final(outbox).capacity() == old(outbox).capacity(),
        final(outbox).unreliable() == old(outbox).unreliable(),
        frame matches Some(TcpMsg::Ping(t)) ==> r == PollStep::<M>::Continue && final(outbox).reliable()
            == old(outbox).reliable().push(OutgoingEvent::Msg(TcpMsg::Pong(t))),
        frame matches Some(TcpMsg::Pong(t)) ==> r == PollStep::<M>::Event(
            ConnectionEvent::Stats(
                ConnectionStats {
                    rtt_ms: rtt_of(now_ms, t),
                    sending_kbps: 0,
                    send_est_kbps: 0,
                    loss_percent: 0,
                    over_use: false,
                },
            ),
        ) && final(outbox).reliable() == old(outbox).reliable(),
        frame matches Some(TcpMsg::Msg(service_id, msg)) ==> r == PollStep::Event(
            ConnectionEvent::Msg { service_id, msg },
        ) && final(outbox).reliable() == old(outbox).reliable(),
        frame matches Some(TcpMsg::ConnectRequest(_, _, _)) ==> r == PollStep::<M>::Continue
            && final(outbox).reliable() == old(outbox).reliable(),
        frame matches Some(TcpMsg::ConnectResponse(_)) ==> r == PollStep::<M>::Continue
            && final(outbox).reliable() == old(outbox).reliable(),
        frame is None ==> r == PollStep::<M>::Closed && final(outbox).reliable() == old(
            outbox,
        ).reliable().push(OutgoingEvent::ClosedNotify),
{
    match frame {
        Some(TcpMsg::Msg(service_id, msg)) => PollStep::Event(ConnectionEvent::Msg { service_id, msg }),
        Some(TcpMsg::Ping(sent_ms)) => {
            outbox.push_reliable(OutgoingEvent::Msg(TcpMsg::Pong(sent_ms)));
            PollStep::Continue
        },
        Some(TcpMsg::Pong(sent_ms)) => {
            let elapsed = now_ms.saturating_sub(sent_ms);
            let rtt_ms: u16 = if elapsed > 0xffff {
                0xffff
            } else {
                elapsed as u16
            };
            PollStep::Event(
                ConnectionEvent::Stats(
                    ConnectionStats {
                        rtt_ms,
                        sending_kbps: 0,
                        send_est_kbps: 0,
                        loss_percent: 0,
                        over_use: false,
                    },
                ),
            )
        },
        Some(_) => PollStep::Continue,
        None => {
            outbox.push_reliable(OutgoingEvent::ClosedNotify);
            PollStep::Closed
        },
    }
}

/// One step on a reliable queue: a message sent, or the receiver taking the next one.
pub enum StreamOp<M> {
    Send(M),
    Recv,
}

/// The queue left and the messages received after running `ops` on an empty
/// reliable queue, as `send` (appends) and `next_event` (takes the oldest) do.
pub open spec fn run_stream<M>(ops: Seq<StreamOp<M>>) -> (Seq<M>, Seq<M>)
    decreases ops.len(),
{
    if ops.len() == 0 {
        (Seq::empty(), Seq::empty())
    } else {
        let (queue, got) = run_stream(ops.drop_last());
        match ops.last() {
            StreamOp::Send(m) => (queue.push(m), got),
            StreamOp::Recv => if queue.len() > 0 {
                (queue.drop_first(), got.push(queue[0]))
            } else {
                (queue, got)
            },
        }
    }
}

/// The messages sent by `ops`, in order.
pub open spec fn sent_of<M>(ops: Seq<StreamOp<M>>) -> Seq<M>
    decreases ops.len(),
{
    if ops.len() == 0 {
        Seq::empty()
    } else {
        match ops.last() {
            StreamOp::Send(m) => sent_of(ops.drop_last()).push(m),
            StreamOp::Recv => sent_of(ops.drop_last()),
        }
    }
}

/// A reliable queue delivers in send order: whatever the interleaving of
/// sends and receives, what was received followed by what is still queued
/// is exactly what was sent.
pub proof fn lemma_reliable_order<M>(ops: Seq<StreamOp<M>>)
    ensures
        run_stream(ops).1 + run_stream(ops).0 == sent_of(ops),
    decreases ops.len(),
{
    if ops.len() > 0 {
        lemma_reliable_order(ops.drop_last());
        let (queue, got) = run_stream(ops.drop_last());
        match ops.last() {
            StreamOp::Send(m) => {
                assert(got + queue.push(m) =~= (got + queue).push(m));
            },
            StreamOp::Recv => {
                if queue.len() > 0 {
                    assert(got.push(queue[0]) + queue.drop_first() =~= got + queue);
                }
            },
        }
    }
}

} // verus!
