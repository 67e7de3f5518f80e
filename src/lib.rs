//! Core of a peer-to-peer networking substrate.
//!
//! - `simple_local`: the local agent of a replicated key-value store, a
//!   state machine that turns set/get/del/subscribe requests into routed
//!   events for the remote storage, retransmits until acknowledged, resyncs
//!   acknowledged state, and times reads out; `kv_laws` states how its
//!   operations relate.
//! - `connection`, `handshake`, `tcp_msg`: the logic of a stream connection:
//!   its reliable and unreliable send queues, the send loop's decisions, the
//!   handling of received frames, and the opening exchange.
//! - `vnet`: the registry of the in-process network used in tests.
//! - `mock`: bookkeeping of the scripted test transport.
//! - `identity`, `transport`, `kv_msg`, `slot_table`: shared data types.
pub mod connection;
pub mod handshake;
pub mod identity;
pub mod kv_laws;
pub mod kv_msg;
pub mod mock;
pub mod simple_local;
pub mod slot_table;
pub mod tcp_msg;
pub mod transport;
pub mod vnet;
