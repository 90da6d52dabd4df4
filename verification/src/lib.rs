//! Remote peer runtime for a distributed actor system.
//!
//! The crate turns a bidirectional byte stream into a multiplexed, typed
//! message channel between two processes: it frames bytes into
//! length-prefixed wire messages, routes incoming frames to local handlers
//! or relay peers, correlates outgoing calls with their responses, applies
//! backpressure to inbound calls, and surfaces connection-lifecycle events.
//!
//! All I/O, task scheduling and payload (de)serialization live outside the
//! crate: the peer is a state machine that consumes frames and control
//! messages and emits the actions the surrounding runtime must perform.

pub mod byteops;
pub mod close_connection;
pub mod codecs;
pub mod decoder;
pub mod decoder_noheap;
pub mod error;
pub mod ids;
pub mod local_service_map;
pub mod peer;
pub mod relay_map;
pub mod remote_addr;
pub mod response;
pub mod service_map;
pub mod thes_wf;

pub use close_connection::CloseConnection;
pub use codecs::Codecs;
pub use ids::{ConnID, ServiceID};
pub use local_service_map::LocalServiceMap;
pub use peer::Peer;
pub use relay_map::RelayMap;
pub use remote_addr::RemoteAddr;
pub use thes_wf::ThesWF;
