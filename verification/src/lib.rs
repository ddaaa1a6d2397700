//! A BGP Monitoring Protocol (BMP) collector core.
//!
//! The crate holds the parts of the collector that decide something: the
//! framing rules of a BMP stream, the decoding of route-monitoring messages
//! into canonical [`update::Update`] records, the per-(router, peer) view of
//! the routing information base that deduplicates those records and produces
//! synthetic withdraws, the batching rules of the publisher, and the snapshot
//! of the view. Every function carries a contract proved by Verus; sockets,
//! timers, files and the message bus live with the caller.

pub mod addr;
pub mod clock;
pub mod framing;
pub mod message;
pub mod peer_lifecycle;
pub mod processor;
pub mod producer;
pub mod settings;
pub mod snapshot;
pub mod state;
pub mod state_store;
pub mod statistics;
pub mod text;
pub mod update;
