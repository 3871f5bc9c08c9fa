//! An in-memory coordination point for an ad-hoc network of peer nodes: an
//! append-only log of signed events and a registry of node liveness, composed
//! behind one facade.
//!
//! Every store is a plain value that is changed through `&mut self`, so each
//! operation runs with exclusive access to the store from start to end. A
//! program that shares a store between threads puts it behind a lock of its
//! own and calls these operations while it holds the lock.

pub mod event;
pub mod event_log;
pub mod node;
pub mod registry;
pub mod server;
pub mod time;

pub use event_log::EventLog;
pub use event::{AcceptAll, Event, EventError, VerifierCapability};
pub use node::{Node, NodeStatus};
pub use registry::NodeRegistry;
pub use server::MasterServer;
pub use time::Timestamp;
