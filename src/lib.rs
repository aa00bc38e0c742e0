//! A distributed append-only event store: events grouped into streams, with
//! per-stream sequence numbers under optimistic concurrency control, stream
//! ownership by stable hashing, and latest-wins snapshots.

pub mod auth;
pub mod bytes;
pub mod cluster;
pub mod codec;
pub mod config;
pub mod event;
pub mod hybrid;
pub mod kv;
pub mod operational;
pub mod pipeline;
pub mod schemas;
pub mod scylla;
pub mod snapshot;
pub mod store;
pub mod validation;
