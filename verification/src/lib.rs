//! Client-side telemetry pipeline: points are recorded into an in-memory
//! buffer, batched once a configured threshold is reached, and handed out for
//! delivery to a remote collection endpoint. The buffering, batching and
//! flush-coordination logic is verified; the network transport is left to the
//! embedding application, which receives each drained batch as a value.

pub mod axcp;
pub mod client;
pub mod envelope;
pub mod error;
pub mod models;
pub mod telemetry;
