//! Data models for the telemetry pipeline.

use vstd::prelude::*;

verus! {

/// One telemetry observation: an immutable value once constructed; no
/// component mutates its fields after creation.
///
/// The measurement is carried as the IEEE-754 bit pattern of the 64-bit
/// value (`f64::to_bits`): the buffering layer never interprets it, and the
/// delivery layer turns the bits back into a number at the wire boundary.
#[derive(Debug, Clone, PartialEq)]
pub struct TelemetryData {
    /// The metric name.
    pub metric: String,
    /// The measurement, as the bit pattern of a 64-bit IEEE-754 value.
    pub value_bits: u64,
    /// Tags for the metric; keys are unique, insertion order is not
    /// significant.
    pub tags: Vec<(String, String)>,
    /// Timestamp in milliseconds since the Unix epoch, if one was assigned.
    pub timestamp: Option<i64>,
}

/// The key of the tag at position `i`.
pub open spec fn tag_key(tags: Seq<(String, String)>, i: int) -> Seq<char> {
    tags[i].0@
}

/// Tag keys are pairwise distinct.
pub open spec fn tags_wf(tags: Seq<(String, String)>) -> bool {
    forall|i: int, j: int|
        0 <= i < j < tags.len() ==> #[trigger] tag_key(tags, i) != #[trigger] tag_key(tags, j)
}

/// A batch of telemetry points: the ordered contents of the buffer at the
/// moment of one drain, owned by a single delivery attempt.
#[derive(Debug, Clone, PartialEq)]
pub struct TelemetryBatch {
    /// The telemetry data points in this batch.
    pub points: Vec<TelemetryData>,
}

/// Configuration for the client.
#[derive(Debug, Clone)]
pub struct ClientConfig {
    /// The base URL of the collection endpoint.
    pub base_url: String,
    /// The API key for authentication.
    pub api_key: Option<String>,
    /// The timeout for requests in seconds.
    pub timeout_secs: u64,
    /// Whether to enable telemetry collection.
    pub enable_telemetry: bool,
}

/// The default request timeout, in seconds.
pub fn default_timeout() -> (r: u64)
    ensures
        r == 30,
{
    30
}

/// Telemetry collection is enabled unless configured otherwise.
pub fn default_true() -> (r: bool)
    ensures
        r,
{
    true
}

impl Default for ClientConfig {
    /// A local endpoint, no credential, the default timeout, telemetry on.
    fn default() -> (r: Self)
        ensures
            r.base_url@ == "http://localhost:8080"@,
            r.api_key is None,
            r.timeout_secs == 30,
            r.enable_telemetry,
    {
        ClientConfig {
            base_url: "http://localhost:8080".to_owned(),
            api_key: None,
            timeout_secs: default_timeout(),
            enable_telemetry: default_true(),
        }
    }
}

} // verus!
