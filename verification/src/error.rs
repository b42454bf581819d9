//! Error surface of the telemetry pipeline.

use vstd::prelude::*;
use vstd::string::StringExecFns;

verus! {

/// The error type of the pipeline. Buffer-local work (append, threshold
/// check, drain) is infallible; these errors come from configuration and from
/// delivery, and are surfaced to whichever caller triggered the flush.
#[derive(Debug, Clone, PartialEq)]
pub enum Error {
    /// A configuration error (malformed endpoint or credentials).
    Config(String),
    /// An I/O error, carrying its description.
    Io(String),
    /// A network error (connection failure or transport fault).
    Network(String),
    /// A serialization or deserialization error.
    Serialization(String),
    /// A protocol error.
    Protocol(String),
    /// An authentication failure.
    Auth(String),
    /// The delivery attempt timed out.
    Timeout,
    /// The server rejected the batch with a non-success status.
    Server {
        /// The HTTP status code the server answered with.
        status: u16,
        /// The response body text, empty when none could be read.
        body: String,
    },
    /// Any other kind of error.
    Other(String),
}

impl Error {
    /// Classifies a failed transport call from the facts the transport
    /// reports about it: whether it timed out, whether the connection failed,
    /// whether decoding the response failed, and its own description.
    /// Timeouts take precedence, then connection failures, then decode
    /// failures; anything else is a plain network error.
    pub fn classify_transport(
        timed_out: bool,
        connect_failed: bool,
        decode_failed: bool,
        detail: String,
    ) -> (r: Error)
        ensures
            timed_out ==> r is Timeout,
            !timed_out && connect_failed ==> (r matches Error::Network(m)
                && m@ == "Connection error: "@ + detail@),
            !timed_out && !connect_failed && decode_failed ==> (r matches Error::Serialization(m)
                && m@ == "Failed to decode response: "@ + detail@),
            !timed_out && !connect_failed && !decode_failed ==> (r matches Error::Network(m)
                && m@ == detail@),
    {
        if timed_out {
            Error::Timeout
        } else if connect_failed {
            Error::Network("Connection error: ".to_owned().concat(detail.as_str()))
        } else if decode_failed {
            Error::Serialization("Failed to decode response: ".to_owned().concat(detail.as_str()))
        } else {
            Error::Network(detail)
        }
    }
}

} // verus!
