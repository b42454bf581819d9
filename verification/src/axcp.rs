//! The next-generation protocol client. The connection logic is not realized
//! yet: this is the structure only.

use vstd::prelude::*;

verus! {

/// Core protocol client.
#[derive(Debug)]
pub struct AxcpClient {}

impl AxcpClient {
    /// Creates a new client.
    pub fn new() -> Self {
        AxcpClient {  }
    }

    /// Connects to a server. Connection logic is not realized yet: every
    /// endpoint is accepted and nothing is contacted.
    pub fn connect(&mut self, _endpoint: &str) -> (r: Result<(), AxcpError>)
        ensures
            r is Ok,
    {
        Ok(())
    }
}

/// Error type for protocol operations.
#[derive(Debug, Clone, PartialEq)]
pub enum AxcpError {
    /// Connection error, carrying its description.
    Connection(String),
    /// Protocol error.
    Protocol(String),
    /// Invalid configuration.
    Config(String),
}

} // verus!
