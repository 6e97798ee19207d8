//! What can go wrong.

pub mod config;
pub mod proxy;

use vstd::prelude::*;

verus! {

/// Why the server could not be started or had to stop. The causes are kept as
/// the texts that describe them.
#[derive(Debug)]
pub enum Error {
    /// The HTTP client could not be built.
    Client(String),
    /// The listener could not be bound to its address.
    Binding { addr: String, e: String },
    /// The server failed while serving.
    Server(String),
}

impl Error {
    /// The text that describes the error.
    pub open spec fn description(&self) -> Seq<char> {
        match self {
            Error::Client(cause) => "Failed to build HTTP client\nReqwest Error: "@ + cause@,
            Error::Binding { addr, e } => "Failed to bind "@ + addr@ + ": "@ + e@,
            Error::Server(cause) => "Server error: "@ + cause@,
        }
    }

    /// Describes the error.
    pub fn message(&self) -> (text: String)
        ensures
            text@ == self.description(),
    {
        match self {
            Error::Client(cause) => "Failed to build HTTP client\nReqwest Error: ".to_owned().concat(cause.as_str()),
            Error::Binding { addr, e } => "Failed to bind ".to_owned().concat(addr.as_str()).concat(": ").concat(
                e.as_str(),
            ),
            Error::Server(cause) => "Server error: ".to_owned().concat(cause.as_str()),
        }
    }
}

} // verus!
