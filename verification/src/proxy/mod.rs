//! What the proxy does with a request and with the answer to it.

pub mod completion;
pub mod exchange;
pub mod models;
pub mod request;
pub mod sse;
