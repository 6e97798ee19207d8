//! What the library's operations are for, stated of their inputs and results.

pub mod answer;
pub mod errors;
pub mod exchange;
pub mod models;
pub mod request;
pub mod settings;
pub mod stream;
pub mod values;
