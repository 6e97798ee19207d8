//! Errors of the configuration file.

use vstd::prelude::*;

verus! {

/// Error when loading or parsing configuration. The causes are kept as the
/// texts that describe them.
#[derive(Debug)]
pub enum ConfigError {
    /// The file could not be read.
    Io(String),
    /// The file does not hold a configuration.
    Parse(String),
}

impl ConfigError {
    /// The text that describes the error.
    pub open spec fn description(&self) -> Seq<char> {
        match self {
            ConfigError::Io(cause) => "Failed to read config file: "@ + cause@,
            ConfigError::Parse(cause) => "Invalid config JSON: "@ + cause@,
        }
    }

    /// Describes the error.
    pub fn message(&self) -> (text: String)
        ensures
            text@ == self.description(),
    {
        match self {
            ConfigError::Io(cause) => "Failed to read config file: ".to_owned().concat(cause.as_str()),
            ConfigError::Parse(cause) => "Invalid config JSON: ".to_owned().concat(cause.as_str()),
        }
    }
}

} // verus!
