//! The proxy's configuration and its defaults.

use vstd::prelude::*;

use crate::error::config::ConfigError;
#[allow(unused_imports)]
use crate::text::texts;

verus! {

/// The endpoint that is used when none is configured.
pub fn default_upstream() -> (url: String)
    ensures
        url@ == "https://api.siliconflow.cn/v1/chat/completions"@,
{
    "https://api.siliconflow.cn/v1/chat/completions".to_owned()
}

/// The models that are accepted when none are configured.
pub fn default_allowed_models() -> (models: Vec<String>)
    ensures
        texts(models@) == seq!["Qwen/Qwen3-8B"@, "THUDM/GLM-4-9B-0414"@],
{
    let models: Vec<String> = vec!["Qwen/Qwen3-8B".to_owned(), "THUDM/GLM-4-9B-0414".to_owned()];
    models
}

/// The timeout, in seconds, that is used when none is configured.
pub fn default_timeout() -> (seconds: u64)
    ensures
        seconds == 60,
{
    60
}

/// The port that is used when none is configured.
pub fn default_port() -> (port: u16)
    ensures
        port == 8000,
{
    8000
}

/// Settings of the proxy.
#[derive(Debug, Clone)]
pub struct Config {
    /// Upstream API endpoint for chat completions.
    pub upstream: String,
    /// Models the proxy accepts from clients.
    pub allowed_models: Vec<String>,
    /// Timeout in seconds for upstream HTTP requests.
    pub timeout: u64,
    /// Port the proxy listens on.
    pub port: u16,
}

/// The fields that a configuration file gives; all of them are optional.
#[derive(Debug)]
pub struct ConfigFields {
    pub upstream: Option<String>,
    pub allowed_models: Option<Vec<String>>,
    pub timeout: Option<u64>,
    pub port: Option<u16>,
}

impl Config {
    /// Whether every setting has its default.
    pub open spec fn is_default(&self) -> bool {
        self.completes(ConfigFields { upstream: None, allowed_models: None, timeout: None, port: None })
    }

    /// Whether the settings are those that the fields give, and the default
    /// where a field is missing.
    pub open spec fn completes(&self, fields: ConfigFields) -> bool {
        &&& self.upstream@ == (match fields.upstream {
            Some(url) => url@,
            None => "https://api.siliconflow.cn/v1/chat/completions"@,
        })
        &&& texts(self.allowed_models@) == (match fields.allowed_models {
            Some(models) => texts(models@),
            None => seq!["Qwen/Qwen3-8B"@, "THUDM/GLM-4-9B-0414"@],
        })
        &&& self.timeout == (match fields.timeout {
            Some(seconds) => seconds,
            None => 60,
        })
        &&& self.port == (match fields.port {
            Some(port) => port,
            None => 8000,
        })
    }

    /// The configuration to run with: the one that was loaded, or the defaults
    /// where loading it failed.
    pub fn or_default(loaded: Result<Config, ConfigError>) -> (config: Config)
        ensures
            match loaded {
                Ok(given) => config == given,
                Err(_) => config.is_default(),
            },
    {
        match loaded {
            Ok(given) => given,
            Err(_) => Config::default(),
        }
    }
}

impl ConfigFields {
    /// The configuration that the fields give, with the defaults for those that
    /// are missing.
    pub fn complete(self) -> (config: Config)
        ensures
            config.completes(self),
    {
        Config {
            upstream: match self.upstream {
                Some(url) => url,
                None => default_upstream(),
            },
            allowed_models: match self.allowed_models {
                Some(models) => models,
                None => default_allowed_models(),
            },
            timeout: match self.timeout {
                Some(seconds) => seconds,
                None => default_timeout(),
            },
            port: match self.port {
                Some(port) => port,
                None => default_port(),
            },
        }
    }
}

impl Default for Config {
    fn default() -> (config: Self)
        ensures
            config.is_default(),
    {
        Config {
            upstream: default_upstream(),
            allowed_models: default_allowed_models(),
            timeout: default_timeout(),
            port: default_port(),
        }
    }
}

} // verus!
