//! The command line, and the port that the proxy listens on.

use vstd::prelude::*;

#[allow(unused_imports)]
use crate::config::{Config, ConfigFields};
use crate::text::write_decimal;
#[allow(unused_imports)]
use crate::text::decimal;

verus! {

/// LLM Proxy - OpenAI-compatible proxy server that sits between your client and an upstream LLM API.
///
/// By default, the proxy looks for `config.json` in the current working directory.
///
/// If the file is missing, built-in defaults are used (SiliconFlow upstream, port 8000).
#[derive(Debug)]
pub struct Cli {
    /// Path to the JSON configuration file
    pub config: String,
    /// Port to listen on (overrides config and PORT env var)
    ///
    /// Priority: CLI > PORT env > config > 8000 (default)
    pub port: Option<u16>,
}

/// Whether a character is a decimal digit.
pub open spec fn is_digit(c: char) -> bool {
    '0' <= c <= '9'
}

/// The number that decimal digits spell.
pub open spec fn digits_value(digits: Seq<char>) -> nat
    decreases digits.len(),
{
    if digits.len() == 0 {
        0
    } else {
        10 * digits_value(digits.drop_last()) + (digits.last() as nat - '0' as nat) as nat
    }
}

/// The digits of a number: all of it but a leading plus sign.
pub open spec fn unsigned_part(s: Seq<char>) -> Seq<char> {
    if s.len() > 0 && s.first() == '+' {
        s.drop_first()
    } else {
        s
    }
}

/// The port that a text spells: digits, at least one, with or without a plus
/// sign in front, of a number that fits.
pub open spec fn port_number(s: Seq<char>) -> Option<u16> {
    let digits = unsigned_part(s);
    if digits.len() > 0 && (forall|i: int| 0 <= i < digits.len() ==> is_digit(#[trigger] digits[i])) && digits_value(
        digits,
    ) <= u16::MAX {
        Some(digits_value(digits) as u16)
    } else {
        None
    }
}

/// `str::parse` for `u16`: the number that the text spells in decimal, `None`
/// where it spells none or one that does not fit.
#[verifier::external_body]
fn parse_port(s: &str) -> (port: Option<u16>)
    ensures
        port == port_number(s@),
{
    s.parse::<u16>().ok()
}

/// Something to tell the operator about the choice of the port.
#[derive(Debug, Clone, Copy, PartialEq, Eq, Structural)]
pub enum PortNotice {
    /// The environment gives another port than the configuration.
    EnvOverridesConfig { env: u16, config: u16 },
    /// What the environment gives is not a port, and was ignored.
    EnvInvalid,
    /// The command line gives another port than would be used without it.
    CliOverrides { cli: u16, current: u16 },
}

/// The port to listen on, and what to tell the operator about it.
#[derive(Debug)]
pub struct PortChoice {
    pub port: u16,
    pub notices: Vec<PortNotice>,
}

/// The port that the environment and the configuration give: that of the
/// environment, if it is one.
pub open spec fn port_before_cli(env: Option<Seq<char>>, configured: u16) -> u16 {
    match env {
        Some(value) => match port_number(value) {
            Some(port) => port,
            None => configured,
        },
        None => configured,
    }
}

/// The port to listen on: that of the command line before that of the
/// environment before that of the configuration.
pub open spec fn chosen_port(cli: Option<u16>, env: Option<Seq<char>>, configured: u16) -> u16 {
    match cli {
        Some(port) => port,
        None => port_before_cli(env, configured),
    }
}

/// What there is to tell about the value of the environment.
pub open spec fn env_notices(env: Option<Seq<char>>, configured: u16) -> Seq<PortNotice> {
    match env {
        Some(value) => match port_number(value) {
            Some(port) => if port != configured {
                seq![PortNotice::EnvOverridesConfig { env: port, config: configured }]
            } else {
                seq![]
            },
            None => seq![PortNotice::EnvInvalid],
        },
        None => seq![],
    }
}

/// What there is to tell about the value of the command line.
pub open spec fn cli_notices(cli: Option<u16>, current: u16) -> Seq<PortNotice> {
    match cli {
        Some(port) => if port != current {
            seq![PortNotice::CliOverrides { cli: port, current }]
        } else {
            seq![]
        },
        None => seq![],
    }
}

/// The text of an optional string slice.
pub open spec fn optional_view(s: Option<&str>) -> Option<Seq<char>> {
    match s {
        Some(value) => Some(value@),
        None => None,
    }
}

impl Cli {
    /// Chooses the port to listen on, from the configured port and the value of
    /// the environment's `PORT`, where it has one.
    pub fn choose_port(&self, configured: u16, env: Option<&str>) -> (choice: PortChoice)
        ensures
            choice.port == chosen_port(self.port, optional_view(env), configured),
            choice.notices@ == env_notices(optional_view(env), configured) + cli_notices(
                self.port,
                port_before_cli(optional_view(env), configured),
            ),
    {
        let mut port = configured;
        let mut notices: Vec<PortNotice> = Vec::new();
        if let Some(value) = env {
            match parse_port(value) {
                Some(env_port) => {
                    if env_port != port {
                        notices.push(PortNotice::EnvOverridesConfig { env: env_port, config: port });
                    }
                    port = env_port;
                },
                None => {
                    notices.push(PortNotice::EnvInvalid);
                },
            }
        }
        assert(notices@ =~= env_notices(optional_view(env), configured));
        if let Some(cli_port) = self.port {
            if cli_port != port {
                notices.push(PortNotice::CliOverrides { cli: cli_port, current: port });
            }
            port = cli_port;
        }
        PortChoice { port, notices }
    }
}

/// The address to listen on: the port on every interface.
pub fn listen_address(port: u16) -> (address: String)
    ensures
        address@ == "0.0.0.0:"@ + decimal(port as nat),
{
    "0.0.0.0:".to_owned().concat(write_decimal(port as u64).as_str())
}

/// The order in which the sources of the port count: the command line, then the
/// environment if it holds a port, then the configuration file, then 8000.
pub proof fn lemma_port_priority(cli: Option<u16>, env: Option<Seq<char>>, fields: ConfigFields, config: Config)
    requires
        config.completes(fields),
    ensures
        chosen_port(cli, env, config.port) == (if cli is Some {
            cli->Some_0
        } else if env is Some && port_number(env->Some_0) is Some {
            port_number(env->Some_0)->Some_0
        } else if fields.port is Some {
            fields.port->Some_0
        } else {
            8000
        }),
{
}

/// The operator is told nothing if and only if the sources agree: what the
/// environment gives, if anything, is the configured port, and what the command
/// line gives, if anything, is the port that would be used without it.
pub proof fn lemma_notices_tell_differences(cli: Option<u16>, env: Option<Seq<char>>, configured: u16)
    ensures
        (env_notices(env, configured) + cli_notices(cli, port_before_cli(env, configured))).len() == 0 <==> {
            &&& env matches Some(value) ==> port_number(value) == Some(configured)
            &&& cli matches Some(port) ==> port == port_before_cli(env, configured)
        },
{
}

} // verus!
