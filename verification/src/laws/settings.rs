//! Laws of the configuration, of the choice of the port and of numbers in
//! decimal.

use vstd::prelude::*;

#[allow(unused_imports)]
use crate::cli::{digits_value, is_digit, listen_address, port_number, unsigned_part, Cli, PortChoice, PortNotice};
#[allow(unused_imports)]
use crate::config::{
    default_allowed_models, default_port, default_timeout, default_upstream, Config, ConfigFields,
};
#[allow(unused_imports)]
use crate::error::config::ConfigError;
#[allow(unused_imports)]
use crate::text::{decimal, texts, write_decimal};

verus! {

/// A field that a configuration file gives is the setting, whatever it is.
pub proof fn lemma_given_fields_are_kept(fields: ConfigFields, config: Config)
    requires
        call_ensures(ConfigFields::complete, (fields,), config),
    ensures
        fields.upstream matches Some(url) ==> config.upstream@ == url@,
        fields.allowed_models matches Some(models) ==> {
            &&& config.allowed_models@.len() == models@.len()
            &&& forall|i: int| 0 <= i < models@.len() ==> (#[trigger] config.allowed_models@[i])@ == models@[i]@
        },
        fields.timeout matches Some(seconds) ==> config.timeout == seconds,
        fields.port matches Some(port) ==> config.port == port,
{
    if let Some(models) = fields.allowed_models {
        assert(texts(config.allowed_models@).len() == texts(models@).len());
        assert forall|i: int| 0 <= i < models@.len() implies (#[trigger] config.allowed_models@[i])@ == models@[i]@ by {
            assert(texts(config.allowed_models@)[i] == texts(models@)[i]);
        }
    }
}

/// Whether the settings are the built-in ones, each on its own.
pub open spec fn is_built_in(config: Config) -> bool {
    &&& config.upstream@ == "https://api.siliconflow.cn/v1/chat/completions"@
    &&& config.allowed_models@.len() == 2
    &&& config.allowed_models@[0]@ == "Qwen/Qwen3-8B"@
    &&& config.allowed_models@[1]@ == "THUDM/GLM-4-9B-0414"@
    &&& config.timeout == 60
    &&& config.port == 8000
}

proof fn lemma_default_models(config: Config)
    requires
        texts(config.allowed_models@) == seq!["Qwen/Qwen3-8B"@, "THUDM/GLM-4-9B-0414"@],
    ensures
        config.allowed_models@.len() == 2,
        config.allowed_models@[0]@ == "Qwen/Qwen3-8B"@,
        config.allowed_models@[1]@ == "THUDM/GLM-4-9B-0414"@,
{
    assert(texts(config.allowed_models@).len() == config.allowed_models@.len());
    assert(texts(config.allowed_models@)[0] == config.allowed_models@[0]@);
    assert(texts(config.allowed_models@)[1] == config.allowed_models@[1]@);
}

/// A field that a configuration file leaves out takes the built-in setting, as
/// each does where the file could not be loaded.
pub proof fn lemma_missing_fields_fall_back(fields: ConfigFields, config: Config, built_in: Config)
    requires
        call_ensures(ConfigFields::complete, (fields,), config),
        is_built_in(built_in),
    ensures
        fields.upstream is None ==> config.upstream@ == built_in.upstream@,
        fields.allowed_models is None ==> {
            &&& config.allowed_models@.len() == built_in.allowed_models@.len()
            &&& forall|i: int|
                0 <= i < built_in.allowed_models@.len() ==> (#[trigger] config.allowed_models@[i])@
                    == built_in.allowed_models@[i]@
        },
        fields.timeout is None ==> config.timeout == built_in.timeout,
        fields.port is None ==> config.port == built_in.port,
{
    if fields.allowed_models is None {
        lemma_default_models(config);
    }
}

/// A configuration that was loaded is the one to run with, and one that could
/// not be loaded is replaced by the built-in settings.
pub proof fn lemma_loaded_or_built_in(loaded: Result<Config, ConfigError>, config: Config)
    requires
        call_ensures(Config::or_default, (loaded,), config),
    ensures
        loaded matches Ok(given) ==> config == given,
        loaded is Err ==> is_built_in(config),
{
    if loaded is Err {
        lemma_default_models(config);
    }
}

/// The settings of a configuration that nothing was loaded for are the built-in
/// ones, each of them what its own default is.
pub proof fn lemma_defaults(config: Config, url: String, models: Vec<String>, seconds: u64, port: u16)
    requires
        call_ensures(<Config as Default>::default, (), config),
        call_ensures(default_upstream, (), url),
        call_ensures(default_allowed_models, (), models),
        call_ensures(default_timeout, (), seconds),
        call_ensures(default_port, (), port),
    ensures
        is_built_in(config),
        config.upstream@ == url@,
        config.allowed_models@.len() == models@.len(),
        forall|i: int| 0 <= i < models@.len() ==> (#[trigger] config.allowed_models@[i])@ == models@[i]@,
        config.timeout == seconds,
        config.port == port,
{
    lemma_default_models(config);
    assert(texts(config.allowed_models@).len() == texts(models@).len());
    assert forall|i: int| 0 <= i < models@.len() implies (#[trigger] config.allowed_models@[i])@ == models@[i]@ by {
        assert(texts(config.allowed_models@)[i] == texts(models@)[i]);
    }
}

/// Digits spell a number by place value.
pub proof fn lemma_place_value(digits: Seq<char>, last: char)
    requires
        '0' <= last <= '9',
    ensures
        digits_value(Seq::empty()) == 0,
        digits_value(digits.push(last)) == 10 * digits_value(digits) + (last as int - '0' as int),
{
    assert(digits.push(last).drop_last() =~= digits);
}

/// A number in decimal: nothing but digits, none of them a leading zero, and of
/// the number's own value.
pub proof fn lemma_decimal(n: nat)
    ensures
        decimal(n).len() > 0,
        forall|i: int| 0 <= i < decimal(n).len() ==> '0' <= #[trigger] decimal(n)[i] <= '9',
        n > 0 ==> decimal(n)[0] != '0',
        n == 0 ==> decimal(n) == seq!['0'],
        digits_value(decimal(n)) == n,
    decreases n,
{
    if n < 10 {
        assert(decimal(n).drop_last() =~= Seq::empty());
        assert(digits_value(Seq::empty()) == 0);
        assert(digits_value(decimal(n)) == 10 * digits_value(decimal(n).drop_last()) + (decimal(n).last() as nat
            - '0' as nat) as nat);
    } else {
        lemma_decimal(n / 10);
        let last = crate::text::digit(n % 10);
        lemma_place_value(decimal(n / 10), last);
    }
}

/// What is written for a number is that number, in decimal.
pub proof fn lemma_written_number(n: u64, written: String)
    requires
        call_ensures(write_decimal, (n,), written),
    ensures
        written@.len() > 0,
        forall|i: int| 0 <= i < written@.len() ==> '0' <= #[trigger] written@[i] <= '9',
        n > 0 ==> written@[0] != '0',
        digits_value(written@) == n,
{
    lemma_decimal(n as nat);
}

/// The address to listen on: every interface, and the port in decimal.
pub proof fn lemma_address(port: u16, address: String)
    requires
        call_ensures(listen_address, (port,), address),
    ensures
        address@.len() > 8,
        address@.take(8) == seq!['0', '.', '0', '.', '0', '.', '0', ':'],
        forall|i: int| 8 <= i < address@.len() ==> '0' <= #[trigger] address@[i] <= '9',
        port > 0 ==> address@[8] != '0',
        digits_value(address@.skip(8)) == port,
{
    reveal_strlit("0.0.0.0:");
    lemma_decimal(port as nat);
    let digits = decimal(port as nat);
    assert(address@.take(8) =~= seq!['0', '.', '0', '.', '0', '.', '0', ':']);
    assert(address@.skip(8) =~= digits);
    assert forall|i: int| 8 <= i < address@.len() implies '0' <= #[trigger] address@[i] <= '9' by {
        assert(address@[i] == digits[i - 8]);
    }
}

/// A text spells a port if and only if, but for one plus sign in front, it is
/// made of digits, and of a number that fits; and it spells that number.
pub proof fn lemma_port_number(s: Seq<char>, digits: Seq<char>)
    requires
        s == digits && (s.len() > 0 ==> s[0] != '+') || s == seq!['+'] + digits,
    ensures
        port_number(s) is Some <==> {
            &&& digits.len() > 0
            &&& forall|i: int| 0 <= i < digits.len() ==> '0' <= #[trigger] digits[i] <= '9'
            &&& digits_value(digits) <= 65535
        },
        port_number(s) matches Some(port) ==> port == digits_value(digits),
{
    assert(unsigned_part(s) =~= digits);
    if port_number(s) is Some {
        assert forall|i: int| 0 <= i < digits.len() implies '0' <= #[trigger] digits[i] <= '9' by {
            assert(is_digit(unsigned_part(s)[i]));
        }
    }
    if forall|i: int| 0 <= i < digits.len() ==> '0' <= #[trigger] digits[i] <= '9' {
        assert forall|i: int| 0 <= i < unsigned_part(s).len() implies is_digit(#[trigger] unsigned_part(s)[i]) by {
            assert('0' <= digits[i] <= '9');
        }
    }
}

/// A port written in decimal is read as that port.
pub proof fn lemma_port_read_back(port: u16)
    ensures
        port_number(decimal(port as nat)) == Some(port),
{
    let digits = decimal(port as nat);
    lemma_decimal(port as nat);
    assert('0' <= digits[0] <= '9');
    lemma_port_number(digits, digits);
}

/// The port of the command line counts before that of the environment, that
/// before that of the configuration, and what is not a port does not count.
pub proof fn lemma_chosen_port(cli: &Cli, configured: u16, env: Option<&str>, choice: PortChoice)
    requires
        call_ensures(Cli::choose_port, (cli, configured, env), choice),
    ensures
        cli.port matches Some(port) ==> choice.port == port,
        cli.port is None && env is None ==> choice.port == configured,
        cli.port is None ==> (env matches Some(value) ==> choice.port == (match port_number(value@) {
            Some(port) => port,
            None => configured,
        })),
{
}

/// The operator is told of an environment that overrides the configuration, of
/// one that holds no port, and of a command line that overrides either; and of
/// nothing else.
pub proof fn lemma_port_notices(cli: &Cli, configured: u16, env: Option<&str>, choice: PortChoice, notice: PortNotice)
    requires
        call_ensures(Cli::choose_port, (cli, configured, env), choice),
    ensures
        choice.notices@.contains(notice) <==> match notice {
            PortNotice::EnvOverridesConfig { env: given, config } => {
                &&& config == configured
                &&& given != configured
                &&& env matches Some(value)
                &&& port_number(value@) == Some(given)
            },
            PortNotice::EnvInvalid => {
                &&& env matches Some(value)
                &&& port_number(value@) is None
            },
            PortNotice::CliOverrides { cli: given, current } => {
                &&& cli.port == Some(given)
                &&& given != current
                &&& current == (match env {
                    Some(value) => match port_number(value@) {
                        Some(port) => port,
                        None => configured,
                    },
                    None => configured,
                })
            },
        },
        choice.notices@.no_duplicates(),
        choice.notices@.len() <= 2,
        choice.notices@.len() == 2 ==> choice.notices@[1] is CliOverrides,
{
    let first = crate::cli::env_notices(crate::cli::optional_view(env), configured);
    let second = crate::cli::cli_notices(
        cli.port,
        crate::cli::port_before_cli(crate::cli::optional_view(env), configured),
    );
    assert(choice.notices@ == first + second);
    assert(first.len() <= 1 && second.len() <= 1);
    if first.contains(notice) {
        assert(choice.notices@[0] == notice);
    }
    if second.contains(notice) {
        assert(choice.notices@[first.len() as int] == notice);
    }
    assert(first.len() == 1 ==> first.contains(first[0]));
    assert(second.len() == 1 ==> second.contains(second[0]));
}

} // verus!
