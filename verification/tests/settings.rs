use llm_proxy::cli::{listen_address, Cli, PortNotice};
use llm_proxy::config::{
    default_allowed_models, default_port, default_timeout, default_upstream, Config, ConfigFields,
};
use llm_proxy::error::config::ConfigError;

fn chosen(cli: Option<u16>, env: Option<&str>, configured: u16) -> (u16, Vec<PortNotice>) {
    let cli = Cli {
        config: "config.json".to_string(),
        port: cli,
    };
    let choice = cli.choose_port(configured, env);
    (choice.port, choice.notices)
}

fn fields() -> ConfigFields {
    ConfigFields {
        upstream: None,
        allowed_models: None,
        timeout: None,
        port: None,
    }
}

fn assert_default(config: &Config) {
    assert_eq!(config.upstream, "https://api.siliconflow.cn/v1/chat/completions");
    assert_eq!(config.allowed_models, ["Qwen/Qwen3-8B", "THUDM/GLM-4-9B-0414"]);
    assert_eq!(config.timeout, 60);
    assert_eq!(config.port, 8000);
}

#[test]
fn defaults() {
    assert_default(&Config::default());
    assert_default(&fields().complete());
    assert_eq!(default_upstream(), "https://api.siliconflow.cn/v1/chat/completions");
    assert_eq!(default_allowed_models(), ["Qwen/Qwen3-8B", "THUDM/GLM-4-9B-0414"]);
    assert_eq!(default_timeout(), 60);
    assert_eq!(default_port(), 8000);
}

#[test]
fn given_fields_count_and_missing_ones_fall_back() {
    let config = ConfigFields {
        upstream: Some("http://u".to_string()),
        port: Some(9),
        ..fields()
    }
    .complete();
    assert_eq!(config.upstream, "http://u");
    assert_eq!(config.allowed_models, default_allowed_models());
    assert_eq!(config.timeout, 60);
    assert_eq!(config.port, 9);
    let config = ConfigFields {
        allowed_models: Some(vec![]),
        timeout: Some(0),
        ..fields()
    }
    .complete();
    assert!(config.allowed_models.is_empty());
    assert_eq!(config.timeout, 0);
    assert_eq!(config.port, 8000);
}

#[test]
fn failed_loading_falls_back_to_the_defaults() {
    assert_default(&Config::or_default(Err(ConfigError::Io("none".to_string()))));
    assert_default(&Config::or_default(Err(ConfigError::Parse("bad".to_string()))));
    let given = Config {
        port: 5,
        ..Config::default()
    };
    assert_eq!(Config::or_default(Ok(given)).port, 5);
}

#[test]
fn port_priority() {
    assert_eq!(chosen(None, None, 8000), (8000, vec![]));
    assert_eq!(
        chosen(None, Some("9090"), 8000),
        (9090, vec![PortNotice::EnvOverridesConfig { env: 9090, config: 8000 }])
    );
    assert_eq!(
        chosen(Some(1), Some("2"), 3),
        (
            1,
            vec![
                PortNotice::EnvOverridesConfig { env: 2, config: 3 },
                PortNotice::CliOverrides { cli: 1, current: 2 },
            ]
        )
    );
    assert_eq!(
        chosen(Some(4), None, 3),
        (4, vec![PortNotice::CliOverrides { cli: 4, current: 3 }])
    );
}

#[test]
fn agreeing_sources_are_not_told_of() {
    assert_eq!(chosen(Some(3), Some("3"), 3), (3, vec![]));
    assert_eq!(chosen(Some(3), None, 3), (3, vec![]));
}

#[test]
fn invalid_environment_is_ignored() {
    let invalid = ["", "+", "-1", "-0", "++1", "65536", "80 ", " 80", "8_0", "0x50", "eighty", "99999999999999999999"];
    for value in invalid {
        assert_eq!(chosen(None, Some(value), 8000), (8000, vec![PortNotice::EnvInvalid]));
    }
    assert_eq!(
        chosen(Some(1), Some("x"), 8000),
        (
            1,
            vec![PortNotice::EnvInvalid, PortNotice::CliOverrides { cli: 1, current: 8000 }]
        )
    );
}

#[test]
fn valid_environment() {
    assert_eq!(chosen(None, Some("0"), 1).0, 0);
    assert_eq!(chosen(None, Some("65535"), 1).0, 65535);
    assert_eq!(chosen(None, Some("+80"), 1).0, 80);
    assert_eq!(chosen(None, Some("00080"), 1).0, 80);
}

#[test]
fn addresses() {
    assert_eq!(listen_address(8000), "0.0.0.0:8000");
    assert_eq!(listen_address(0), "0.0.0.0:0");
    assert_eq!(listen_address(65535), "0.0.0.0:65535");
}
