use stellar_fee_tracker::config::{Cli, Config, EnvEntry, EnvKey, StellarNetwork};

fn make_cli(network: &str, horizon_url: Option<&str>) -> Cli {
    Cli {
        network: Some(network.to_string()),
        horizon_url: horizon_url.map(str::to_string),
        poll_interval: Some(30),
    }
}

fn no_env() -> Vec<EnvEntry> {
    Vec::new()
}

fn env_of(entries: &[(EnvKey, &str)]) -> Vec<EnvEntry> {
    entries
        .iter()
        .map(|(key, value)| EnvEntry {
            key: *key,
            value: value.to_string(),
        })
        .collect()
}

#[test]
fn testnet_defaults_to_testnet_horizon() {
    assert_eq!(
        StellarNetwork::Testnet.default_horizon_url(),
        "https://horizon-testnet.stellar.org"
    );
}

#[test]
fn mainnet_defaults_to_mainnet_horizon() {
    assert_eq!(
        StellarNetwork::Mainnet.default_horizon_url(),
        "https://horizon.stellar.org"
    );
}

#[test]
fn testnet_without_horizon_url_uses_default() {
    let cli = make_cli("testnet", None);
    let config = Config::from_sources_with_overrides(&cli, &no_env()).unwrap();
    assert_eq!(config.horizon_url, "https://horizon-testnet.stellar.org");
}

#[test]
fn mainnet_without_horizon_url_uses_default() {
    let cli = make_cli("mainnet", None);
    let config = Config::from_sources_with_overrides(&cli, &no_env()).unwrap();
    assert_eq!(config.horizon_url, "https://horizon.stellar.org");
}

#[test]
fn explicit_horizon_url_overrides_default() {
    let custom = "https://my-private-horizon.example.com";
    let cli = make_cli("testnet", Some(custom));
    let config = Config::from_sources_with_overrides(&cli, &no_env()).unwrap();
    assert_eq!(config.horizon_url, custom);
}

#[test]
fn invalid_network_returns_error() {
    let cli = make_cli("devnet", None);
    let result = Config::from_sources_with_overrides(&cli, &no_env());
    assert!(result.is_err());
    assert!(result.unwrap_err().contains("Invalid STELLAR_NETWORK"));
}

#[test]
fn api_port_defaults_to_8080() {
    let cli = make_cli("testnet", None);
    let config = Config::from_sources_with_overrides(&cli, &no_env()).unwrap();
    assert_eq!(config.api_port, 8080);
}

#[test]
fn cache_ttl_defaults_to_five_seconds() {
    let cli = make_cli("testnet", None);
    let config = Config::from_sources_with_overrides(&cli, &no_env()).unwrap();
    assert_eq!(config.cache_ttl_seconds, 5);
}

#[test]
fn cache_ttl_uses_env_override() {
    let cli = make_cli("testnet", None);
    let env = env_of(&[(EnvKey::CacheTtlSeconds, "12")]);
    let config = Config::from_sources_with_overrides(&cli, &env).unwrap();
    assert_eq!(config.cache_ttl_seconds, 12);
}

#[test]
fn allowed_origins_defaults_to_localhost_3000() {
    let cli = make_cli("testnet", None);
    let config = Config::from_sources_with_overrides(&cli, &no_env()).unwrap();
    assert_eq!(config.allowed_origins, vec!["http://localhost:3000"]);
}

#[test]
fn allowed_origins_parses_comma_separated_list() {
    let cli = make_cli("testnet", None);
    let env = env_of(&[(
        EnvKey::AllowedOrigins,
        "http://localhost:3000,https://app.example.com",
    )]);
    let config = Config::from_sources_with_overrides(&cli, &env).unwrap();
    assert_eq!(
        config.allowed_origins,
        vec!["http://localhost:3000", "https://app.example.com"]
    );
}

#[test]
fn allowed_origins_trims_whitespace() {
    let cli = make_cli("testnet", None);
    let env = env_of(&[(
        EnvKey::AllowedOrigins,
        "http://localhost:3000 , https://app.example.com ",
    )]);
    let config = Config::from_sources_with_overrides(&cli, &env).unwrap();
    assert_eq!(
        config.allowed_origins,
        vec!["http://localhost:3000", "https://app.example.com"]
    );
}

#[test]
fn missing_network_everywhere_is_required_error() {
    let cli = Cli {
        network: None,
        horizon_url: None,
        poll_interval: Some(30),
    };
    let result = Config::from_sources(&cli, &no_env());
    assert!(result.is_err());
    assert!(result.unwrap_err().contains("STELLAR_NETWORK is required"));
}

#[test]
fn poll_interval_from_env_when_cli_omits_it() {
    let cli = Cli {
        network: Some("testnet".to_string()),
        horizon_url: None,
        poll_interval: None,
    };
    let env = env_of(&[(EnvKey::PollIntervalSeconds, "45")]);
    let config = Config::from_sources(&cli, &env).unwrap();
    assert_eq!(config.poll_interval_seconds, 45);
}

#[test]
fn unparseable_poll_interval_is_an_error() {
    let cli = Cli {
        network: Some("testnet".to_string()),
        horizon_url: None,
        poll_interval: None,
    };
    let env = env_of(&[(EnvKey::PollIntervalSeconds, "soon")]);
    let result = Config::from_sources(&cli, &env);
    assert!(result.is_err());
    assert!(result.unwrap_err().contains("POLL_INTERVAL_SECONDS"));
}
