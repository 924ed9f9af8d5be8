use x402_payment::config::{network_profiles, Config};
use x402_payment::paths::expand_tilde_with;
use x402_payment::text::{parse_u64, parse_u8, u64_to_string};

#[test]
fn test_default_config() {
    let config = Config::default();
    assert!(config.wallet.path.contains(".payment"));
    assert!(config.network.chain_id.is_none());
}

#[test]
fn test_apply_network_profile() {
    let mut config = Config::default();
    config.apply_network_profile("base-sepolia").unwrap();

    assert_eq!(config.network.name, Some("base-sepolia".to_string()));
    assert_eq!(config.network.chain_id, Some(84532));
    assert_eq!(
        config.network.rpc_url,
        Some("https://sepolia.base.org".to_string())
    );
}

#[test]
fn config_test_default_config() {
    let config = x402_payment::x402::Config::default();
    assert!(config.wallet.path.contains(".x402"));
    assert!(config.network.chain_id.is_none());
}

#[test]
fn config_test_apply_network_profile() {
    let mut config = x402_payment::x402::Config::default();
    config.apply_network_profile("base-sepolia").unwrap();

    assert_eq!(config.network.name, Some("base-sepolia".to_string()));
    assert_eq!(config.network.chain_id, Some(84532));
    assert_eq!(
        config.network.rpc_url,
        Some("https://sepolia.base.org".to_string())
    );
}

#[test]
fn profile_keeps_undefined_fields() {
    let mut config = Config::default();
    config
        .set("payment.default_token", "0x036CbD53842c5426634e7929541eC2318f3dCF7e")
        .unwrap();
    config.apply_network_profile("ethereum-sepolia").unwrap();
    // ethereum-sepolia defines no token, so the configured one stays
    assert_eq!(
        config.payment.default_token,
        Some("0x036CbD53842c5426634e7929541eC2318f3dCF7e".to_string())
    );
    assert_eq!(config.network.chain_id, Some(11155111));
}

#[test]
fn unknown_profile_is_rejected() {
    let mut config = Config::default();
    let e = config.apply_network_profile("no-such-network").unwrap_err();
    assert_eq!(e.exit_code(), 11);
    assert_eq!(e.message(), "Configuration error: Unknown network profile: no-such-network");
}

#[test]
fn get_and_set_round_trip() {
    let mut config = Config::default();
    config.set("network.chain_id", "12345").unwrap();
    assert_eq!(config.get("network.chain_id"), Some("12345".to_string()));
    config.set("network.name", "test-network").unwrap();
    assert_eq!(config.get("network.name"), Some("test-network".to_string()));
    config.set("payment.default_token_decimals", "18").unwrap();
    assert_eq!(config.payment.default_token_decimals, Some(18));
    assert_eq!(config.get("payment.default_token_decimals"), Some("18".to_string()));
    assert_eq!(config.get("network.rpc_url"), None);
    assert_eq!(config.get("bogus.key"), None);
}

#[test]
fn set_rejects_bad_values_and_keys() {
    let mut config = Config::default();
    assert!(config.set("network.chain_id", "twelve").is_err());
    assert!(config.set("network.chain_id", "18446744073709551616").is_err());
    assert!(config.set("payment.default_token_decimals", "256").is_err());
    let e = config.set("bogus.key", "1").unwrap_err();
    assert_eq!(e.message(), "Configuration error: Unknown config key: bogus.key");
    // a failed set leaves the configuration unchanged
    assert!(config.network.chain_id.is_none());
}

#[test]
fn valid_keys_lists_all_nine() {
    let keys = Config::valid_keys();
    assert_eq!(keys.len(), 9);
    assert!(keys.contains(&"network.rpc_url".to_string()));
    assert!(keys.contains(&"payment.max_auto_payment".to_string()));
}

#[test]
fn check_network_config_reports_missing_fields() {
    let mut config = Config::default();
    let p = config.check_network_config().unwrap_err();
    assert_eq!(p.error, "missing_config");
    assert_eq!(p.missing_fields, vec!["network.rpc_url".to_string(), "network.chain_id".to_string()]);
    assert_eq!(p.questions.len(), 1);
    assert_eq!(p.questions[0].default, Some("base-sepolia".to_string()));

    config.set("network.rpc_url", "https://sepolia.base.org").unwrap();
    let p = config.check_network_config().unwrap_err();
    assert_eq!(p.missing_fields, vec!["network.chain_id".to_string()]);

    config.set("network.chain_id", "84532").unwrap();
    assert!(config.check_network_config().is_ok());
}

#[test]
fn profiles_table_matches_applied_profiles() {
    let profiles = network_profiles();
    assert_eq!(profiles.len(), 4);
    assert_eq!(profiles[0].name, "base-sepolia");
    assert_eq!(profiles[0].chain_id, 84532);
    assert_eq!(profiles[1].name, "base-mainnet");
    assert_eq!(profiles[1].chain_id, 8453);
    assert_eq!(profiles[2].name, "ethereum-sepolia");
    assert!(profiles[2].default_token.is_none());
    assert_eq!(profiles[3].name, "ethereum-mainnet");
    assert_eq!(profiles[3].chain_id, 1);
}

#[test]
fn numeral_helpers() {
    assert_eq!(u64_to_string(84532), "84532");
    assert_eq!(u64_to_string(0), "0");
    assert_eq!(parse_u64("18446744073709551615"), Some(u64::MAX));
    assert_eq!(parse_u64("18446744073709551616"), None);
    assert_eq!(parse_u64(""), None);
    assert_eq!(parse_u64("+5"), None);
    assert_eq!(parse_u8("255"), Some(255));
    assert_eq!(parse_u8("256"), None);
}

#[test]
fn tilde_expansion() {
    assert_eq!(expand_tilde_with("~/w.json", Some("/home/u")), "/home/u/w.json");
    assert_eq!(expand_tilde_with("/abs/w.json", Some("/home/u")), "/abs/w.json");
    assert_eq!(expand_tilde_with("~/w.json", None), "~/w.json");
    assert_eq!(expand_tilde_with("~", Some("/home/u")), "~");
}
