use cage::config::{
    parse_retention_policy, AgeConfig, OutputFormat, RetentionPolicyConfig, SecurityLevel, TtyMethod,
};

#[test]
fn test_output_format() {
    assert_eq!(OutputFormat::Binary.age_flag(), None);
    assert_eq!(OutputFormat::AsciiArmor.age_flag(), Some("-a"));

    assert_eq!(OutputFormat::default(), OutputFormat::Binary);
}

#[test]
fn test_output_format_detection() {
    assert_eq!(OutputFormat::detect_from_path("test.age"), OutputFormat::Binary);
    assert_eq!(OutputFormat::detect_from_path("test.txt"), OutputFormat::AsciiArmor);
    assert_eq!(OutputFormat::detect_from_path("test.asc"), OutputFormat::AsciiArmor);
}

#[test]
fn test_tty_method() {
    assert_eq!(TtyMethod::default(), TtyMethod::Auto);
    assert!(TtyMethod::Script.dependencies().contains(&"script"));
    assert!(TtyMethod::Expect.dependencies().contains(&"expect"));
}

#[test]
fn test_config_validation() {
    let config = AgeConfig::default();
    assert!(config.validate().is_ok());

    let bad_config = AgeConfig { max_passphrase_length: 0, ..AgeConfig::default() };
    assert!(bad_config.validate().is_err());
}

#[test]
fn test_config_builders() {
    // Timeouts are given in seconds.
    let config = AgeConfig::production()
        .with_output_format(OutputFormat::AsciiArmor)
        .with_tty_method(TtyMethod::Script)
        .with_timeout(60);

    assert_eq!(config.output_format, OutputFormat::AsciiArmor);
    assert_eq!(config.tty_method, TtyMethod::Script);
    assert_eq!(config.operation_timeout, 60);
    assert!(config.audit_logging);
}

#[test]
fn test_environment_configs() {
    let prod = AgeConfig::production();
    assert!(prod.audit_logging);
    assert!(prod.security_validation);
    assert_eq!(prod.max_retries, 3);

    let dev = AgeConfig::development();
    assert!(!dev.audit_logging);
    assert_eq!(dev.max_retries, 1);

    let test = AgeConfig::testing();
    assert_eq!(test.max_retries, 0);
    assert_eq!(test.security_level, SecurityLevel::Paranoid);
}

#[test]
fn test_parse_retention_policy_strings() {
    assert!(matches!(parse_retention_policy("keep_all").unwrap(), RetentionPolicyConfig::KeepAll));
    assert!(matches!(
        parse_retention_policy("keep_days:7").unwrap(),
        RetentionPolicyConfig::KeepDays(7)
    ));
    assert!(matches!(
        parse_retention_policy("keep_last:5").unwrap(),
        RetentionPolicyConfig::KeepLast(5)
    ));
    assert!(matches!(
        parse_retention_policy("keep_last_and_days:2,30").unwrap(),
        RetentionPolicyConfig::KeepLastAndDays { last: 2, days: 30 }
    ));

    assert!(parse_retention_policy("invalid").is_err());
}

#[test]
fn config_extension_and_detection() {
    let config = AgeConfig::default();
    assert_eq!(config.extension_with_dot(), ".cage");
    assert!(config.is_encrypted_file("secret.txt.cage"));
    assert!(!config.is_encrypted_file("secret.txt"));
}

#[test]
fn retention_policy_rejects_bad_numbers() {
    assert!(parse_retention_policy("keep_days:").is_err());
    assert!(parse_retention_policy("keep_last:x").is_err());
    assert!(parse_retention_policy("keep_last_and_days:2").is_err());
}

#[test]
fn config_layers_listing() {
    let config = AgeConfig::default();
    let paths = vec!["/x/.config/cage/config.toml".to_string(), "cage.toml".to_string()];
    assert_eq!(
        config.format_layers(&paths, &vec![true, false], false),
        "Configuration search order (highest priority first):\n  1. XDG -> /x/.config/cage/config.toml [exists]\n  2. local -> cage.toml [not found]\n\nUsing default configuration (no config file found)"
    );
    // Paths are compared component by component: a doubled separator does not matter.
    let loaded = AgeConfig { source_path: Some("dir//cage.toml".to_string()), ..AgeConfig::default() };
    let listing = loaded.format_layers(&vec!["dir/cage.toml".to_string()], &vec![true], false);
    assert_eq!(listing, "Configuration search order (highest priority first):\n  1. local -> dir/cage.toml [LOADED]\n");
    assert_eq!(
        AgeConfig::get_config_search_paths(None, None, Some("/home/u")),
        vec!["/home/u/.config/cage/config.toml", "cage.toml"]
    );
}
