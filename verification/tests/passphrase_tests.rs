use cage::error::AgeError;
use cage::passphrase::{PassphraseManager, PassphraseMode};
use cage::security::SecurityValidator;

#[test]
fn test_passphrase_manager_creation() {
    let manager = PassphraseManager::new(true, true);
    // Just test that it doesn't panic
    assert!(manager.tty_available() || !manager.tty_available());
}

#[test]
fn test_insecure_usage_detection() {
    let args1 = vec![
        "cage".to_string(),
        "lock".to_string(),
        "--passphrase".to_string(),
        "secret123".to_string(),
    ];
    let detected = PassphraseManager::detect_insecure_usage(&args1);
    assert_eq!(detected, Some("secret123".to_string()));

    let args2 = vec!["cage".to_string(), "lock".to_string(), "--passphrase=mysecret".to_string()];
    let detected = PassphraseManager::detect_insecure_usage(&args2);
    assert_eq!(detected, Some("mysecret".to_string()));

    let args3 = vec!["cage".to_string(), "lock".to_string(), "file.txt".to_string()];
    let detected = PassphraseManager::detect_insecure_usage(&args3);
    assert_eq!(detected, None);
}

#[test]
fn test_security_validator() {
    let validator = SecurityValidator::new(true);

    // Test path traversal detection
    assert!(validator.validate_file_path("../etc/passwd").is_err());

    // Test valid path
    assert!(validator.validate_file_path("./test.txt").is_ok());

    // Test injection detection
    assert!(validator.validate_passphrase_security("password$(rm -rf /)").is_err());
    assert!(validator.validate_passphrase_security("validpassword").is_ok());
}

#[test]
fn passphrase_mode_selection() {
    let tty = PassphraseManager::new(true, true);
    assert_eq!(
        tty.select_mode(true, true).unwrap(),
        PassphraseMode::Environment("CAGE_PASSPHRASE".to_string())
    );
    assert_eq!(tty.select_mode(false, true).unwrap(), PassphraseMode::Stdin);
    assert_eq!(tty.select_mode(false, false).unwrap(), PassphraseMode::Interactive);
    let headless = PassphraseManager::new(false, false);
    assert!(matches!(headless.select_mode(false, false), Err(AgeError::PassphraseError { .. })));
}

#[test]
fn passphrase_entry_checks() {
    let tty = PassphraseManager::new(true, true);
    assert_eq!(tty.check_interactive("pw".to_string(), Some("pw".to_string())).unwrap(), "pw");
    assert!(tty.check_interactive("pw".to_string(), Some("px".to_string())).is_err());
    assert!(tty.check_interactive(String::new(), None).is_err());
    assert!(PassphraseManager::new(false, true).check_interactive("pw".to_string(), None).is_err());
    assert_eq!(PassphraseManager::passphrase_from_line("  secret \n").unwrap(), "secret");
    assert!(PassphraseManager::passphrase_from_line(" \n").is_err());
    match PassphraseManager::missing_variable("X") {
        AgeError::PassphraseError { message } => assert_eq!(message, "Environment variable X not found"),
        _ => panic!("expected PassphraseError"),
    }
    assert_eq!(PassphraseManager::strength_advice("short").len(), 3);
    assert_eq!(PassphraseManager::strength_advice("Long-Passphrase!").len(), 0);
    let args = vec!["-p".to_string()];
    assert_eq!(PassphraseManager::detect_insecure_usage(&args), None);
    let args = vec!["--passphrase=a=b".to_string()];
    assert_eq!(PassphraseManager::detect_insecure_usage(&args), Some("a".to_string()));
}

#[test]
fn security_validator_details() {
    let strict = SecurityValidator::new(true);
    assert!(strict.validate_file_path("/etc/shadow").is_err());
    assert!(SecurityValidator::new(false).validate_file_path("/etc/shadow").is_ok());
    match strict.validate_passphrase_security("a;b|c") {
        Err(AgeError::InjectionAttemptBlocked { attack_type, detected_pattern }) => {
            assert_eq!(attack_type, "command_injection");
            assert_eq!(detected_pattern, ";");
        }
        _ => panic!("expected injection"),
    }
    match strict.validate_passphrase_security("a\0b") {
        Err(AgeError::InjectionAttemptBlocked { attack_type, .. }) => assert_eq!(attack_type, "null_byte"),
        _ => panic!("expected null byte"),
    }
}

#[test]
fn recovery_hint_names_file_operation_and_time() {
    let manager = PassphraseManager::new(false, false);
    let hint = manager.create_recovery_hint("notes.txt", "lock", "2024-01-02 03:04:05 UTC");
    assert_eq!(
        hint,
        "# Cage Recovery Information\n# File: notes.txt\n# Operation: lock at 2024-01-02 03:04:05 UTC\n# To recover: cage unlock notes.txt <passphrase>\n# Delete this file once you've verified successful operation\n"
    );
}

#[test]
fn test_recovery_hint_creation() {
    let manager = PassphraseManager::new(true, true);
    let hint = manager.create_recovery_hint("/path/to/file.txt", "encrypt", "2024-01-01 00:00:00 UTC");
    assert!(hint.contains("/path/to/file.txt"));
    assert!(hint.contains("encrypt"));
    assert!(hint.contains("cage unlock"));
}

#[test]
fn test_passphrase_mode_detection() {
    let manager = PassphraseManager::new(true, true);

    // The passphrase variable set
    let mode = manager.select_mode(true, false).unwrap();
    assert_eq!(mode, PassphraseMode::Environment("CAGE_PASSPHRASE".to_string()));

    // The standard-input flag set
    let mode = manager.select_mode(false, true).unwrap();
    assert_eq!(mode, PassphraseMode::Stdin);
}
