use cage::audit::{recipient_hash, AuditLogger, TelemetryFormat};

#[test]
fn text_telemetry_lines() {
    let logger = AuditLogger::with_format(TelemetryFormat::Text);
    let entry = logger.log_operation_start_single("test_op", "/test/path");
    let line = logger.text_line("2024-01-01 00:00:00 UTC", &entry);
    assert_eq!(line, "[2024-01-01 00:00:00 UTC] [INFO] [cage_automation] OPERATION_START test_op /test/path\n");
    assert!(!line.contains("\"event_type\""));
    assert_eq!(TelemetryFormat::default(), TelemetryFormat::Text);
}

#[test]
fn audit_messages() {
    let logger = AuditLogger::new();
    assert_eq!(
        logger.log_operation_complete("lock", "/repo", 2, 0, 150).message,
        "OPERATION_COMPLETE lock /repo - processed: 2, failed: 0, duration: 150ms"
    );
    assert_eq!(
        logger.log_encryption_event_extended("/secret.txt", 2, "age_identity", true, Some("pipe"), Some("M")).message,
        "ENCRYPTION /secret.txt identity:age_identity recipients:2 strategy:pipe tier:M"
    );
    assert_eq!(
        logger.log_decryption_event("/s.txt", "passphrase", false).message,
        "DECRYPTION_FAILED /s.txt identity:passphrase"
    );
    assert_eq!(logger.log_operation_failure("encrypt", "a", "b", "boom").level, "ERROR");
    assert_eq!(logger.log_emergency_operation("unlock", "/x").message, "EMERGENCY_OPERATION unlock /x");
}

#[test]
fn recipient_hash_ignores_order() {
    let a = vec!["age1abc123".to_string(), "age1xyz789".to_string()];
    let b = vec!["age1xyz789".to_string(), "age1abc123".to_string()];
    assert_eq!(recipient_hash(&a), recipient_hash(&b));
    assert_eq!(recipient_hash(&a).len(), 32);
}
