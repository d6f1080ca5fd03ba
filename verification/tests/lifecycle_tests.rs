use cage::config::OutputFormat;
use cage::in_place::{InPlaceOperation, InPlaceOptions, RecoveryManager, SafetyValidator};
use cage::keygen::{
    check_age_keygen_available, default_identity_path, KeygenError, KeygenPlan, KeygenRequest, KeygenService,
    OutputChoice,
};
use cage::lifecycle::{BackupInfo, BackupManager, FileVerificationStatus, LockOptions, UnlockOptions};
use cage::operations::{
    decrypted_output_path, encrypted_output_path, has_age_extension, repository_outcome, skips_directory,
    repository_status_of, OperationResult, RepositoryStatus,
};
use cage::config::AgeConfig;
use cage::{SECURITY_LEVEL, THREAT_STATUS, VERSION};

#[test]
fn test_lock_options_defaults() {
    let options = LockOptions::default();
    assert!(!options.recursive);
    assert_eq!(options.format, OutputFormat::Binary);
    assert!(options.pattern_filter.is_none());
    assert!(!options.backup_before_lock);
}

#[test]
fn test_unlock_options_defaults() {
    let options = UnlockOptions::default();
    assert!(!options.selective);
    assert!(options.verify_before_unlock);
    assert!(options.pattern_filter.is_none());
    assert!(!options.preserve_encrypted);
}

#[test]
fn test_backup_manager_creation() {
    let backup_manager = BackupManager::new();
    assert!(backup_manager.backup_dir().is_none());
    assert_eq!(backup_manager.backup_extension(), ".bak");
    assert!(backup_manager.cleanup_on_success());

    let custom_manager = BackupManager::new().with_extension("backup".to_string()).with_cleanup(false);
    assert_eq!(custom_manager.backup_extension(), ".backup");
    assert!(!custom_manager.cleanup_on_success());
}

#[test]
fn test_module_exports() {
    let _config = AgeConfig::default();
    assert_eq!(VERSION, "0.1.0");
    assert_eq!(SECURITY_LEVEL, "FORTRESS_CLEARED");
    assert_eq!(THREAT_STATUS, "T2.1_ELIMINATED");
}

#[test]
fn backup_paths() {
    let m = BackupManager::new();
    assert_eq!(m.backup_path("/data/file.txt").unwrap(), "/data/file.txt.bak");
    assert_eq!(m.backup_path("file.txt").unwrap(), "file.txt.bak");
    let d = BackupManager::with_backup_dir("/backups".to_string()).with_extension(".old".to_string());
    assert_eq!(d.backup_path("/data/file.txt").unwrap(), "/backups/file.txt.old");
    assert!(m.backup_path("/").is_err());
    assert_eq!(m.conflict_path("/b/f.bak", 42), "/b/f.bak.conflict.42");
    let info = BackupInfo {
        original_path: "a".to_string(),
        backup_path: "a.bak".to_string(),
        created_at: 100,
        size_bytes: 3,
    };
    assert_eq!(info.age_seconds(160), 60);
    assert_eq!(info.age_seconds(50), 0);
}

#[test]
fn verification_status_validity() {
    let mut s = FileVerificationStatus {
        file_path: "f.cage".to_string(),
        is_encrypted: true,
        format_valid: true,
        header_valid: true,
        size_check: true,
        error_message: None,
    };
    assert!(s.is_valid());
    s.error_message = Some("bad".to_string());
    assert!(!s.is_valid());
}

#[test]
fn operation_tallies() {
    let mut status = RepositoryStatus::new();
    assert!(status.is_fully_decrypted());
    assert!(!status.is_fully_encrypted());
    status.total_files = 4;
    status.encrypted_files = 4;
    assert!(status.is_fully_encrypted());
    status.encrypted_files = 1;
    assert_eq!(status.encryption_permille(), 250);

    let mut result = OperationResult::new();
    result.add_success("a".to_string());
    result.finalize(5);
    assert!(result.success);
    result.add_failure("b".to_string());
    result.finalize(7);
    assert!(!result.success);
    assert_eq!(result.total_processed, 1);
    assert_eq!(result.execution_time_ms, 7);
}

#[test]
fn in_place_safety() {
    let recovery = RecoveryManager::new(true, false);
    assert!(recovery.check_allowed().is_ok());
    assert!(RecoveryManager::new(true, true).check_allowed().is_err());
    assert_eq!(recovery.recovery_path("/d/file.txt"), "/d/file.tmp.recover");
    let text = recovery.recovery_content("f.txt", "encrypt", "pw", "2024-01-01 00:00:00 UTC");
    assert!(text.contains("# cage unlock f.txt pw"));

    let validator = SafetyValidator::new(true, false, true);
    assert!(validator.needs_confirmation());
    assert!(validator.validate_in_place_operation("f", true, Some("  DELETE MY FILE\n")).is_ok());
    assert!(validator.validate_in_place_operation("f", true, Some("no")).is_err());
    assert!(validator.validate_in_place_operation("f", false, None).is_err());
    assert!(SafetyValidator::new(true, true, false).validate_in_place_operation("f", true, None).is_err());
    assert!(SafetyValidator::new(false, false, false).validate_in_place_operation("f", true, None).is_ok());

    let mut op = InPlaceOperation::new("/d/file.txt");
    assert_eq!(op.temp_path(), "/d/file.tmp.cage");
    op.set_recovery_file("/d/file.tmp.recover".to_string());
    assert_eq!(op.rollback_targets(), vec!["/d/file.tmp.cage", "/d/file.tmp.recover"]);
    op.mark_completed();
    assert!(op.rollback_targets().is_empty());
    let opts = InPlaceOptions::default();
    assert!(!opts.enabled);
}

#[test]
fn keygen_request_validation_export_with_register() {
    let service = KeygenService::default();
    let request = KeygenRequest {
        export_mode: true,
        register_groups: vec!["test-group".to_string()],
        ..Default::default()
    };

    let result = service.generate(&request);
    assert!(result.is_err());
    let err = result.unwrap_err();
    assert!(matches!(err, KeygenError::InvalidRequest(_)));
    assert!(err.message().contains("export"));
    assert!(err.message().contains("register"));
}

#[test]
fn keygen_request_validation_recipients_only_with_register() {
    let service = KeygenService::default();
    let request = KeygenRequest {
        recipients_only: true,
        register_groups: vec!["test-group".to_string()],
        ..Default::default()
    };

    let result = service.generate(&request);
    assert!(result.is_err());
    let err = result.unwrap_err();
    assert!(matches!(err, KeygenError::InvalidRequest(_)));
}

#[test]
fn default_path_has_expected_extension() {
    let path = default_identity_path(1_700_000_000);
    assert!(path.ends_with(".agekey"));
    assert_eq!(path, "identity-1700000000.agekey");
}

#[test]
fn keygen_binary_check() {
    let result = check_age_keygen_available(false);
    if let Err(e) = result {
        assert!(matches!(e, KeygenError::BinaryNotFound(_)));
        assert!(e.message().contains("age-keygen"));
    }
}

#[test]
fn keygen_plans_and_groups() {
    let service = KeygenService::default();
    assert_eq!(
        service.generate(&KeygenRequest::default()).unwrap(),
        KeygenPlan::Generate(OutputChoice::Default)
    );
    let export = KeygenRequest { export_mode: true, ..Default::default() };
    assert_eq!(service.generate(&export).unwrap(), KeygenPlan::Generate(OutputChoice::Export));
    let recips = KeygenRequest { recipients_only: true, ..Default::default() };
    assert_eq!(service.generate(&recips).unwrap_err(), KeygenError::NotImplemented);
    let groups = vec!["a".to_string(), "b".to_string()];
    assert!(service.register_with_groups(&groups, &vec![true, true]).is_err());
    let configured = KeygenService::new(Some(AgeConfig::default()));
    assert_eq!(configured.register_with_groups(&groups, &vec![true, true]).unwrap(), groups);
    assert_eq!(
        configured.register_with_groups(&groups, &vec![true, false]).unwrap_err(),
        KeygenError::InvalidGroup("b".to_string())
    );
}

#[test]
fn repository_file_rules() {
    assert!(skips_directory(".cache"));
    assert!(skips_directory("node_modules"));
    assert!(!skips_directory("src"));
    assert!(has_age_extension("a/b.txt.age"));
    assert!(!has_age_extension("a/b.txt"));
    assert_eq!(encrypted_output_path("a/file.txt"), "a/file.txt.age");
    assert_eq!(decrypted_output_path("a/file.txt.age"), "a/file.txt");
    assert!(repository_outcome("encrypt", "/r", 3, 0).is_ok());
    match repository_outcome("decrypt", "/r", 2, 1) {
        Err(cage::error::AgeError::RepositoryOperationFailed { operation, reason, .. }) => {
            assert_eq!(operation, "decrypt");
            assert_eq!(reason, "Processed: 2, Failed: 1");
        }
        _ => panic!("expected failure"),
    }
}

#[test]
fn test_repository_status_calculation() {
    let mut status = RepositoryStatus::new();
    status.total_files = 10;
    status.encrypted_files = 7;
    status.unencrypted_files = 3;

    assert_eq!(status.encryption_permille() as f64 / 10.0, 70.0);
    assert!(!status.is_fully_encrypted());
    assert!(!status.is_fully_decrypted());

    status.encrypted_files = 10;
    status.unencrypted_files = 0;
    assert!(status.is_fully_encrypted());

    status.encrypted_files = 0;
    status.unencrypted_files = 10;
    assert!(status.is_fully_decrypted());
}

#[test]
fn repository_status_from_contents() {
    let entries = vec![
        ("r/a.age".to_string(), Ok(b"age-encryption.org/v1\nx".to_vec())),
        ("r/b.txt".to_string(), Ok(b"plain".to_vec())),
        ("r/c".to_string(), Err(cage::error::AgeError::HealthCheckFailed("io".to_string()))),
    ];
    let status = repository_status_of(&entries);
    assert_eq!(status.total_files, 3);
    assert_eq!(status.encrypted_files, 1);
    assert_eq!(status.unencrypted_files, 1);
    assert_eq!(status.failed_files, vec!["r/c".to_string()]);
}
