use std::cell::RefCell;
use std::rc::Rc;

use cage::adapter::AgeAdapter;
use cage::config::{AgeConfig, OutputFormat};
use cage::crud::{validate_passphrase, verify_age_ascii_header, verify_age_binary_header};
use cage::crud_manager::{
    check_rotated_content, rotation_paths, verification_failure, verify_file_integrity, CrudManager,
    PathKind, RotationTally, VerifyInput,
};
use cage::error::{AgeError, AgeResult};
use cage::lifecycle::{BackupAction, BackupStep, LockOptions, UnlockOptions};
use cage::operations::OperationResult;

/// A backend that records its calls and fails on inputs it was told to.
struct FakeAdapter {
    fail_inputs: Vec<String>,
    calls: Rc<RefCell<Vec<String>>>,
}

impl FakeAdapter {
    fn new(fail_inputs: &[&str], calls: Rc<RefCell<Vec<String>>>) -> Self {
        FakeAdapter { fail_inputs: fail_inputs.iter().map(|s| s.to_string()).collect(), calls }
    }

    fn outcome(&self, input: &str) -> AgeResult<()> {
        if self.fail_inputs.iter().any(|f| f == input) {
            Err(AgeError::HealthCheckFailed(format!("refused {}", input)))
        } else {
            Ok(())
        }
    }
}

impl AgeAdapter for FakeAdapter {
    fn encrypt(&self, input: &str, output: &str, _passphrase: &str, _format: OutputFormat) -> AgeResult<()> {
        self.calls.borrow_mut().push(format!("encrypt {} -> {}", input, output));
        self.outcome(input)
    }

    fn decrypt(&self, input: &str, output: &str, _passphrase: &str) -> AgeResult<()> {
        self.calls.borrow_mut().push(format!("decrypt {} -> {}", input, output));
        self.outcome(input)
    }

    fn health_check(&self) -> AgeResult<()> {
        Ok(())
    }

    fn adapter_name(&self) -> &'static str {
        "FakeAdapter"
    }

    fn adapter_version(&self) -> String {
        "fake-1".to_string()
    }
}

fn manager(fail_inputs: &[&str]) -> CrudManager<FakeAdapter> {
    logged_manager(fail_inputs).0
}

fn logged_manager(fail_inputs: &[&str]) -> (CrudManager<FakeAdapter>, Rc<RefCell<Vec<String>>>) {
    let calls = Rc::new(RefCell::new(Vec::new()));
    (CrudManager::new(FakeAdapter::new(fail_inputs, calls.clone()), AgeConfig::default()), calls)
}

const FILE: PathKind = PathKind { exists: true, is_file: true, is_dir: false };
const DIR: PathKind = PathKind { exists: true, is_file: false, is_dir: true };
const MISSING: PathKind = PathKind { exists: false, is_file: false, is_dir: false };

fn strings(v: &[&str]) -> Vec<String> {
    v.iter().map(|s| s.to_string()).collect()
}

#[test]
fn test_crud_manager_creation() {
    let m = manager(&[]);
    assert!(m.get_operation_history().is_empty());
}

#[test]
fn crud_manager_test_passphrase_validation() {
    // Empty passphrase should fail
    assert!(validate_passphrase("").is_err());

    // Normal passphrase should pass
    assert!(validate_passphrase("valid_passphrase").is_ok());

    // Very long passphrase should fail
    let long_passphrase = "a".repeat(2000);
    assert!(validate_passphrase(&long_passphrase).is_err());
}

#[test]
fn test_key_rotation_validation() {
    let m = manager(&[]);
    let result = m.rotation_check("/repo", DIR, &strings(&["/repo/a.cage"]), "same_pass", "same_pass");
    assert!(result.is_err());
    assert!(result.unwrap_err().message().contains("must be different"));
}

#[test]
fn crud_manager_test_encrypted_file_detection() {
    assert!(!cage::crud::is_age_content(b"plain text content"));
    assert!(cage::crud::is_age_content(b"age-encryption.org/v1\nrest"));
}

#[test]
fn test_file_verification_system() {
    // Verification of a non-encrypted file
    let result = verify_file_integrity("plain.txt", b"plain text content");
    assert!(!result.is_encrypted);
    assert!(!result.is_valid());
    assert!(result.error_message.is_some());

    // Verification of a file with the binary header
    let result = verify_file_integrity("a.cage", b"age-encryption.org/v1\ntest encrypted content");
    assert!(result.is_encrypted);
    assert!(result.format_valid);
    assert!(result.header_valid);

    // Verification of a file with the armor header
    let ascii_content = b"-----BEGIN AGE ENCRYPTED FILE-----\nencrypted content here\n-----END AGE ENCRYPTED FILE-----";
    let result = verify_file_integrity("b.cage", ascii_content);
    assert!(result.is_encrypted);
    assert!(result.format_valid);
    assert!(result.header_valid);
}

#[test]
fn test_verification_result_creation() {
    let m = manager(&[]);
    // A missing path
    let result = m.verify("/non/existent/path", false, VerifyInput::Tree(Vec::new()));
    assert!(result.is_err());

    // An empty directory
    let result = m.verify("/empty", true, VerifyInput::Tree(Vec::new())).unwrap();
    assert!(result.verified_files.is_empty());
    assert!(result.failed_files.is_empty());
}

#[test]
fn header_checks() {
    // too short
    assert!(!verify_age_binary_header(b"age-encryption.org/v1"));
    // first line feed at byte 21
    assert!(verify_age_binary_header(b"age-encryption.org/v1\n"));
    // no line feed at all
    assert!(!verify_age_binary_header(&[b'a'; 30]));
    // first line too long
    let mut long = b"age-encryption.org/v1".to_vec();
    long.extend(std::iter::repeat(b'x').take(100));
    long.push(b'\n');
    assert!(!verify_age_binary_header(&long));

    assert!(verify_age_ascii_header(
        b"-----BEGIN AGE ENCRYPTED FILE-----\r\nabc\r\n-----END AGE ENCRYPTED FILE-----\r\n"
    ));
    assert!(!verify_age_ascii_header(b"-----BEGIN AGE ENCRYPTED FILE-----\nabc\n"));
    assert!(!verify_age_ascii_header(
        b"-----BEGIN AGE ENCRYPTED FILE-----\nx-----END AGE ENCRYPTED FILE-----\n"
    ));
    assert!(!verify_age_ascii_header(
        b"-----BEGIN AGE ENCRYPTED FILE-----\n-----END AGE ENCRYPTED FILE-----\r"
    ));
    assert!(!verify_age_ascii_header(b""));
}

#[test]
fn verification_failure_texts() {
    let s = verify_file_integrity("x", b"-----BEGIN AGE ENCRYPTED FILE-----\nno end\n");
    assert!(!s.is_valid());
    assert_eq!(
        verification_failure(&s),
        "Verification failed: encrypted=true, format=true, header=false, size=true"
    );
    let plain = verify_file_integrity("y", b"hello");
    assert_eq!(verification_failure(&plain), "File does not appear to be Age encrypted");
}

#[test]
fn verify_single_file_and_tree() {
    let m = manager(&[]);
    let ok = m
        .verify("a.cage", true, VerifyInput::File(Ok(b"age-encryption.org/v1\nbody".to_vec())))
        .unwrap();
    assert_eq!(ok.verified_files, vec!["a.cage".to_string()]);
    assert_eq!(ok.authority_status, "Authority verification pending");
    assert_eq!(ok.overall_status, "Verification completed");

    let plain = m.verify("p.txt", true, VerifyInput::File(Ok(b"text".to_vec()))).unwrap();
    assert_eq!(plain.failed_files, vec!["p.txt: File does not appear to be Age encrypted".to_string()]);

    let unreadable = m
        .verify("u", true, VerifyInput::File(Err(AgeError::HealthCheckFailed("io".to_string()))))
        .unwrap();
    assert_eq!(unreadable.failed_files, vec!["u: Health check failed: io".to_string()]);

    let tree = vec![
        ("d/a.cage".to_string(), Ok(b"age-encryption.org/v1\nbody".to_vec())),
        ("d/plain.txt".to_string(), Ok(b"text".to_vec())),
        ("d/b.cage".to_string(), Ok(b"-----BEGIN AGE ENCRYPTED FILE-----\n".to_vec())),
    ];
    let r = m.verify("d", true, VerifyInput::Tree(tree)).unwrap();
    assert_eq!(r.verified_files, vec!["d/a.cage".to_string()]);
    assert_eq!(
        r.failed_files,
        vec!["d/b.cage: Verification failed: encrypted=true, format=true, header=false, size=true".to_string()]
    );

    let broken = vec![
        ("d/a.cage".to_string(), Ok(b"age-encryption.org/v1\nbody".to_vec())),
        ("d/x".to_string(), Err(AgeError::HealthCheckFailed("denied".to_string()))),
    ];
    let e = m.verify("d", true, VerifyInput::Tree(broken)).unwrap_err();
    assert_eq!(e.message(), "Health check failed: denied");
}

#[test]
fn lock_file_and_directory() {
    let mut m = manager(&[]);
    let r = m.lock("notes.txt", FILE, &Vec::new(), "secret", LockOptions::default(), 5).unwrap();
    assert_eq!(r.processed_files, vec!["notes.txt".to_string()]);
    assert!(r.failed_files.is_empty());
    let history = m.get_operation_history();
    assert_eq!(history.len(), 1);
    assert_eq!(history[0].operation_type, "lock");
    assert_eq!(history[0].timestamp, 5);

    // a directory needs the recursive flag
    let e = m.lock("dir", DIR, &strings(&["dir/a"]), "secret", LockOptions::default(), 6).unwrap_err();
    assert_eq!(e.message(), "Invalid operation 'lock': Directory requires --recursive flag");

    // recursive, filtered by pattern, one failure
    let (mut m, log) = logged_manager(&["dir/b_report.txt"]);
    let mut options = LockOptions::default();
    options.recursive = true;
    options.pattern_filter = Some("report".to_string());
    let files = strings(&["dir/a_report.txt", "dir/b_report.txt", "dir/other.txt"]);
    let r = m.lock("dir", DIR, &files, "secret", options, 7).unwrap();
    assert_eq!(r.processed_files, vec!["dir/a_report.txt".to_string()]);
    assert_eq!(r.failed_files, vec!["dir/b_report.txt".to_string()]);
    let calls = log.borrow().clone();
    assert!(calls.contains(&"encrypt dir/a_report.txt -> dir/a_report.txt.cage".to_string()));
    assert!(!calls.iter().any(|c| c.contains("other")));

    // missing path and bad passphrase
    let e = m.lock("gone", MISSING, &Vec::new(), "secret", LockOptions::default(), 8).unwrap_err();
    assert_eq!(e.message(), "File operation 'read' failed on 'gone': Path not found");
    assert!(m.lock("f", FILE, &Vec::new(), "", LockOptions::default(), 9).is_err());
}

#[test]
fn unlock_targets_and_checks() {
    let m = manager(&[]);
    let target = m.unlock_target("dir/report.txt.cage").unwrap();
    assert_eq!(target, "dir/report.txt");
    let e = m.unlock_target("dir/report.txt").unwrap_err();
    assert_eq!(
        e.message(),
        "Invalid operation 'unlock': File does not have .cage extension: dir/report.txt"
    );

    let mut m = manager(&[]);
    // nothing encrypted in the directory: refused when verifying first
    let e = m
        .unlock("dir", DIR, &strings(&["dir/a.txt"]), "secret", UnlockOptions::default(), 1)
        .unwrap_err();
    assert_eq!(e.message(), "Invalid operation 'unlock': No encrypted files found");

    let files = strings(&["dir/a.txt.cage", "dir/b.txt", "dir/c.cage"]);
    let r = m.unlock("dir", DIR, &files, "secret", UnlockOptions::default(), 2).unwrap();
    assert_eq!(r.processed_files, strings(&["dir/a.txt.cage", "dir/c.cage"]));
    let status = m.status("dir", DIR, &files).unwrap();
    assert_eq!(status.total_files, 3);
    assert_eq!(status.encrypted_files, 2);
    assert_eq!(status.unencrypted_files, 1);
}

#[test]
fn batch_operations() {
    let mut m = manager(&["d/b.txt"]);
    let files = strings(&["d/a.txt", "d/b.txt"]);
    let r = m.batch_process("d", DIR, &files, None, "lock", "pw", 3).unwrap();
    assert_eq!(r.processed_files, strings(&["d/a.txt"]));
    assert_eq!(r.failed_files.len(), 2);
    assert_eq!(r.failed_files[0], "d/b.txt");
    assert_eq!(r.failed_files[1], "Failed to lock d/b.txt: Health check failed: refused d/b.txt");
    let last = m.get_operation_history().last().unwrap();
    assert_eq!(last.operation_type, "batch_lock");

    let e = m.batch_process("d", DIR, &files, None, "shred", "pw", 4).unwrap_err();
    assert_eq!(e.message(), "Invalid operation 'batch': Unsupported batch operation: shred");
    // with no files the operation is never looked at
    assert!(m.batch_process("d", DIR, &Vec::new(), None, "shred", "pw", 5).is_ok());
    let e = m.batch_process("f", FILE, &files, None, "lock", "pw", 6).unwrap_err();
    assert_eq!(e.message(), "Invalid operation 'batch': Directory path required");
}

#[test]
fn authority_and_emergency() {
    let mut m = manager(&[]);
    let a = m.allow("age1xyz").unwrap();
    assert_eq!(a.operation, "allow");
    assert_eq!(a.authority_chain_status, "Authority integration pending");
    assert!(m.revoke("").is_err());

    let e = m.reset("/repo", DIR, "yes").unwrap_err();
    assert_eq!(e.message(), "Invalid operation 'reset': Reset requires explicit confirmation");
    let r = m.reset("/repo", DIR, "CONFIRM_RESET").unwrap();
    assert_eq!(r.affected_files, vec!["/repo".to_string()]);
    assert_eq!(r.recovery_actions, vec!["Emergency reset completed".to_string()]);

    assert!(m.emergency_unlock("/repo", FILE, "pw").is_err());
    let r = m.emergency_unlock("/repo", DIR, "pw").unwrap();
    assert_eq!(r.security_events, vec!["Emergency access authorized".to_string()]);
}

#[test]
fn rotation_pieces() {
    let paths = rotation_paths("repo/a.cage", "repo/.cage_rotation_backup").unwrap();
    assert_eq!(paths.backup, "repo/.cage_rotation_backup/a.cage");
    assert_eq!(paths.decrypted, "repo/.cage_rotation_backup/a.cage.tmp_decrypted");
    assert_eq!(paths.verify, "repo/.cage_rotation_backup/a.cage.tmp_verify");

    assert!(check_rotated_content(b"same", b"same").is_ok());
    let e = check_rotated_content(b"same", b"diff").unwrap_err();
    assert!(e.message().contains("Content mismatch after key rotation"));

    let m = manager(&["repo/bad.cage"]);
    let bad = rotation_paths("repo/bad.cage", "bk").unwrap();
    let e = m.rekey_file("repo/bad.cage", &bad, "old", "new").unwrap_err();
    assert!(e.message().contains("Failed to decrypt with old passphrase: "));
    assert!(m.rekey_file("repo/a.cage", &paths, "old", "new").is_ok());

    let e = m.rotation_check("/repo", DIR, &strings(&["/repo/a.txt"]), "old", "new").unwrap_err();
    assert_eq!(e.message(), "Invalid operation 'rotate': No encrypted files found to rotate");
    assert!(m.rotation_check("/repo", DIR, &strings(&["/repo/a.cage"]), "old", "new").is_ok());

    let mut tally = RotationTally::new();
    tally.record("a", &Ok(()));
    assert!(!tally.needs_rollback());
    let done = tally.finish("/repo", None).unwrap();
    assert_eq!(done.processed_files, strings(&["a"]));

    let mut tally = RotationTally::new();
    tally.record("a", &Ok(()));
    tally.record("b", &Err(AgeError::HealthCheckFailed("x".to_string())));
    assert!(tally.needs_rollback());
    match tally.finish("/repo", None).unwrap_err() {
        AgeError::BatchOperationFailed { successful_count, failed_count, failures, .. } => {
            assert_eq!(successful_count, 0);
            assert_eq!(failed_count, 1);
            assert_eq!(failures, strings(&["b: Health check failed: x"]));
        }
        other => panic!("unexpected {:?}", other),
    }
}

#[test]
fn rekey_requests_in_order() {
    let (m, log) = logged_manager(&[]);
    let paths = rotation_paths("repo/a.cage", "bk").unwrap();
    assert!(m.rekey_file("repo/a.cage", &paths, "old", "new").is_ok());
    assert_eq!(
        log.borrow().clone(),
        vec![
            "decrypt repo/a.cage -> bk/a.cage.tmp_decrypted".to_string(),
            "encrypt bk/a.cage.tmp_decrypted -> repo/a.cage".to_string(),
            "decrypt repo/a.cage -> bk/a.cage.tmp_verify".to_string(),
        ]
    );
}

#[test]
fn lock_and_unlock_write_beside_the_file() {
    let (mut m, log) = logged_manager(&[]);
    let r = m.lock("notes.txt", FILE, &Vec::new(), "secret", LockOptions::default(), 1).unwrap();
    assert_eq!(r.processed_files, strings(&["notes.txt"]));
    let r = m.unlock("notes.txt.cage", FILE, &Vec::new(), "secret", UnlockOptions::default(), 2).unwrap();
    assert_eq!(r.processed_files, strings(&["notes.txt.cage"]));
    assert_eq!(
        log.borrow().clone(),
        vec!["encrypt notes.txt -> notes.txt.cage".to_string(), "decrypt notes.txt.cage -> notes.txt".to_string()]
    );
    assert!(m.encrypt_to_path("a", "b", "secret", OutputFormat::Binary).is_ok());
    assert_eq!(log.borrow().last().unwrap(), "encrypt a -> b");
}

#[test]
fn backed_lock_fails_a_file_whose_backup_failed() {
    let (m, log) = logged_manager(&["bad.txt"]);
    let options = LockOptions::default();
    let targets = m.lock_targets("dir", DIR, &strings(&["dir/a.txt"]), "secret", &LockOptions { recursive: true, ..LockOptions::default() }).unwrap();
    assert_eq!(targets, strings(&["dir/a.txt"]));
    let mut result = OperationResult::new();
    let failed = BackupStep::Failed(AgeError::HealthCheckFailed("disk full".to_string()));
    let (r, action) = m.lock_backed_file("x.txt", "secret", &options, failed, true, &mut result);
    assert!(matches!(r, Err(AgeError::HealthCheckFailed(_))));
    assert_eq!(action, BackupAction::Keep);
    assert_eq!(result.failed_files, strings(&["x.txt"]));
    assert!(log.borrow().is_empty());
    let (r, action) = m.lock_backed_file("ok.txt", "secret", &options, BackupStep::Made, true, &mut result);
    assert!(r.is_ok());
    assert_eq!(action, BackupAction::Cleanup);
    let (r, action) = m.lock_backed_file("bad.txt", "secret", &options, BackupStep::Made, true, &mut result);
    assert!(r.is_err());
    assert_eq!(action, BackupAction::Restore);
    assert_eq!(result.processed_files, strings(&["ok.txt"]));
}
