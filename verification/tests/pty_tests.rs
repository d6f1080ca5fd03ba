use cage::cli::{lock_paths_check, short_passphrase_warning};
use cage::config::OutputFormat;
use cage::error::AgeError;
use cage::lifecycle::{backup_after_lock, BackupAction};
use cage::pty::{
    pty_decrypt_args, pty_encrypt_args, pty_outcome, pty_spawn_error, pty_step, PtyAction, PtyEvent, PtySession,
    DEFAULT_PTY_TIMEOUT_SECS,
};

fn writes(actions: &[PtyAction]) -> Vec<String> {
    actions
        .iter()
        .filter_map(|a| match a {
            PtyAction::Write(t) => Some(t.clone()),
            _ => None,
        })
        .collect()
}

#[test]
fn pty_session_answers_prompts() {
    let mut s = PtySession::new("secret", 0, DEFAULT_PTY_TIMEOUT_SECS, true);
    let a = pty_step(&mut s, PtyEvent::Output("Enter pass".to_string()), 10);
    assert!(writes(&a).is_empty());
    assert!(matches!(a.last(), Some(PtyAction::Wait)));
    assert_eq!(s.buffer(), "Enter pass");
    let a = pty_step(&mut s, PtyEvent::Output("phrase (leave empty): ".to_string()), 20);
    assert_eq!(writes(&a), vec!["secret\n".to_string()]);
    assert_eq!(s.buffer(), "");
    let a = pty_step(&mut s, PtyEvent::Output("Confirm passphrase: ".to_string()), 30);
    assert_eq!(writes(&a), vec!["secret\n".to_string()]);
    let a = pty_step(&mut s, PtyEvent::WouldBlock, 40);
    assert!(matches!(a.as_slice(), [PtyAction::Wait]));
    let a = pty_step(&mut s, PtyEvent::Eof, 50);
    assert!(matches!(a.as_slice(), [PtyAction::Finish]));
}

#[test]
fn pty_session_confirmation_only_when_encrypting() {
    let mut s = PtySession::new("pw", 0, 30, false);
    let a = pty_step(&mut s, PtyEvent::Output("confirm: ".to_string()), 5);
    assert!(writes(&a).is_empty());
    assert_eq!(s.buffer(), "confirm: ");
}

#[test]
fn pty_session_fails_on_timeout_and_read_errors() {
    let mut s = PtySession::new("pw", 1_000, 30, true);
    match pty_step(&mut s, PtyEvent::Output("Enter passphrase".to_string()), 31_001).as_slice() {
        [PtyAction::Fail(AgeError::ProcessExecutionFailed { command, stderr, exit_code })] => {
            assert_eq!(command, "pty_automation_timeout");
            assert_eq!(stderr, "PTY automation timed out after 30s");
            assert!(exit_code.is_none());
        }
        _ => panic!("expected a timeout"),
    }
    assert_eq!(s.buffer(), "");
    match pty_step(&mut s, PtyEvent::ReadError("broken".to_string()), 2_000).as_slice() {
        [PtyAction::Fail(AgeError::ProcessExecutionFailed { command, stderr, .. })] => {
            assert_eq!(command, "pty_read");
            assert_eq!(stderr, "PTY read error: broken");
        }
        _ => panic!("expected a read error"),
    }
}

#[test]
fn pty_start_failures_and_outcomes() {
    match pty_spawn_error("No viable candidates found in PATH") {
        AgeError::AgeBinaryNotFound(d) => assert_eq!(d, "age command not found: No viable candidates found in PATH"),
        other => panic!("unexpected {:?}", other),
    }
    match pty_spawn_error("permission denied") {
        AgeError::ProcessExecutionFailed { command, stderr, .. } => {
            assert_eq!(command, "age");
            assert_eq!(stderr, "Failed to spawn age: permission denied");
        }
        other => panic!("unexpected {:?}", other),
    }
    assert!(pty_outcome(true, "a", "a.age", Ok(()), true, true, "0").is_ok());
    match pty_outcome(true, "a", "a.age", Ok(()), true, false, "ExitStatus(0)") {
        Err(AgeError::EncryptionFailed { input, output, reason }) => {
            assert_eq!((input.as_str(), output.as_str()), ("a", "a.age"));
            assert_eq!(reason, "Age encryption failed with exit status: ExitStatus(0)");
        }
        other => panic!("unexpected {:?}", other),
    }
    match pty_outcome(false, "a.age", "a", Ok(()), false, true, "1") {
        Err(AgeError::DecryptionFailed { reason, .. }) => assert_eq!(reason, "Age decryption failed with exit status: 1"),
        other => panic!("unexpected {:?}", other),
    }
    assert!(matches!(
        pty_outcome(true, "a", "b", Err(AgeError::AgeBinaryNotFound("x".to_string())), true, true, "0"),
        Err(AgeError::AgeBinaryNotFound(_))
    ));
    assert_eq!(pty_encrypt_args("in", "out", OutputFormat::AsciiArmor), vec!["-p", "-a", "-o", "out", "in"]);
    assert_eq!(pty_encrypt_args("in", "out", OutputFormat::Binary), vec!["-p", "-o", "out", "in"]);
    assert_eq!(pty_decrypt_args("in", "out"), vec!["-d", "-o", "out", "in"]);
}

#[test]
fn lock_checks_and_backup_fates() {
    assert_eq!(lock_paths_check(0, true).unwrap_err(), "No paths provided for in-place lock operation");
    assert_eq!(lock_paths_check(0, false).unwrap_err(), "No paths provided for lock operation");
    assert!(lock_paths_check(2, true).is_ok());
    assert!(short_passphrase_warning(5).unwrap().contains("less than 8 characters"));
    assert!(short_passphrase_warning(8).is_none());
    assert_eq!(backup_after_lock(true, true, true), BackupAction::Cleanup);
    assert_eq!(backup_after_lock(true, true, false), BackupAction::Keep);
    assert_eq!(backup_after_lock(true, false, true), BackupAction::Restore);
    assert_eq!(backup_after_lock(false, false, true), BackupAction::Keep);
}
