use std::cell::RefCell;

use cage::adapter::AgeAdapter;
use cage::adapter_v2::{AdapterV1Compat, AgeAdapterV2, HealthStatus};
use cage::audit::{AuditLogger, EventValue, TelemetryFormat};
use cage::chunker::file_chunking::ChunkedStreamSweep;
use cage::config::OutputFormat;
use cage::error::{AgeError, AgeResult};
use cage::progress::manager::ProgressManager;
use cage::progress::styles::ProgressStyle;
use cage::operations::{
    FileDecryptOperation, FileEncryptOperation, file_decrypt_preconditions, file_encrypt_preconditions, file_output_check, repository_preconditions, Operation,
};
use cage::requests::{Identity, Recipient};
use cage::security::SecurityValidator;

/// A second-interface backend that records what it was handed.
struct RecordingV2 {
    seen: RefCell<Vec<String>>,
    healthy: bool,
}

impl AgeAdapterV2 for RecordingV2 {
    fn encrypt_file(
        &self,
        input: &str,
        output: &str,
        identity: &Identity,
        recipients: Option<&Vec<Recipient>>,
        format: OutputFormat,
    ) -> AgeResult<()> {
        let id = match identity {
            Identity::Passphrase(p) => format!("passphrase:{}", p),
            _ => "other".to_string(),
        };
        self.seen.borrow_mut().push(format!(
            "encrypt {} {} {} recipients:{} {:?}",
            input,
            output,
            id,
            recipients.is_some(),
            format
        ));
        Ok(())
    }

    fn decrypt_file(&self, input: &str, output: &str, identity: &Identity) -> AgeResult<()> {
        let id = match identity {
            Identity::Passphrase(p) => format!("passphrase:{}", p),
            _ => "other".to_string(),
        };
        self.seen.borrow_mut().push(format!("decrypt {} {} {}", input, output, id));
        Err(AgeError::HealthCheckFailed("no key".to_string()))
    }

    fn health_check(&self) -> AgeResult<HealthStatus> {
        Ok(HealthStatus {
            healthy: self.healthy,
            age_binary: true,
            age_version: None,
            can_encrypt: true,
            can_decrypt: true,
            streaming_available: false,
            errors: vec!["age missing".to_string(), "no tty".to_string()],
        })
    }

    fn adapter_name(&self) -> &'static str {
        "recording"
    }

    fn adapter_version(&self) -> String {
        "9".to_string()
    }
}

#[test]
fn compat_hands_a_passphrase_identity_without_recipients() {
    let inner = RecordingV2 { seen: RefCell::new(Vec::new()), healthy: false };
    let compat = AdapterV1Compat::new(inner);
    assert!(compat.encrypt("a.txt", "a.txt.cage", "pw", OutputFormat::AsciiArmor).is_ok());
    assert!(compat.decrypt("a.txt.cage", "a.txt", "pw").is_err());
    match compat.health_check() {
        Err(AgeError::HealthCheckFailed(m)) => assert_eq!(m, "age missing, no tty"),
        other => panic!("unexpected {:?}", other),
    }
    assert_eq!(compat.adapter_name(), "recording");
    assert_eq!(compat.adapter_version(), "9");
}

/// An operation whose three steps answer as told and are logged.
struct Steps {
    answers: [bool; 3],
    log: RefCell<Vec<&'static str>>,
}

impl Steps {
    fn answer(&self, i: usize, name: &'static str) -> AgeResult<()> {
        self.log.borrow_mut().push(name);
        if self.answers[i] {
            Ok(())
        } else {
            Err(AgeError::HealthCheckFailed(name.to_string()))
        }
    }
}

impl Operation for Steps {
    fn operation_name(&self) -> &'static str {
        "steps"
    }

    fn validate_preconditions(&self) -> AgeResult<()> {
        self.answer(0, "before")
    }

    fn execute(&self) -> AgeResult<()> {
        self.answer(1, "run")
    }

    fn validate_postconditions(&self) -> AgeResult<()> {
        self.answer(2, "after")
    }
}

#[test]
fn perform_stops_at_the_first_failure() {
    let ok = Steps { answers: [true, true, true], log: RefCell::new(Vec::new()) };
    assert!(ok.perform().is_ok());
    assert_eq!(*ok.log.borrow(), vec!["before", "run", "after"]);

    let failing = Steps { answers: [true, false, true], log: RefCell::new(Vec::new()) };
    match failing.perform() {
        Err(AgeError::HealthCheckFailed(m)) => assert_eq!(m, "run"),
        other => panic!("unexpected {:?}", other),
    }
    assert_eq!(*failing.log.borrow(), vec!["before", "run"]);
}

struct Healthy;

impl AgeAdapter for Healthy {
    fn encrypt(&self, _: &str, _: &str, _: &str, _: OutputFormat) -> AgeResult<()> {
        Ok(())
    }

    fn decrypt(&self, _: &str, _: &str, _: &str) -> AgeResult<()> {
        Ok(())
    }

    fn health_check(&self) -> AgeResult<()> {
        Ok(())
    }

    fn adapter_name(&self) -> &'static str {
        "healthy"
    }

    fn adapter_version(&self) -> String {
        "1".to_string()
    }
}

fn read_source(e: AgeError) -> String {
    match e {
        AgeError::FileError { operation, source, .. } => {
            assert_eq!(operation, "read");
            source
        }
        other => panic!("unexpected {:?}", other),
    }
}

#[test]
fn operation_checks_in_order() {
    let v = SecurityValidator::new(true);
    let a = Healthy;
    assert_eq!(read_source(file_encrypt_preconditions(&a, &v, "in", "out", "pw", false, false).unwrap_err()), "Input file not found");
    assert_eq!(read_source(file_encrypt_preconditions(&a, &v, "in", "out", "pw", true, false).unwrap_err()), "Input path is not a file");
    assert!(matches!(
        file_encrypt_preconditions(&a, &v, "in", "../out", "pw", true, true),
        Err(AgeError::SecurityValidationFailed { .. })
    ));
    assert!(matches!(
        file_encrypt_preconditions(&a, &v, "in", "out", "a;b", true, true),
        Err(AgeError::InjectionAttemptBlocked { .. })
    ));
    assert!(file_encrypt_preconditions(&a, &v, "in", "out", "pw", true, true).is_ok());
    assert!(file_decrypt_preconditions(&a, &v, "in", "out", "pw", true).is_ok());
    assert_eq!(read_source(repository_preconditions(&a, &v, "repo", "pw", true, false).unwrap_err()), "Repository path is not a directory");

    assert!(file_output_check(true, "in", "out", Some(10)).is_ok());
    match file_output_check(true, "in", "out", None) {
        Err(AgeError::EncryptionFailed { reason, .. }) => assert_eq!(reason, "Output file was not created"),
        other => panic!("unexpected {:?}", other),
    }
    match file_output_check(false, "in", "out", Some(0)) {
        Err(AgeError::DecryptionFailed { reason, .. }) => assert_eq!(reason, "Output file is empty"),
        other => panic!("unexpected {:?}", other),
    }
}

fn text(v: &EventValue) -> String {
    match v {
        EventValue::Text(s) => s.clone(),
        other => panic!("not text: {:?}", other),
    }
}

#[test]
fn json_events_carry_their_fields() {
    let logger = AuditLogger::with_format(TelemetryFormat::Json);
    let e = logger.json_operation_start("encrypt", "/tmp/a");
    assert_eq!(e.level, "INFO");
    let names: Vec<&str> = e.fields.iter().map(|(n, _)| n.as_str()).collect();
    assert_eq!(names, vec!["event_type", "operation", "path"]);
    assert_eq!(text(&e.fields[0].1), "operation_start");

    let recipients = vec!["age1b".to_string(), "age1a".to_string()];
    let e = logger.json_encryption_event("/tmp/a", Some(&recipients), "passphrase", true, Some("pipe"), None);
    let names: Vec<&str> = e.fields.iter().map(|(n, _)| n.as_str()).collect();
    assert_eq!(
        names,
        vec!["event_type", "path", "identity_type", "recipient_count", "recipient_group_hash", "success", "streaming_strategy"]
    );
    assert!(matches!(e.fields[3].1, EventValue::Count(2)));
    assert_eq!(text(&e.fields[4].1).len(), 32);

    let e = logger.json_encryption_event("/tmp/a", None, "passphrase", false, None, Some("X"));
    assert!(matches!(e.fields[4].1, EventValue::Null));
    assert_eq!(e.fields.last().unwrap().0, "authority_tier");

    let e = logger.json_operation_complete("lock", "/repo", &vec!["a".to_string()], 2, 7);
    assert!(matches!(e.fields[3].1, EventValue::Count(1)));
    assert!(matches!(e.fields[4].1, EventValue::Count(2)));
}

#[test]
fn stream_sweep_folds_every_chunk() {
    let sweep = ChunkedStreamSweep::new("doc.json", 6, 3);
    let data = vec![b"{\"a".to_vec(), b"\":}".to_vec()];
    let s = sweep.process(&data, None).unwrap();
    assert_eq!(s.total_bytes_processed, 6);
    assert_eq!(s.total_keys, 2);
    assert_eq!(s.max_depth_seen, 1);
    assert_eq!(s.key_frequencies.len(), 2);
    assert_eq!(s.key_frequencies[0], ("chunk_0_pattern".to_string(), 1));
}

#[test]
fn stamped_audit_lines_and_records() {
    let logger = AuditLogger::new();
    let entry = logger.log_info("hello");
    assert_eq!(logger.text_line_at(1431648000, &entry), "[2015-05-15 00:00:00 UTC] [INFO] [cage_automation] hello\n");
    let event = logger.json_message(&entry);
    let record = logger.json_record(&event, 1431648000, 0);
    let names: Vec<&str> = record.iter().map(|(n, _)| n.as_str()).collect();
    assert_eq!(names, vec!["message", "timestamp", "level", "component"]);
    assert_eq!(text(&record[1].1), "2015-05-15T00:00:00+00:00");
    let fine = logger.json_record(&event, 1431648000, 250_000_000);
    assert_eq!(text(&fine[1].1), "2015-05-15T00:00:00.250+00:00");
    assert_eq!(text(&record[3].1), "cage_automation");

    let recovery = cage::in_place::RecoveryManager::new(true, false);
    let content = recovery.recovery_content_at("secret.txt", "encrypt", "pw", 1431648000);
    assert!(content.contains("# Generated: 2015-05-15 00:00:00 UTC\n"));
}

struct Disk {
    present: bool,
    output_size: Option<u64>,
}

impl cage::operations::PathFacts for Disk {
    fn path_exists(&self, _path: &str) -> bool {
        self.present
    }

    fn is_file(&self, _path: &str) -> bool {
        self.present
    }

    fn size(&self, _path: &str) -> Option<u64> {
        self.output_size
    }
}

#[test]
fn file_operations_run_their_checks() {
    let op = FileEncryptOperation::new(Healthy, Disk { present: true, output_size: Some(40) }, "a", "a.age", "pw", OutputFormat::Binary);
    assert_eq!(op.operation_name(), "file_encrypt");
    assert!(op.perform().is_ok());
    let op = FileEncryptOperation::new(Healthy, Disk { present: true, output_size: Some(0) }, "a", "a.age", "pw", OutputFormat::Binary);
    match op.perform() {
        Err(AgeError::EncryptionFailed { reason, .. }) => assert_eq!(reason, "Output file is empty"),
        other => panic!("unexpected {:?}", other),
    }
    let op = FileDecryptOperation::new(Healthy, Disk { present: false, output_size: None }, "a.age", "a", "pw");
    assert_eq!(read_source(op.perform().unwrap_err()), "Input file not found");
}

#[test]
fn touched_tasks_carry_the_time_of_change() {
    let mut m = ProgressManager::new();
    let t = m.start_task("t", &ProgressStyle::Bar { total: 10 }, 100);
    assert!(m.touch_task(t.id(), 700));
    let e = m.update_task(t.id(), 5, "half").unwrap();
    assert_eq!(e.timestamp, 700);
    assert_eq!(m.get_task(t.id()).unwrap().elapsed(), 600);
    assert!(!m.touch_task(999, 800));
}
