use cage::cli::{
    format_option, in_place_target, lock_passphrase_source, lock_recipients, run_progress_style, split_list,
    unlock_identity, unlock_passphrase_source, proxy_age_args, proxy_needs_passphrase, InPlaceTarget,
    PassphraseSource, ProxyOptions,
};
use cage::config::{AgeConfig, OutputFormat};
use cage::crud::{
    check_rotation, check_rotation_targets, is_age_content, lock_scope, locked_path, rotation_outcome,
    validate_engine_passphrase, validate_passphrase, PathScope,
};
use cage::error::AgeError;
use cage::progress::styles::ProgressStyle;
use cage::requests::{Identity, Recipient};

#[test]
fn list_splitting() {
    assert_eq!(split_list(" a, b ,,c "), vec!["a", "b", "c"]);
    assert!(split_list("").is_empty());
    assert!(split_list(" , ").is_empty());
    assert_eq!(split_list("single"), vec!["single"]);
}

#[test]
fn lock_recipient_options() {
    let r = lock_recipients("k1, k2", "m1", "file.txt", "");
    assert_eq!(r.len(), 4);
    assert!(matches!(&r[0], Recipient::PublicKey(k) if k == "k1"));
    assert!(matches!(&r[1], Recipient::PublicKey(k) if k == "k2"));
    assert!(matches!(&r[2], Recipient::PublicKey(k) if k == "m1"));
    assert!(matches!(&r[3], Recipient::RecipientsFile(p) if p == "file.txt"));

    let r = lock_recipients("", "a,b", "", "ssh-ed25519 X");
    assert_eq!(r.len(), 2);
    assert!(matches!(&r[0], Recipient::MultipleKeys(v) if v.len() == 2));
    assert!(matches!(&r[1], Recipient::SshRecipients(v) if v.len() == 1));
    assert!(lock_recipients("", "", "", "").is_empty());
}

#[test]
fn unlock_identity_options() {
    assert!(matches!(unlock_identity("id.txt", "ssh"), Some(Identity::IdentityFile(p)) if p == "id.txt"));
    assert!(matches!(unlock_identity("", "ssh"), Some(Identity::SshKey(p)) if p == "ssh"));
    assert!(unlock_identity("", "").is_none());
}

#[test]
fn option_decisions() {
    assert_eq!(format_option("ascii"), OutputFormat::AsciiArmor);
    assert_eq!(format_option("binary"), OutputFormat::Binary);
    assert_eq!(lock_passphrase_source(true, true, false, true, true), PassphraseSource::NotNeeded);
    assert_eq!(lock_passphrase_source(false, true, false, false, false), PassphraseSource::RefuseInsecure);
    assert_eq!(lock_passphrase_source(false, true, true, false, false), PassphraseSource::CommandLine);
    assert_eq!(lock_passphrase_source(false, false, false, false, true), PassphraseSource::Environment);
    assert_eq!(lock_passphrase_source(false, false, false, true, true), PassphraseSource::Stdin);
    assert_eq!(lock_passphrase_source(false, false, false, false, false), PassphraseSource::Prompt);
    assert_eq!(unlock_passphrase_source(false, false), PassphraseSource::Prompt);
    assert!(matches!(run_progress_style(3), ProgressStyle::Counter { total: 3 }));
    assert!(matches!(run_progress_style(1), ProgressStyle::Spinner));
    assert_eq!(in_place_target(true, true, false), InPlaceTarget::Directory);
    assert_eq!(in_place_target(false, true, false), InPlaceTarget::Missing);
    assert_eq!(in_place_target(false, false, true), InPlaceTarget::File);
}

#[test]
fn crud_rules() {
    assert!(validate_passphrase("").is_err());
    assert!(validate_passphrase(&"a".repeat(2000)).is_err());
    assert!(validate_passphrase("fine").is_ok());
    assert_eq!(locked_path("notes.txt", &AgeConfig::default()), "notes.txt.cage");
    assert_eq!(lock_scope("d", true, false, true, true).unwrap(), Some(PathScope::Repository));
    assert!(lock_scope("d", true, false, true, false).is_err());
    assert!(lock_scope("x", false, false, false, false).is_err());
    assert!(is_age_content(b"age-encryption.org/v1\n-> X25519"));
    assert!(is_age_content(b"-----BEGIN AGE ENCRYPTED FILE-----\n"));
    assert!(!is_age_content(b"plain text"));
    match check_rotation(true, "same_pass", "same_pass") {
        Err(AgeError::InvalidOperation { reason, .. }) => assert!(reason.contains("must be different")),
        _ => panic!("expected rejection"),
    }
    assert!(check_rotation(true, "old", "new").is_ok());
    assert!(check_rotation(false, "old", "new").is_err());
    assert!(check_rotation_targets(0).is_err());
    assert!(rotation_outcome(vec![]).is_ok());
    match rotation_outcome(vec!["a: failed".to_string()]) {
        Err(AgeError::BatchOperationFailed { successful_count, failed_count, .. }) => {
            assert_eq!(successful_count, 0);
            assert_eq!(failed_count, 1);
        }
        _ => panic!("expected batch failure"),
    }
    match validate_engine_passphrase("abcdef", 3) {
        Err(AgeError::PassphraseValidation { reason, guidance }) => {
            assert_eq!(reason, "Passphrase too long (6 chars)");
            assert_eq!(guidance, "Use passphrase with max 3 characters");
        }
        _ => panic!("expected too long"),
    }
    assert!(validate_engine_passphrase("a\0b", 10).is_err());
    assert!(validate_engine_passphrase("ok", 10).is_ok());
}

#[test]
fn proxy_arguments_from_options() {
    let options = ProxyOptions {
        passphrase: true,
        decrypt: false,
        armor: true,
        o: "/tmp/out.age".to_string(),
        output: String::new(),
        i: String::new(),
        identity: String::new(),
        r: String::new(),
        recipient: "age1x".to_string(),
    };
    let remaining = vec![
        "input.txt".to_string(),
        "--age-p".to_string(),
        "missing.txt".to_string(),
        "./target/debug/cage".to_string(),
    ];
    let exists = vec![true, true, false, true];
    let args = proxy_age_args(&options, &remaining, &exists);
    assert_eq!(args, vec!["-p", "-a", "-o", "/tmp/out.age", "--recipient", "age1x", "input.txt"]);
    assert!(proxy_needs_passphrase(&args));
    assert!(!proxy_needs_passphrase(&vec!["-r".to_string(), "age1x".to_string()]));
    assert!(proxy_needs_passphrase(&vec!["--decrypt".to_string()]));
}
