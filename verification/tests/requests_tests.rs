use cage::config::OutputFormat;
use cage::requests::{Identity, LockRequest, UnlockRequest};

#[test]
fn requests_test_lock_request_builder() {
    let request = LockRequest::new(
        "/test/file.txt".to_string(),
        Identity::Passphrase("test123".to_string()),
    )
    .recursive(true)
    .with_pattern("*.txt".to_string())
    .with_format(OutputFormat::AsciiArmor);

    assert!(request.recursive);
    assert_eq!(request.pattern, Some("*.txt".to_string()));
    assert_eq!(request.format, OutputFormat::AsciiArmor);
}

#[test]
fn requests_test_unlock_request_builder() {
    let request = UnlockRequest::new("/test/file.cage".to_string(), Identity::PromptPassphrase)
        .selective(true)
        .preserve_encrypted(true);

    assert!(request.selective);
    assert!(request.preserve_encrypted);
}

#[test]
fn requests_test_identity_variants() {
    let _pass = Identity::Passphrase("secret".to_string());
    let _file = Identity::IdentityFile("~/.age/key.txt".to_string());
    let _ssh = Identity::SshKey("~/.ssh/id_rsa".to_string());
    let _prompt = Identity::PromptPassphrase;
}
