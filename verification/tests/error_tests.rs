use cage::error::AgeError;

#[test]
fn test_error_display() {
    let err = AgeError::AgeBinaryNotFound("not in PATH".to_string());
    let display = err.message();
    assert!(display.contains("Age binary not found"));
    assert!(display.contains("Please install Age encryption tool"));
}

#[test]
fn test_error_helper_functions() {
    let path = "/test/path".to_string();
    let err = AgeError::file_error("read", &path, "file not found".to_string());
    match err {
        AgeError::FileError { operation, path: err_path, .. } => {
            assert_eq!(operation, "read");
            assert_eq!(err_path, path);
        }
        _ => panic!("Expected FileError"),
    }
}

#[test]
fn test_passphrase_validation_error() {
    let err = AgeError::passphrase_validation("too long", "use shorter passphrase");
    let display = err.message();
    assert!(display.contains("too long"));
    assert!(display.contains("use shorter passphrase"));
}

#[test]
fn test_injection_blocked_error() {
    let err = AgeError::injection_blocked("command_injection", "; rm -rf /");
    let display = err.message();
    assert!(display.contains("command_injection"));
    assert!(display.contains("; rm -rf /"));
}
