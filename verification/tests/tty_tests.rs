use cage::config::OutputFormat;
use cage::error::AgeError;
use cage::tty_automation::{
    all_methods_failed, available_methods, check_automation_methods, escape_double_quotes, expect_decrypt_script,
    expect_encrypt_script, script_decrypt_command, script_encrypt_command,
};

#[test]
fn script_commands() {
    assert_eq!(
        script_encrypt_command("in.txt", "out.age", "pw", OutputFormat::AsciiArmor),
        "script -q -c \"age -p -a -o out.age in.txt << 'EOF'\npw\npw\nEOF\" /dev/null"
    );
    assert_eq!(
        script_decrypt_command("in.age", "out.txt", "pw"),
        "script -q -c \"age -d -o out.txt in.age << 'EOF'\npw\nEOF\" /dev/null"
    );
}

#[test]
fn expect_scripts() {
    assert_eq!(escape_double_quotes("a\"b"), "a\\\"b");
    let enc = expect_encrypt_script("in", "out", "p\"w", OutputFormat::Binary);
    assert!(enc.contains("spawn age -p -o out in\n"));
    assert!(enc.contains("send \"p\\\"w\\r\""));
    assert!(enc.contains("Confirm passphrase*"));
    let dec = expect_decrypt_script("in", "out", "pw");
    assert!(dec.contains("spawn age -d -o out in\n"));
    assert!(!dec.contains("Confirm passphrase*"));
}

#[test]
fn method_availability() {
    assert_eq!(available_methods(true, true), vec!["script", "expect"]);
    assert_eq!(available_methods(false, true), vec!["expect"]);
    assert!(check_automation_methods(false, true).is_ok());
    assert!(check_automation_methods(false, false).is_err());
    match all_methods_failed("x", "y") {
        AgeError::AllTtyMethodsFailed(v) => assert_eq!(v, vec!["script: x", "expect: y"]),
        _ => panic!("expected AllTtyMethodsFailed"),
    }
}
