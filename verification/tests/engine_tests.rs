use cage::adapter::AgeAdapter;
use cage::age_engine::AgeAutomator;
use cage::config::{AgeConfig, OutputFormat};
use cage::error::{AgeError, AgeResult};

/// A backend that accepts everything.
struct NullAdapter;

impl AgeAdapter for NullAdapter {
    fn encrypt(&self, _input: &str, _output: &str, _passphrase: &str, _format: OutputFormat) -> AgeResult<()> {
        Ok(())
    }

    fn decrypt(&self, _input: &str, _output: &str, _passphrase: &str) -> AgeResult<()> {
        Ok(())
    }

    fn health_check(&self) -> AgeResult<()> {
        Ok(())
    }

    fn adapter_name(&self) -> &'static str {
        "NullAdapter"
    }

    fn adapter_version(&self) -> String {
        "0".to_string()
    }
}

/// A backend whose health check fails.
struct SickAdapter;

impl AgeAdapter for SickAdapter {
    fn encrypt(&self, _input: &str, _output: &str, _passphrase: &str, _format: OutputFormat) -> AgeResult<()> {
        Ok(())
    }

    fn decrypt(&self, _input: &str, _output: &str, _passphrase: &str) -> AgeResult<()> {
        Ok(())
    }

    fn health_check(&self) -> AgeResult<()> {
        Err(AgeError::HealthCheckFailed("down".to_string()))
    }

    fn adapter_name(&self) -> &'static str {
        "SickAdapter"
    }

    fn adapter_version(&self) -> String {
        "0".to_string()
    }
}

#[test]
fn age_engine_test_automator_creation() {
    let config = AgeConfig::testing();
    let _result = AgeAutomator::new(NullAdapter, config);
}

#[test]
fn age_engine_test_passphrase_validation() {
    let config = AgeConfig::testing();
    if let Ok(automator) = AgeAutomator::new(NullAdapter, config) {
        assert!(automator.validate_passphrase("").is_err());

        assert!(automator.validate_passphrase("pass\0word").is_err());

        assert!(automator.validate_passphrase("ValidPassphrase123").is_ok());
    }
}

#[test]
fn engine_checks_before_the_backend() {
    assert!(AgeAutomator::new(SickAdapter, AgeConfig::testing()).is_err());
    let automator = AgeAutomator::new(NullAdapter, AgeConfig::testing()).unwrap();
    assert_eq!(automator.adapter_info(), "NullAdapter (0)");
    assert!(automator.encrypt("a", "b", "", OutputFormat::Binary).is_err());
    assert!(automator.encrypt("a", "b", "secret", OutputFormat::Binary).is_ok());
    assert!(automator.decrypt("a", "b", "sec\0ret").is_err());
    let mut bad = AgeConfig::testing();
    bad.max_passphrase_length = 0;
    assert!(AgeAutomator::new(NullAdapter, bad).is_err());
}
