//! The encryption engine: a backend checked at start, under a validated
//! configuration, that refuses unacceptable passphrases before encrypting or
//! decrypting.
use vstd::prelude::*;
use crate::adapter::AgeAdapter;
use crate::config::{config_error, validation_error, AgeConfig, OutputFormat};
use crate::crud::{passphrase_invalid, validate_engine_passphrase};
use crate::error::{AgeError, AgeResult};
use crate::text::{contains_sub, dec_digits, owned};

verus! {

/// `e` is the refusal of passphrase `p` under a limit of `max` bytes.
pub open spec fn engine_refusal(p: &str, max: usize, e: AgeError) -> bool {
    ||| p.len() == 0 && passphrase_invalid(e, "Empty passphrase"@, "Provide a non-empty passphrase"@)
    ||| 0 < p.len() && p.len() > max && passphrase_invalid(
        e,
        "Passphrase too long ("@ + dec_digits(p.len() as nat) + " chars)"@,
        "Use passphrase with max "@ + dec_digits(max as nat) + " characters"@,
    )
    ||| 0 < p.len() <= max && contains_sub(p@, "\0"@) && (e matches AgeError::InjectionAttemptBlocked {
        attack_type,
        detected_pattern,
    } && attack_type@ == "null_byte"@ && detected_pattern@ == "\\0"@)
}

/// The engine accepts passphrase `p` under a limit of `max` bytes.
pub open spec fn engine_accepts(p: &str, max: usize) -> bool {
    0 < p.len() <= max && !contains_sub(p@, "\0"@)
}

/// Encryption and decryption through a backend, with the passphrase checked
/// first.
pub struct AgeAutomator<A: AgeAdapter> {
    adapter: A,
    config: AgeConfig,
}

impl<A: AgeAdapter> AgeAutomator<A> {
    pub closed spec fn spec_config(&self) -> AgeConfig {
        self.config
    }

    /// The encryption backend.
    pub closed spec fn spec_adapter(&self) -> A {
        self.adapter
    }

    /// An engine over `adapter` with `config`: an invalid configuration is
    /// refused, and so is a backend whose health check fails.
    pub fn new(adapter: A, config: AgeConfig) -> (r: AgeResult<Self>)
        ensures
            validation_error(config) matches Some((p, v, why)) ==> (r matches Err(e) && config_error(
                e,
                p,
                v,
                why,
            )),
            r matches Ok(a) ==> validation_error(config) is None && a.spec_config() == config
                && a.spec_adapter() == adapter && adapter.checks_health(Ok(())),
            validation_error(config) is None ==> (r matches Err(e) ==> adapter.checks_health(Err(e))),
    {
        match config.validate() {
            Ok(()) => {},
            Err(e) => {
                return Err(e);
            },
        }
        let health = adapter.health_check();
        let ghost g = health;
        match health {
            Ok(()) => {},
            Err(e) => {
                return Err(e);
            },
        }
        proof {
            let u = g->Ok_0;
            assert(u == ());
            assert(g == Ok::<(), AgeError>(u));
        }
        Ok(AgeAutomator { adapter, config })
    }

    /// Checks a passphrase: not empty, within the configured length, without
    /// a null character.
    pub fn validate_passphrase(&self, passphrase: &str) -> (r: AgeResult<()>)
        ensures
            engine_accepts(passphrase, self.spec_config().max_passphrase_length) ==> r is Ok,
            !engine_accepts(passphrase, self.spec_config().max_passphrase_length) ==> (r matches Err(e)
                && engine_refusal(passphrase, self.spec_config().max_passphrase_length, e)),
    {
        validate_engine_passphrase(passphrase, self.config.max_passphrase_length)
    }

    /// Encrypts `input` into `output`; a refused passphrase never reaches the
    /// backend.
    pub fn encrypt(&self, input: &str, output: &str, passphrase: &str, format: OutputFormat) -> (r: AgeResult<()>)
        ensures
            !engine_accepts(passphrase, self.spec_config().max_passphrase_length) ==> (r matches Err(e)
                && engine_refusal(passphrase, self.spec_config().max_passphrase_length, e)),
            engine_accepts(passphrase, self.spec_config().max_passphrase_length) ==> self.spec_adapter().encrypts(
                input@,
                output@,
                passphrase@,
                format,
                r,
            ),
    {
        match self.validate_passphrase(passphrase) {
            Ok(()) => {},
            Err(e) => {
                return Err(e);
            },
        }
        self.adapter.encrypt(input, output, passphrase, format)
    }

    /// Decrypts `input` into `output`; a refused passphrase never reaches the
    /// backend.
    pub fn decrypt(&self, input: &str, output: &str, passphrase: &str) -> (r: AgeResult<()>)
        ensures
            !engine_accepts(passphrase, self.spec_config().max_passphrase_length) ==> (r matches Err(e)
                && engine_refusal(passphrase, self.spec_config().max_passphrase_length, e)),
            engine_accepts(passphrase, self.spec_config().max_passphrase_length) ==> self.spec_adapter().decrypts(
                input@,
                output@,
                passphrase@,
                r,
            ),
    {
        match self.validate_passphrase(passphrase) {
            Ok(()) => {},
            Err(e) => {
                return Err(e);
            },
        }
        self.adapter.decrypt(input, output, passphrase)
    }

    /// The backend's health check.
    pub fn health_check(&self) -> (r: AgeResult<()>)
        ensures
            self.spec_adapter().checks_health(r),
    {
        self.adapter.health_check()
    }

    /// `name (version)` of the backend.
    pub fn adapter_info(&self) -> (r: String)
        ensures
            exists|name: Seq<char>, version: Seq<char>|
                #![trigger self.spec_adapter().names(name), self.spec_adapter().versions(version)]
                self.spec_adapter().names(name) && self.spec_adapter().versions(version) && r@ == name
                    + " ("@ + version + ")"@,
    {
        let name = self.adapter.adapter_name();
        let version = self.adapter.adapter_version();
        let mut s = owned(name);
        s.append(" (");
        s.append(version.as_str());
        s.append(")");
        assert(s@ == name@ + " ("@ + version@ + ")"@);
        assert(self.spec_adapter().names(name@) && self.spec_adapter().versions(version@));
        s
    }
}

} // verus!
