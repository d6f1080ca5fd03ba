//! The library's error type, with the operator-facing message of each kind.
//!
//! Paths are held as strings, and an underlying I/O error as its message.
use vstd::prelude::*;
use crate::text::{dec_digits, join_spec, views};

verus! {

/// Every way an operation of the library can fail.
#[derive(Debug)]
pub enum AgeError {
    AgeBinaryNotFound(String),
    TtyMethodUnavailable { method: String, reason: String },
    AllTtyMethodsFailed(Vec<String>),
    FileError { operation: String, path: String, source: String },
    PassphraseValidation { reason: String, guidance: String },
    EncryptionFailed { input: String, output: String, reason: String },
    DecryptionFailed { input: String, output: String, reason: String },
    OutputVerificationFailed { expected_path: String, verification_type: String },
    SecurityValidationFailed { validation_type: String, details: String },
    InjectionAttemptBlocked { attack_type: String, detected_pattern: String },
    AuditLogFailed { operation: String, reason: String },
    ConfigurationError { parameter: String, value: String, reason: String },
    AdapterNotImplemented(String),
    InvalidAdapter(String),
    AdapterInitializationFailed { adapter_name: String, reason: String },
    BatchOperationFailed {
        operation: String,
        successful_count: usize,
        failed_count: usize,
        failures: Vec<String>,
    },
    DependencyMissing { dependency: String, installation_guide: String },
    TemporaryResourceError { resource_type: String, operation: String, reason: String },
    ProcessExecutionFailed { command: String, exit_code: Option<i32>, stderr: String },
    OperationTimeout { operation: String, timeout_seconds: u64 },
    PermissionDenied { operation: String, path: String, suggestion: String },
    IoError { operation: String, context: String, source: String },
    RepositoryOperationFailed { operation: String, repository: String, reason: String },
    InvalidOperation { operation: String, reason: String },
    PassphraseError { message: String },
    HealthCheckFailed(String),
}

/// The result of an operation of the library.
pub type AgeResult<T> = Result<T, AgeError>;

/// The decimal text of a signed number.
pub open spec fn int_text(n: int) -> Seq<char> {
    if n < 0 {
        seq!['-'] + dec_digits((-n) as nat)
    } else {
        dec_digits(n as nat)
    }
}

/// The debug text of an optional exit code: `Some(<n>)` or `None`.
pub open spec fn exit_code_text(c: Option<i32>) -> Seq<char> {
    match c {
        Some(n) => "Some("@ + int_text(n as int) + ")"@,
        None => "None"@,
    }
}

/// The message of an error.
pub open spec fn message_spec(e: AgeError) -> Seq<char> {
    match e {
        AgeError::AgeBinaryNotFound(d) => "Age binary not found: "@ + d@
            + ". Please install Age encryption tool."@,
        AgeError::TtyMethodUnavailable { method, reason } => "TTY automation method '"@ + method@
            + "' unavailable: "@ + reason@,
        AgeError::AllTtyMethodsFailed(methods) => "All TTY automation methods failed: "@
            + join_spec(views(methods@), ", "@) + ". Check dependencies: expect, util-linux"@,
        AgeError::FileError { operation, path, source } => "File operation '"@ + operation@
            + "' failed on '"@ + path@ + "': "@ + source@,
        AgeError::PassphraseValidation { reason, guidance } => "Passphrase validation failed: "@
            + reason@ + ". Guidance: "@ + guidance@,
        AgeError::EncryptionFailed { input, output, reason } => "Encryption failed: "@ + input@
            + " -> "@ + output@ + ": "@ + reason@,
        AgeError::DecryptionFailed { input, output, reason } => "Decryption failed: "@ + input@
            + " -> "@ + output@ + ": "@ + reason@,
        AgeError::OutputVerificationFailed { expected_path, verification_type } =>
            "Output verification '"@ + verification_type@ + "' failed for: "@ + expected_path@,
        AgeError::SecurityValidationFailed { validation_type, details } => "Security validation '"@
            + validation_type@ + "' failed: "@ + details@,
        AgeError::InjectionAttemptBlocked { attack_type, detected_pattern } => "Injection attack '"@
            + attack_type@ + "' blocked. Pattern: "@ + detected_pattern@,
        AgeError::AuditLogFailed { operation, reason } => "Audit logging failed for operation '"@
            + operation@ + "': "@ + reason@,
        AgeError::ConfigurationError { parameter, value, reason } =>
            "Configuration error: parameter '"@ + parameter@ + "' value '"@ + value@ + "': "@
            + reason@,
        AgeError::AdapterNotImplemented(d) => "Adapter not implemented: "@ + d@,
        AgeError::InvalidAdapter(name) => "Invalid adapter: '"@ + name@
            + "'. Available: shell, rage"@,
        AgeError::AdapterInitializationFailed { adapter_name, reason } => "Adapter '"@
            + adapter_name@ + "' initialization failed: "@ + reason@,
        AgeError::BatchOperationFailed { operation, successful_count, failed_count, failures } =>
            "Batch operation '"@ + operation@ + "' completed with "@ + dec_digits(
            successful_count as nat,
        ) + " successes, "@ + dec_digits(failed_count as nat) + " failures. Failures: "@
            + join_spec(views(failures@), "; "@),
        AgeError::DependencyMissing { dependency, installation_guide } => "Missing dependency '"@
            + dependency@ + "'. Install with: "@ + installation_guide@,
        AgeError::TemporaryResourceError { resource_type, operation, reason } => "Temporary "@
            + resource_type@ + " error during '"@ + operation@ + "': "@ + reason@,
        AgeError::ProcessExecutionFailed { command, exit_code, stderr } => "Process '"@ + command@
            + "' failed with exit code "@ + exit_code_text(exit_code) + ": "@ + stderr@,
        AgeError::OperationTimeout { operation, timeout_seconds } => "Operation '"@ + operation@
            + "' timed out after "@ + dec_digits(timeout_seconds as nat) + " seconds"@,
        AgeError::PermissionDenied { operation, path, suggestion } =>
            "Permission denied for operation '"@ + operation@ + "' on '"@ + path@
            + "'. Suggestion: "@ + suggestion@,
        AgeError::IoError { operation, context, source } => "I/O error during '"@ + operation@
            + "' ("@ + context@ + "): "@ + source@,
        AgeError::RepositoryOperationFailed { operation, repository, reason } =>
            "Repository operation '"@ + operation@ + "' failed for "@ + repository@ + ": "@
            + reason@,
        AgeError::InvalidOperation { operation, reason } => "Invalid operation '"@ + operation@
            + "': "@ + reason@,
        AgeError::PassphraseError { message } => "Passphrase error: "@ + message@,
        AgeError::HealthCheckFailed(d) => "Health check failed: "@ + d@,
    }
}

/// The decimal text of a signed number.
pub fn i32_to_string(n: i32) -> (r: String)
    ensures
        r@ == int_text(n as int),
{
    let wide: i64 = n as i64;
    proof {
        reveal_strlit("-");
        assert("-"@ =~= seq!['-']);
    }
    if wide < 0 {
        let mut s = String::from_str("-");
        let digits = crate::text::u64_to_string((-wide) as u64);
        s.append(digits.as_str());
        s
    } else {
        crate::text::u64_to_string(wide as u64)
    }
}

/// `a`, `b` and `c` one after another.
fn cat3(a: &str, b: &str, c: &str) -> (r: String)
    ensures
        r@ == a@ + b@ + c@,
{
    let mut s = String::from_str(a);
    s.append(b);
    s.append(c);
    s
}

/// `a` to `e` one after another.
fn cat5(a: &str, b: &str, c: &str, d: &str, e: &str) -> (r: String)
    ensures
        r@ == a@ + b@ + c@ + d@ + e@,
{
    let mut s = String::from_str(a);
    s.append(b);
    s.append(c);
    s.append(d);
    s.append(e);
    s
}

/// `a` to `g` one after another.
fn cat7(a: &str, b: &str, c: &str, d: &str, e: &str, f: &str, g: &str) -> (r: String)
    ensures
        r@ == a@ + b@ + c@ + d@ + e@ + f@ + g@,
{
    let mut s = String::from_str(a);
    s.append(b);
    s.append(c);
    s.append(d);
    s.append(e);
    s.append(f);
    s.append(g);
    s
}

impl AgeError {
    /// The operator-facing message of the error.
    pub fn message(&self) -> (r: String)
        ensures
            r@ == message_spec(*self),
    {
        proof {
            reveal_strlit("");
            assert(""@ =~= Seq::<char>::empty());
        }
        match self {
            AgeError::AgeBinaryNotFound(d) => cat3(
                "Age binary not found: ",
                d.as_str(),
                ". Please install Age encryption tool.",
            ),
            AgeError::TtyMethodUnavailable { method, reason } => cat5(
                "TTY automation method '",
                method.as_str(),
                "' unavailable: ",
                reason.as_str(),
                "",
            ),
            AgeError::AllTtyMethodsFailed(methods) => {
                let j = crate::text::join(methods, ", ");
                cat3(
                    "All TTY automation methods failed: ",
                    j.as_str(),
                    ". Check dependencies: expect, util-linux",
                )
            },
            AgeError::FileError { operation, path, source } => cat7(
                "File operation '",
                operation.as_str(),
                "' failed on '",
                path.as_str(),
                "': ",
                source.as_str(),
                "",
            ),
            AgeError::PassphraseValidation { reason, guidance } => cat5(
                "Passphrase validation failed: ",
                reason.as_str(),
                ". Guidance: ",
                guidance.as_str(),
                "",
            ),
            AgeError::EncryptionFailed { input, output, reason } => cat7(
                "Encryption failed: ",
                input.as_str(),
                " -> ",
                output.as_str(),
                ": ",
                reason.as_str(),
                "",
            ),
            AgeError::DecryptionFailed { input, output, reason } => cat7(
                "Decryption failed: ",
                input.as_str(),
                " -> ",
                output.as_str(),
                ": ",
                reason.as_str(),
                "",
            ),
            AgeError::OutputVerificationFailed { expected_path, verification_type } => cat5(
                "Output verification '",
                verification_type.as_str(),
                "' failed for: ",
                expected_path.as_str(),
                "",
            ),
            AgeError::SecurityValidationFailed { validation_type, details } => cat5(
                "Security validation '",
                validation_type.as_str(),
                "' failed: ",
                details.as_str(),
                "",
            ),
            AgeError::InjectionAttemptBlocked { attack_type, detected_pattern } => cat5(
                "Injection attack '",
                attack_type.as_str(),
                "' blocked. Pattern: ",
                detected_pattern.as_str(),
                "",
            ),
            AgeError::AuditLogFailed { operation, reason } => cat5(
                "Audit logging failed for operation '",
                operation.as_str(),
                "': ",
                reason.as_str(),
                "",
            ),
            AgeError::ConfigurationError { parameter, value, reason } => cat7(
                "Configuration error: parameter '",
                parameter.as_str(),
                "' value '",
                value.as_str(),
                "': ",
                reason.as_str(),
                "",
            ),
            AgeError::AdapterNotImplemented(d) => cat3("Adapter not implemented: ", d.as_str(), ""),
            AgeError::InvalidAdapter(name) => cat3(
                "Invalid adapter: '",
                name.as_str(),
                "'. Available: shell, rage",
            ),
            AgeError::AdapterInitializationFailed { adapter_name, reason } => cat5(
                "Adapter '",
                adapter_name.as_str(),
                "' initialization failed: ",
                reason.as_str(),
                "",
            ),
            AgeError::BatchOperationFailed {
                operation,
                successful_count,
                failed_count,
                failures,
            } => {
                let s = crate::text::u64_to_string(*successful_count as u64);
                let f = crate::text::u64_to_string(*failed_count as u64);
                let j = crate::text::join(failures, "; ");
                let head = cat7(
                    "Batch operation '",
                    operation.as_str(),
                    "' completed with ",
                    s.as_str(),
                    " successes, ",
                    f.as_str(),
                    " failures. Failures: ",
                );
                cat3(head.as_str(), j.as_str(), "")
            },
            AgeError::DependencyMissing { dependency, installation_guide } => cat5(
                "Missing dependency '",
                dependency.as_str(),
                "'. Install with: ",
                installation_guide.as_str(),
                "",
            ),
            AgeError::TemporaryResourceError { resource_type, operation, reason } => cat7(
                "Temporary ",
                resource_type.as_str(),
                " error during '",
                operation.as_str(),
                "': ",
                reason.as_str(),
                "",
            ),
            AgeError::ProcessExecutionFailed { command, exit_code, stderr } => {
                let code = match exit_code {
                    Some(n) => {
                        let digits = i32_to_string(*n);
                        cat3("Some(", digits.as_str(), ")")
                    },
                    None => String::from_str("None"),
                };
                cat7(
                    "Process '",
                    command.as_str(),
                    "' failed with exit code ",
                    code.as_str(),
                    ": ",
                    stderr.as_str(),
                    "",
                )
            },
            AgeError::OperationTimeout { operation, timeout_seconds } => {
                let t = crate::text::u64_to_string(*timeout_seconds);
                cat5("Operation '", operation.as_str(), "' timed out after ", t.as_str(), " seconds")
            },
            AgeError::PermissionDenied { operation, path, suggestion } => cat7(
                "Permission denied for operation '",
                operation.as_str(),
                "' on '",
                path.as_str(),
                "'. Suggestion: ",
                suggestion.as_str(),
                "",
            ),
            AgeError::IoError { operation, context, source } => cat7(
                "I/O error during '",
                operation.as_str(),
                "' (",
                context.as_str(),
                "): ",
                source.as_str(),
                "",
            ),
            AgeError::RepositoryOperationFailed { operation, repository, reason } => cat7(
                "Repository operation '",
                operation.as_str(),
                "' failed for ",
                repository.as_str(),
                ": ",
                reason.as_str(),
                "",
            ),
            AgeError::InvalidOperation { operation, reason } => cat5(
                "Invalid operation '",
                operation.as_str(),
                "': ",
                reason.as_str(),
                "",
            ),
            AgeError::PassphraseError { message } => cat3("Passphrase error: ", message.as_str(), ""),
            AgeError::HealthCheckFailed(d) => cat3("Health check failed: ", d.as_str(), ""),
        }
    }

    /// The message of the underlying I/O error, for the kinds that carry one.
    pub fn source(&self) -> (r: Option<&String>)
        ensures
            match *self {
                AgeError::FileError { source, .. } => r == Some(&source),
                AgeError::IoError { source, .. } => r == Some(&source),
                _ => r is None,
            },
    {
        match self {
            AgeError::FileError { source, .. } => Some(source),
            AgeError::IoError { source, .. } => Some(source),
            _ => None,
        }
    }

    /// An I/O failure with no further context.
    pub fn from_io(message: String) -> (e: Self)
        ensures
            e matches AgeError::IoError { operation, context, source } && operation@ == "unknown"@
                && context@ == "I/O operation"@ && source@ == message@,
    {
        AgeError::IoError {
            operation: String::from_str("unknown"),
            context: String::from_str("I/O operation"),
            source: message,
        }
    }

    /// A failed file operation on `path`.
    pub fn file_error(operation: &str, path: &str, source: String) -> (e: Self)
        ensures
            e matches AgeError::FileError { operation: o, path: p, source: s } && o@ == operation@
                && p@ == path@ && s@ == source@,
    {
        AgeError::FileError {
            operation: String::from_str(operation),
            path: String::from_str(path),
            source,
        }
    }

    /// A rejected passphrase, with guidance.
    pub fn passphrase_validation(reason: &str, guidance: &str) -> (e: Self)
        ensures
            e matches AgeError::PassphraseValidation { reason: r, guidance: g } && r@ == reason@
                && g@ == guidance@,
    {
        AgeError::PassphraseValidation {
            reason: String::from_str(reason),
            guidance: String::from_str(guidance),
        }
    }

    /// A failed encryption from `input` to `output`.
    pub fn encryption_failed(input: &str, output: &str, reason: &str) -> (e: Self)
        ensures
            e matches AgeError::EncryptionFailed { input: i, output: o, reason: r } && i@ == input@
                && o@ == output@ && r@ == reason@,
    {
        AgeError::EncryptionFailed {
            input: String::from_str(input),
            output: String::from_str(output),
            reason: String::from_str(reason),
        }
    }

    /// A failed decryption from `input` to `output`.
    pub fn decryption_failed(input: &str, output: &str, reason: &str) -> (e: Self)
        ensures
            e matches AgeError::DecryptionFailed { input: i, output: o, reason: r } && i@ == input@
                && o@ == output@ && r@ == reason@,
    {
        AgeError::DecryptionFailed {
            input: String::from_str(input),
            output: String::from_str(output),
            reason: String::from_str(reason),
        }
    }

    /// A missing system dependency, with how to install it.
    pub fn dependency_missing(dependency: &str, installation_guide: &str) -> (e: Self)
        ensures
            e matches AgeError::DependencyMissing { dependency: d, installation_guide: g } && d@
                == dependency@ && g@ == installation_guide@,
    {
        AgeError::DependencyMissing {
            dependency: String::from_str(dependency),
            installation_guide: String::from_str(installation_guide),
        }
    }

    /// A blocked injection attempt.
    pub fn injection_blocked(attack_type: &str, pattern: &str) -> (e: Self)
        ensures
            e matches AgeError::InjectionAttemptBlocked { attack_type: a, detected_pattern: p } && a@
                == attack_type@ && p@ == pattern@,
    {
        AgeError::InjectionAttemptBlocked {
            attack_type: String::from_str(attack_type),
            detected_pattern: String::from_str(pattern),
        }
    }

    /// A configuration error.
    pub fn configuration(parameter: &str, value: &str, reason: &str) -> (e: Self)
        ensures
            e matches AgeError::ConfigurationError { parameter: p, value: v, reason: r } && p@
                == parameter@ && v@ == value@ && r@ == reason@,
    {
        AgeError::ConfigurationError {
            parameter: String::from_str(parameter),
            value: String::from_str(value),
            reason: String::from_str(reason),
        }
    }
}

} // verus!
