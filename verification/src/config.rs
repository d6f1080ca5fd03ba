//! Configuration of the encryption automation: output format, TTY method,
//! security level, limits and backup retention, with validation, presets,
//! configuration-file layering and retention-policy parsing.
//!
//! Durations are whole seconds.  Reading the environment, checking which
//! files exist and parsing TOML happen outside the library, which receives
//! their results.
use vstd::prelude::*;
use crate::error::AgeError;
use crate::text::{dec_digits, is_prefix, parse_unsigned, trim_spec};

verus! {

/// How encrypted output is encoded.
#[derive(PartialEq, Eq, Structural, Clone, Copy, Debug)]
pub enum OutputFormat {
    Binary,
    AsciiArmor,
}

/// How the TTY of the encryption tool is automated.
#[derive(PartialEq, Eq, Structural, Clone, Copy, Debug)]
pub enum TtyMethod {
    Script,
    Expect,
    Auto,
}

/// How thoroughly inputs are validated.
#[derive(PartialEq, Eq, Structural, Clone, Copy, Debug)]
pub enum SecurityLevel {
    Basic,
    Standard,
    Paranoid,
}

/// Which backups are kept.
#[derive(PartialEq, Eq, Structural, Clone, Copy, Debug)]
pub enum RetentionPolicyConfig {
    KeepAll,
    KeepDays(u32),
    KeepLast(usize),
    KeepLastAndDays { last: usize, days: u32 },
}

impl RetentionPolicyConfig {
    /// Keep the last three backups.
    pub fn default() -> (r: Self)
        ensures
            r == RetentionPolicyConfig::KeepLast(3),
    {
        RetentionPolicyConfig::KeepLast(3)
    }
}

impl OutputFormat {
    /// The command-line flag of the format: none for binary, `-a` for armor.
    pub fn age_flag(&self) -> (r: Option<&'static str>)
        ensures
            *self == OutputFormat::Binary ==> r is None,
            *self == OutputFormat::AsciiArmor ==> (r matches Some(s) && s@ == "-a"@),
    {
        match self {
            OutputFormat::Binary => None,
            OutputFormat::AsciiArmor => Some("-a"),
        }
    }

    /// A human-readable description.
    pub fn description(&self) -> (r: &'static str)
        ensures
            *self == OutputFormat::Binary ==> r@ == "Binary format (efficient, smallest size)"@,
            *self == OutputFormat::AsciiArmor ==> r@ == "ASCII armor (text-safe, larger size)"@,
    {
        match self {
            OutputFormat::Binary => "Binary format (efficient, smallest size)",
            OutputFormat::AsciiArmor => "ASCII armor (text-safe, larger size)",
        }
    }

    /// Armor for paths with the extension `txt`, `asc` or `armor`, binary
    /// otherwise.
    pub fn detect_from_path(path: &str) -> (r: OutputFormat)
        ensures
            r == detect_format_spec(path@),
            r == OutputFormat::AsciiArmor <==> (crate::paths::path_extension(path@) == Some(seq!['t', 'x', 't'])
                || crate::paths::path_extension(path@) == Some(seq!['a', 's', 'c'])
                || crate::paths::path_extension(path@) == Some(seq!['a', 'r', 'm', 'o', 'r'])),
    {
        proof {
            lemma_detected_format(path@);
        }
        match crate::paths::extension(path) {
            Some(ext) => {
                if crate::text::str_eq(ext.as_str(), "txt") || crate::text::str_eq(
                    ext.as_str(),
                    "asc",
                ) || crate::text::str_eq(ext.as_str(), "armor") {
                    OutputFormat::AsciiArmor
                } else {
                    OutputFormat::Binary
                }
            },
            None => OutputFormat::Binary,
        }
    }

    /// Binary.
    pub fn default() -> (r: Self)
        ensures
            r == OutputFormat::Binary,
    {
        OutputFormat::Binary
    }
}

/// Law: a path is detected as ASCII armour exactly when its extension is
/// `txt`, `asc` or `armor`; any other extension, or none, is binary.
pub proof fn lemma_detected_format(path: Seq<char>)
    ensures
        detect_format_spec(path) == OutputFormat::AsciiArmor <==> (crate::paths::path_extension(path) == Some(
            seq!['t', 'x', 't'],
        ) || crate::paths::path_extension(path) == Some(seq!['a', 's', 'c'])
            || crate::paths::path_extension(path) == Some(seq!['a', 'r', 'm', 'o', 'r'])),
        detect_format_spec(path) == OutputFormat::Binary <==> !(crate::paths::path_extension(path) == Some(
            seq!['t', 'x', 't'],
        ) || crate::paths::path_extension(path) == Some(seq!['a', 's', 'c'])
            || crate::paths::path_extension(path) == Some(seq!['a', 'r', 'm', 'o', 'r'])),
{
    reveal_strlit("txt");
    reveal_strlit("asc");
    reveal_strlit("armor");
    assert("txt"@ =~= seq!['t', 'x', 't']);
    assert("asc"@ =~= seq!['a', 's', 'c']);
    assert("armor"@ =~= seq!['a', 'r', 'm', 'o', 'r']);
}

/// The format detected for a path.
pub open spec fn detect_format_spec(path: Seq<char>) -> OutputFormat {
    match crate::paths::path_extension(path) {
        Some(e) => if e == "txt"@ || e == "asc"@ || e == "armor"@ {
            OutputFormat::AsciiArmor
        } else {
            OutputFormat::Binary
        },
        None => OutputFormat::Binary,
    }
}

impl TtyMethod {
    /// A human-readable description.
    pub fn description(&self) -> (r: &'static str)
        ensures
            *self == TtyMethod::Script ==> r@ == "Script command TTY emulation (fast, compatible)"@,
            *self == TtyMethod::Expect ==> r@
                == "Expect pattern automation (reliable, requires expect)"@,
            *self == TtyMethod::Auto ==> r@ == "Automatic method selection with fallback"@,
    {
        match self {
            TtyMethod::Script => "Script command TTY emulation (fast, compatible)",
            TtyMethod::Expect => "Expect pattern automation (reliable, requires expect)",
            TtyMethod::Auto => "Automatic method selection with fallback",
        }
    }

    /// The tools the method needs.
    pub fn dependencies(&self) -> (r: Vec<&'static str>)
        ensures
            *self == TtyMethod::Script ==> r@.len() == 2 && r@[0]@ == "script"@ && r@[1]@
                == "util-linux"@,
            *self == TtyMethod::Expect ==> r@.len() == 1 && r@[0]@ == "expect"@,
            *self == TtyMethod::Auto ==> r@.len() == 1 && r@[0]@ == "script OR expect"@,
    {
        let mut v: Vec<&'static str> = Vec::new();
        match self {
            TtyMethod::Script => {
                v.push("script");
                v.push("util-linux");
            },
            TtyMethod::Expect => {
                v.push("expect");
            },
            TtyMethod::Auto => {
                v.push("script OR expect");
            },
        }
        v
    }

    /// Automatic selection.
    pub fn default() -> (r: Self)
        ensures
            r == TtyMethod::Auto,
    {
        TtyMethod::Auto
    }
}

impl SecurityLevel {
    /// Seconds allowed for validation: 5, 10 or 30.
    pub fn validation_timeout(&self) -> (r: u64)
        ensures
            *self == SecurityLevel::Basic ==> r == 5,
            *self == SecurityLevel::Standard ==> r == 10,
            *self == SecurityLevel::Paranoid ==> r == 30,
    {
        match self {
            SecurityLevel::Basic => 5,
            SecurityLevel::Standard => 10,
            SecurityLevel::Paranoid => 30,
        }
    }

    /// Standard.
    pub fn default() -> (r: Self)
        ensures
            r == SecurityLevel::Standard,
    {
        SecurityLevel::Standard
    }
}

/// The whole configuration.
#[derive(Debug)]
pub struct AgeConfig {
    pub source_path: Option<String>,
    pub output_format: OutputFormat,
    pub tty_method: TtyMethod,
    pub security_level: SecurityLevel,
    pub max_passphrase_length: usize,
    /// Operation timeout in seconds.
    pub operation_timeout: u64,
    pub age_binary_path: Option<String>,
    pub script_binary_path: Option<String>,
    pub expect_binary_path: Option<String>,
    pub audit_logging: bool,
    pub audit_log_path: Option<String>,
    pub security_validation: bool,
    pub health_checks: bool,
    pub max_retries: u32,
    /// Delay between retries in seconds.
    pub retry_delay: u64,
    pub secure_deletion: bool,
    pub temp_dir_override: Option<String>,
    pub encrypted_file_extension: String,
    pub backup_cleanup: bool,
    pub backup_directory: Option<String>,
    pub backup_retention: RetentionPolicyConfig,
    pub streaming_strategy: Option<String>,
}

/// The settings a configuration file may hold.
#[derive(Debug)]
pub struct AgeConfigFile {
    pub backup: Option<BackupConfigSection>,
    pub streaming: Option<StreamingConfigSection>,
}

/// The `[backup]` section.
#[derive(Debug)]
pub struct BackupConfigSection {
    pub cleanup_on_success: Option<bool>,
    pub directory: Option<String>,
    pub retention: Option<String>,
}

/// The `[streaming]` section.
#[derive(Debug)]
pub struct StreamingConfigSection {
    pub strategy: Option<String>,
}

/// Every field of `c` but the presets' fields holds its default value.
pub open spec fn defaults_besides_presets(c: AgeConfig) -> bool {
    &&& c.source_path is None
    &&& c.output_format == OutputFormat::Binary
    &&& c.tty_method == TtyMethod::Auto
    &&& c.max_passphrase_length == 1024
    &&& c.age_binary_path is None
    &&& c.script_binary_path is None
    &&& c.expect_binary_path is None
    &&& c.audit_log_path is None
    &&& c.retry_delay == 1
    &&& c.temp_dir_override is None
    &&& c.backup_cleanup
    &&& c.backup_directory is None
    &&& c.backup_retention == RetentionPolicyConfig::KeepLast(3)
    &&& c.streaming_strategy is None
}

/// `c` is the default configuration.
pub open spec fn is_default(c: AgeConfig) -> bool {
    &&& defaults_besides_presets(c)
    &&& c.security_level == SecurityLevel::Standard
    &&& c.operation_timeout == 120
    &&& c.audit_logging
    &&& c.security_validation
    &&& c.health_checks
    &&& c.max_retries == 2
    &&& c.secure_deletion
    &&& c.encrypted_file_extension@ == "cage"@
}

/// A configuration error.
pub open spec fn config_error(e: AgeError, parameter: Seq<char>, value: Seq<char>, reason: Seq<char>) -> bool {
    e matches AgeError::ConfigurationError { parameter: p, value: v, reason: r } && p@ == parameter
        && v@ == value && r@ == reason
}

/// What validation says of a configuration: `Ok` or the first violated rule.
pub open spec fn validation_error(c: AgeConfig) -> Option<(Seq<char>, Seq<char>, Seq<char>)> {
    if c.max_passphrase_length == 0 {
        Some(("max_passphrase_length"@, "0"@, "Must be greater than 0"@))
    } else if c.max_passphrase_length > 10_000 {
        Some(
            (
                "max_passphrase_length"@,
                dec_digits(c.max_passphrase_length as nat),
                "Unreasonably large, maximum 10,000 characters"@,
            ),
        )
    } else if c.operation_timeout == 0 {
        Some(("operation_timeout"@, "0"@, "Must be greater than 0 seconds"@))
    } else if c.operation_timeout > 3600 {
        Some(
            (
                "operation_timeout"@,
                dec_digits(c.operation_timeout as nat) + " seconds"@,
                "Unreasonably large, maximum 1 hour"@,
            ),
        )
    } else if c.max_retries > 10 {
        Some(("max_retries"@, dec_digits(c.max_retries as nat), "Maximum 10 retries allowed"@))
    } else {
        match c.streaming_strategy {
            Some(s) => if s@ == "temp"@ || s@ == "pipe"@ || s@ == "auto"@ {
                None
            } else {
                Some(("streaming_strategy"@, s@, "Valid values: temp, pipe, auto"@))
            },
            None => None,
        }
    }
}

/// The limits a valid configuration keeps, written out: a passphrase limit
/// from 1 to 10,000, a timeout from 1 to 3,600 seconds, at most 10 retries,
/// and a streaming strategy, if any, of `temp`, `pipe` or `auto`.
pub open spec fn within_limits(c: AgeConfig) -> bool {
    &&& 1 <= c.max_passphrase_length <= 10_000
    &&& 1 <= c.operation_timeout <= 3600
    &&& c.max_retries <= 10
    &&& match c.streaming_strategy {
        Some(s) => s@ == seq!['t', 'e', 'm', 'p'] || s@ == seq!['p', 'i', 'p', 'e'] || s@ == seq!['a', 'u', 't', 'o'],
        None => true,
    }
}

/// Law: a configuration is valid exactly when it keeps the limits.
pub proof fn lemma_valid_config(c: AgeConfig)
    ensures
        validation_error(c) is None <==> within_limits(c),
{
    reveal_strlit("temp");
    reveal_strlit("pipe");
    reveal_strlit("auto");
    assert("temp"@ =~= seq!['t', 'e', 'm', 'p']);
    assert("pipe"@ =~= seq!['p', 'i', 'p', 'e']);
    assert("auto"@ =~= seq!['a', 'u', 't', 'o']);
}

/// A configuration error with the given parts.
fn cfg_error(parameter: &str, value: String, reason: &str) -> (e: AgeError)
    ensures
        config_error(e, parameter@, value@, reason@),
{
    AgeError::ConfigurationError {
        parameter: String::from_str(parameter),
        value,
        reason: String::from_str(reason),
    }
}

impl AgeConfig {
    /// The default configuration.
    pub fn default() -> (c: Self)
        ensures
            is_default(c),
    {
        AgeConfig {
            source_path: None,
            output_format: OutputFormat::default(),
            tty_method: TtyMethod::default(),
            security_level: SecurityLevel::default(),
            max_passphrase_length: 1024,
            operation_timeout: 120,
            age_binary_path: None,
            script_binary_path: None,
            expect_binary_path: None,
            audit_logging: true,
            audit_log_path: None,
            security_validation: true,
            health_checks: true,
            max_retries: 2,
            retry_delay: 1,
            secure_deletion: true,
            temp_dir_override: None,
            encrypted_file_extension: String::from_str("cage"),
            backup_cleanup: true,
            backup_directory: None,
            backup_retention: RetentionPolicyConfig::default(),
            streaming_strategy: None,
        }
    }

    /// The default configuration.
    pub fn new() -> (c: Self)
        ensures
            is_default(c),
    {
        Self::default()
    }

    /// Production: standard validation, audit logging, health checks, secure
    /// deletion, three retries.
    pub fn production() -> (c: Self)
        ensures
            defaults_besides_presets(c),
            c.security_level == SecurityLevel::Standard,
            c.audit_logging && c.security_validation && c.health_checks && c.secure_deletion,
            c.max_retries == 3,
            c.operation_timeout == 120,
            c.encrypted_file_extension@ == "cage"@,
    {
        AgeConfig {
            security_level: SecurityLevel::Standard,
            audit_logging: true,
            security_validation: true,
            health_checks: true,
            secure_deletion: true,
            max_retries: 3,
            ..Self::default()
        }
    }

    /// Development: basic validation, no audit logging, no health checks, no
    /// secure deletion, one retry.
    pub fn development() -> (c: Self)
        ensures
            defaults_besides_presets(c),
            c.security_level == SecurityLevel::Basic,
            !c.audit_logging && c.security_validation && !c.health_checks && !c.secure_deletion,
            c.max_retries == 1,
            c.operation_timeout == 120,
            c.encrypted_file_extension@ == "cage"@,
    {
        AgeConfig {
            security_level: SecurityLevel::Basic,
            audit_logging: false,
            security_validation: true,
            health_checks: false,
            secure_deletion: false,
            max_retries: 1,
            ..Self::default()
        }
    }

    /// Testing: paranoid validation, everything on, no retries, ten-second
    /// timeout.
    pub fn testing() -> (c: Self)
        ensures
            defaults_besides_presets(c),
            c.security_level == SecurityLevel::Paranoid,
            c.audit_logging && c.security_validation && c.health_checks && c.secure_deletion,
            c.max_retries == 0,
            c.operation_timeout == 10,
            c.encrypted_file_extension@ == "cage"@,
    {
        AgeConfig {
            security_level: SecurityLevel::Paranoid,
            audit_logging: true,
            security_validation: true,
            health_checks: true,
            secure_deletion: true,
            max_retries: 0,
            operation_timeout: 10,
            ..Self::default()
        }
    }

    /// Padlock integration: the `padlock` extension, everything on.
    pub fn for_padlock() -> (c: Self)
        ensures
            defaults_besides_presets(c),
            c.security_level == SecurityLevel::Standard,
            c.audit_logging && c.security_validation && c.health_checks && c.secure_deletion,
            c.max_retries == 2,
            c.operation_timeout == 120,
            c.encrypted_file_extension@ == "padlock"@,
    {
        AgeConfig {
            encrypted_file_extension: String::from_str("padlock"),
            audit_logging: true,
            security_validation: true,
            health_checks: true,
            secure_deletion: true,
            ..Self::default()
        }
    }

    /// Checks the limits: a passphrase length of 1 to 10,000 characters, a
    /// timeout of 1 to 3,600 seconds, at most 10 retries, and a streaming
    /// strategy of `temp`, `pipe` or `auto` if one is set.
    pub fn validate(&self) -> (r: Result<(), AgeError>)
        ensures
            match validation_error(*self) {
                None => r is Ok,
                Some((p, v, why)) => r is Err && config_error(r->Err_0, p, v, why),
            },
            r is Ok <==> within_limits(*self),
    {
        proof {
            lemma_valid_config(*self);
        }
        if self.max_passphrase_length == 0 {
            return Err(cfg_error("max_passphrase_length", String::from_str("0"), "Must be greater than 0"));
        }
        if self.max_passphrase_length > 10_000 {
            let v = crate::text::u64_to_string(self.max_passphrase_length as u64);
            return Err(
                cfg_error(
                    "max_passphrase_length",
                    v,
                    "Unreasonably large, maximum 10,000 characters",
                ),
            );
        }
        if self.operation_timeout == 0 {
            return Err(
                cfg_error("operation_timeout", String::from_str("0"), "Must be greater than 0 seconds"),
            );
        }
        if self.operation_timeout > 3600 {
            let mut v = crate::text::u64_to_string(self.operation_timeout);
            v.append(" seconds");
            return Err(cfg_error("operation_timeout", v, "Unreasonably large, maximum 1 hour"));
        }
        if self.max_retries > 10 {
            let v = crate::text::u64_to_string(self.max_retries as u64);
            return Err(cfg_error("max_retries", v, "Maximum 10 retries allowed"));
        }
        match &self.streaming_strategy {
            Some(strategy) => {
                let s = strategy.as_str();
                if crate::text::str_eq(s, "temp") || crate::text::str_eq(s, "pipe")
                    || crate::text::str_eq(s, "auto") {
                    Ok(())
                } else {
                    Err(
                        cfg_error(
                            "streaming_strategy",
                            strategy.clone(),
                            "Valid values: temp, pipe, auto",
                        ),
                    )
                }
            },
            None => Ok(()),
        }
    }

    /// Sets the output format.
    pub fn with_output_format(self, format: OutputFormat) -> (c: Self)
        ensures
            c == (AgeConfig { output_format: format, ..self }),
    {
        AgeConfig { output_format: format, ..self }
    }

    /// Sets the TTY method.
    pub fn with_tty_method(self, method: TtyMethod) -> (c: Self)
        ensures
            c == (AgeConfig { tty_method: method, ..self }),
    {
        AgeConfig { tty_method: method, ..self }
    }

    /// Sets the security level.
    pub fn with_security_level(self, level: SecurityLevel) -> (c: Self)
        ensures
            c == (AgeConfig { security_level: level, ..self }),
    {
        AgeConfig { security_level: level, ..self }
    }

    /// Sets the operation timeout, in seconds.
    pub fn with_timeout(self, timeout: u64) -> (c: Self)
        ensures
            c == (AgeConfig { operation_timeout: timeout, ..self }),
    {
        AgeConfig { operation_timeout: timeout, ..self }
    }

    /// Turns audit logging on or off.
    pub fn with_audit_logging(self, enabled: bool) -> (c: Self)
        ensures
            c == (AgeConfig { audit_logging: enabled, ..self }),
    {
        AgeConfig { audit_logging: enabled, ..self }
    }

    /// Sets the audit log file.
    pub fn with_audit_log_path(self, path: String) -> (c: Self)
        ensures
            c == (AgeConfig { audit_log_path: Some(path), ..self }),
    {
        AgeConfig { audit_log_path: Some(path), ..self }
    }

    /// Sets the path of the encryption tool.
    pub fn with_age_binary(self, path: String) -> (c: Self)
        ensures
            c == (AgeConfig { age_binary_path: Some(path), ..self }),
    {
        AgeConfig { age_binary_path: Some(path), ..self }
    }

    /// Sets the extension of encrypted files.
    pub fn with_extension(self, extension: String) -> (c: Self)
        ensures
            c == (AgeConfig { encrypted_file_extension: extension, ..self }),
    {
        AgeConfig { encrypted_file_extension: extension, ..self }
    }

    /// The extension with a leading dot (added when missing).
    pub fn extension_with_dot(&self) -> (r: String)
        ensures
            r@ == dotted(self.encrypted_file_extension@),
    {
        let e = self.encrypted_file_extension.as_str();
        if crate::text::starts_with(e, ".") {
            proof {
                reveal_strlit(".");
                assert("."@ =~= seq!['.']);
                crate::text::lemma_prefix_one('.', e@);
            }
            self.encrypted_file_extension.clone()
        } else {
            proof {
                reveal_strlit(".");
                assert("."@ =~= seq!['.']);
                crate::text::lemma_prefix_one('.', e@);
            }
            let mut s = String::from_str(".");
            s.append(e);
            s
        }
    }

    /// Whether `path` has the configured extension.
    pub fn is_encrypted_file(&self, path: &str) -> (r: bool)
        ensures
            r == (crate::paths::path_extension(path@) == Some(self.encrypted_file_extension@)),
    {
        match crate::paths::extension(path) {
            Some(ext) => ext == self.encrypted_file_extension,
            None => false,
        }
    }
}

/// `e` with a leading dot.
pub open spec fn dotted(e: Seq<char>) -> Seq<char> {
    if e.len() > 0 && e[0] == '.' {
        e
    } else {
        seq!['.'] + e
    }
}


/// Number of occurrences of `c` in `s`.
pub open spec fn count_char(s: Seq<char>, c: char) -> nat
    decreases s.len(),
{
    if s.len() == 0 {
        0
    } else {
        count_char(s.drop_last(), c) + if s.last() == c { 1nat } else { 0nat }
    }
}

/// Index of the first `c` in `s`, or -1.
pub open spec fn first_index(s: Seq<char>, c: char) -> int
    decreases s.len(),
{
    if s.len() == 0 {
        -1
    } else if s[0] == c {
        0
    } else {
        let r = first_index(s.drop_first(), c);
        if r < 0 { -1 } else { r + 1 }
    }
}

/// The number a field holds, if it fits in `max`.
pub open spec fn parse_field(s: Seq<char>, max: nat) -> Option<nat> {
    match parse_unsigned(trim_spec(s)) {
        Some(n) => if n <= max { Some(n) } else { None },
        None => None,
    }
}

/// The retention policy a setting describes, or the reason it is rejected.
/// The setting is trimmed and lowercased; `keep_all`, `keep_days:<u32>`,
/// `keep_last:<usize>` and `keep_last_and_days:<usize>,<u32>` are accepted,
/// numbers with surrounding whitespace.
pub open spec fn retention_spec(v: Seq<char>) -> Result<RetentionPolicyConfig, Seq<char>> {
    let l = crate::text::lowercase(trim_spec(v));
    if l == "keep_all"@ {
        Ok(RetentionPolicyConfig::KeepAll)
    } else if is_prefix("keep_days:"@, l) {
        match parse_field(l.subrange(10, l.len() as int), u32::MAX as nat) {
            Some(n) => Ok(RetentionPolicyConfig::KeepDays(n as u32)),
            None => Err("Expected keep_days:<u32>"@),
        }
    } else if is_prefix("keep_last:"@, l) {
        match parse_field(l.subrange(10, l.len() as int), usize::MAX as nat) {
            Some(n) => Ok(RetentionPolicyConfig::KeepLast(n as usize)),
            None => Err("Expected keep_last:<usize>"@),
        }
    } else if is_prefix("keep_last_and_days:"@, l) {
        let rest = l.subrange(19, l.len() as int);
        if count_char(rest, ',') != 1 {
            Err("Expected keep_last_and_days:<usize>,<u32>"@)
        } else {
            let i = first_index(rest, ',');
            match parse_field(rest.subrange(0, i), usize::MAX as nat) {
                Some(last) => match parse_field(rest.subrange(i + 1, rest.len() as int), u32::MAX as nat) {
                    Some(days) => Ok(
                        RetentionPolicyConfig::KeepLastAndDays { last: last as usize, days: days as u32 },
                    ),
                    None => Err("Invalid days parameter"@),
                },
                None => Err("Invalid last parameter"@),
            }
        }
    } else {
        Err(
            "Valid values: keep_all, keep_days:<u32>, keep_last:<usize>, keep_last_and_days:<usize>,<u32>"@,
        )
    }
}

/// Law: the retention forms, after trimming and lowercasing: `keep_all`
/// keeps everything; `keep_days:` followed by a number `n` that fits in a
/// `u32` keeps `n` days; `keep_last:` followed by a number `n` that fits in
/// a `usize` keeps the last `n`; a setting that does not begin with `keep_`
/// is rejected.
pub proof fn lemma_retention_forms(v: Seq<char>, n: nat)
    ensures
        crate::text::lowercase(trim_spec(v)) == seq!['k', 'e', 'e', 'p', '_', 'a', 'l', 'l'] ==> retention_spec(v)
            == Ok::<RetentionPolicyConfig, Seq<char>>(RetentionPolicyConfig::KeepAll),
        ({
            let l = crate::text::lowercase(trim_spec(v));
            is_prefix(seq!['k', 'e', 'e', 'p', '_', 'd', 'a', 'y', 's', ':'], l) && parse_field(
                l.subrange(10, l.len() as int),
                4294967295,
            ) == Some(n) ==> retention_spec(v) == Ok::<RetentionPolicyConfig, Seq<char>>(
                RetentionPolicyConfig::KeepDays(n as u32),
            )
        }),
        ({
            let l = crate::text::lowercase(trim_spec(v));
            is_prefix(seq!['k', 'e', 'e', 'p', '_', 'l', 'a', 's', 't', ':'], l) && parse_field(
                l.subrange(10, l.len() as int),
                usize::MAX as nat,
            ) == Some(n) ==> retention_spec(v) == Ok::<RetentionPolicyConfig, Seq<char>>(
                RetentionPolicyConfig::KeepLast(n as usize),
            )
        }),
        !is_prefix(seq!['k', 'e', 'e', 'p', '_'], crate::text::lowercase(trim_spec(v))) ==> retention_spec(v) is Err,
{
    reveal_strlit("keep_all");
    reveal_strlit("keep_days:");
    reveal_strlit("keep_last:");
    reveal_strlit("keep_last_and_days:");
    assert("keep_all"@ =~= seq!['k', 'e', 'e', 'p', '_', 'a', 'l', 'l']);
    assert("keep_days:"@ =~= seq!['k', 'e', 'e', 'p', '_', 'd', 'a', 'y', 's', ':']);
    assert("keep_last:"@ =~= seq!['k', 'e', 'e', 'p', '_', 'l', 'a', 's', 't', ':']);
    let l = crate::text::lowercase(trim_spec(v));
    let kp = seq!['k', 'e', 'e', 'p', '_'];
    if is_prefix("keep_last:"@, l) {
        assert(l.subrange(0, 10)[5] == 'l');
        assert(l != "keep_all"@);
        assert(!is_prefix("keep_days:"@, l));
    }
    if is_prefix("keep_days:"@, l) {
        assert(l.subrange(0, 10)[5] == 'd');
        assert(l != "keep_all"@);
    }
    if !is_prefix(kp, l) {
        if l == "keep_all"@ {
            assert(l.subrange(0, 5) =~= kp);
        }
        if is_prefix("keep_days:"@, l) {
            assert(l.subrange(0, 5) =~= l.subrange(0, 10).subrange(0, 5));
            assert(l.subrange(0, 5) =~= kp);
        }
        if is_prefix("keep_last:"@, l) {
            assert(l.subrange(0, 5) =~= l.subrange(0, 10).subrange(0, 5));
            assert(l.subrange(0, 5) =~= kp);
        }
        if is_prefix("keep_last_and_days:"@, l) {
            assert("keep_last_and_days:"@.subrange(0, 5) =~= kp);
            assert(l.subrange(0, 5) =~= l.subrange(0, 19).subrange(0, 5));
            assert(l.subrange(0, 5) =~= kp);
        }
    }
}

/// The number in `s[from..to]` (trimmed), if it fits in `max`.
fn parse_field_exec(s: &Vec<char>, from: usize, to: usize, max: u64) -> (r: Option<u64>)
    requires
        from <= to <= s.len(),
    ensures
        match parse_field(s@.subrange(from as int, to as int), max as nat) {
            Some(n) => r == Some(n as u64),
            None => r is None,
        },
{
    let mut part: Vec<char> = Vec::new();
    let mut i: usize = from;
    while i < to
        invariant
            from <= i <= to <= s.len(),
            part@ == s@.subrange(from as int, i as int),
        decreases to - i,
    {
        part.push(s[i]);
        i = i + 1;
        assert(part@ =~= s@.subrange(from as int, i as int));
    }
    let t = crate::text::trim_chars(&part);
    crate::text::parse_bounded(&t, max)
}

/// Counts `c` in `s` and finds its first occurrence.
fn count_and_find(s: &Vec<char>, from: usize, c: char) -> (r: (usize, usize))
    requires
        from <= s.len(),
    ensures
        r.0 == count_char(s@.subrange(from as int, s.len() as int), c),
        first_index(s@.subrange(from as int, s.len() as int), c) >= 0 ==> r.1 == first_index(
            s@.subrange(from as int, s.len() as int),
            c,
        ),
{
    let ghost rest = s@.subrange(from as int, s.len() as int);
    let mut count: usize = 0;
    let mut first: usize = 0;
    let mut found = false;
    let mut i: usize = from;
    assert(rest.take(0) =~= Seq::<char>::empty());
    while i < s.len()
        invariant
            from <= i <= s.len(),
            rest == s@.subrange(from as int, s.len() as int),
            count == count_char(rest.take(i - from), c),
            count <= i - from,
            found == (first_index(rest.take(i - from), c) >= 0),
            found ==> first == first_index(rest.take(i - from), c),
        decreases s.len() - i,
    {
        let k = i - from;
        proof {
            assert(rest.take(k + 1).drop_last() =~= rest.take(k as int));
            lemma_first_index_push(rest.take(k as int), rest[k as int], c);
            assert(rest.take(k + 1) =~= rest.take(k as int).push(rest[k as int]));
        }
        if s[i] == c {
            count = count + 1;
            if !found {
                found = true;
                first = k;
            }
        }
        i = i + 1;
    }
    assert(rest.take(s.len() - from) =~= rest);
    (count, first)
}

proof fn lemma_first_index_push(s: Seq<char>, x: char, c: char)
    ensures
        first_index(s.push(x), c) == if first_index(s, c) >= 0 {
            first_index(s, c)
        } else if x == c {
            s.len() as int
        } else {
            -1
        },
        first_index(s, c) < s.len(),
    decreases s.len(),
{
    if s.len() > 0 {
        let t = s.push(x);
        assert(t.drop_first() =~= s.drop_first().push(x));
        assert(t[0] == s[0]);
        lemma_first_index_push(s.drop_first(), x, c);
        if s[0] == c {
            assert(first_index(t, c) == 0);
            assert(first_index(s, c) == 0);
        } else {
            assert(first_index(t, c) == (if first_index(t.drop_first(), c) < 0 {
                -1
            } else {
                first_index(t.drop_first(), c) + 1
            }));
            assert(first_index(s, c) == (if first_index(s.drop_first(), c) < 0 {
                -1
            } else {
                first_index(s.drop_first(), c) + 1
            }));
        }
    } else {
        let t = s.push(x);
        assert(t.drop_first() =~= Seq::<char>::empty());
        assert(t[0] == x);
        assert(first_index(t.drop_first(), c) == -1);
    }
}

proof fn lemma_first_index_found(s: Seq<char>, c: char)
    ensures
        first_index(s, c) >= 0 ==> first_index(s, c) < s.len() && s[first_index(s, c)] == c,
        count_char(s, c) > 0 ==> first_index(s, c) >= 0,
    decreases s.len(),
{
    if s.len() > 0 {
        lemma_first_index_found(s.drop_first(), c);
        lemma_count_first(s, c);
    }
}

proof fn lemma_count_first(s: Seq<char>, c: char)
    requires
        s.len() > 0,
    ensures
        count_char(s, c) == count_char(s.drop_first(), c) + if s[0] == c { 1nat } else { 0nat },
    decreases s.len(),
{
    if s.len() > 1 {
        let a = s.drop_last();
        let b = s.drop_first();
        assert(a.drop_first() =~= b.drop_last());
        assert(b.last() == s.last());
        assert(a[0] == s[0]);
        lemma_count_first(a, c);
        assert(count_char(b, c) == count_char(b.drop_last(), c) + if b.last() == c { 1nat } else { 0nat });
    } else {
        assert(s.drop_first().len() == 0);
        assert(s.drop_last().len() == 0);
        assert(s.last() == s[0]);
        assert(count_char(s.drop_last(), c) == 0);
        assert(count_char(s.drop_first(), c) == 0);
    }
}

/// The characters of `s` from index `from` on.
fn chars_from(s: &Vec<char>, from: usize) -> (r: Vec<char>)
    requires
        from <= s.len(),
    ensures
        r@ == s@.subrange(from as int, s.len() as int),
{
    let mut r: Vec<char> = Vec::new();
    let mut i: usize = from;
    while i < s.len()
        invariant
            from <= i <= s.len(),
            r@ == s@.subrange(from as int, i as int),
        decreases s.len() - i,
    {
        r.push(s[i]);
        i = i + 1;
        assert(r@ =~= s@.subrange(from as int, i as int));
    }
    r
}

/// Reads a backup retention setting.  A rejected setting is a configuration
/// error of `backup.retention` naming the trimmed setting and the expected
/// form.
pub fn parse_retention_policy(value: &str) -> (r: Result<RetentionPolicyConfig, AgeError>)
    ensures
        match retention_spec(value@) {
            Ok(p) => r == Ok::<RetentionPolicyConfig, AgeError>(p),
            Err(why) => r is Err && config_error(r->Err_0, "backup.retention"@, trim_spec(value@), why),
        },
{
    let chars = crate::text::chars_of(value);
    let trimmed_chars = crate::text::trim_chars(&chars);
    let trimmed = crate::text::string_from_chars(&trimmed_chars, 0, trimmed_chars.len());
    assert(trimmed_chars@.subrange(0, trimmed_chars@.len() as int) =~= trimmed_chars@);
    let lower = crate::text::to_lowercase(trimmed.as_str());
    let l = crate::text::chars_of(lower.as_str());
    proof {
        reveal_strlit("keep_all");
        reveal_strlit("keep_days:");
        reveal_strlit("keep_last:");
        reveal_strlit("keep_last_and_days:");
    }
    if crate::text::str_eq(lower.as_str(), "keep_all") {
        return Ok(RetentionPolicyConfig::KeepAll);
    }
    if crate::text::starts_with(lower.as_str(), "keep_days:") {
        return match parse_field_exec(&l, 10, l.len(), u32::MAX as u64) {
            Some(n) => Ok(RetentionPolicyConfig::KeepDays(n as u32)),
            None => Err(cfg_error("backup.retention", trimmed, "Expected keep_days:<u32>")),
        };
    }
    if crate::text::starts_with(lower.as_str(), "keep_last:") {
        return match parse_field_exec(&l, 10, l.len(), usize::MAX as u64) {
            Some(n) => Ok(RetentionPolicyConfig::KeepLast(n as usize)),
            None => Err(cfg_error("backup.retention", trimmed, "Expected keep_last:<usize>")),
        };
    }
    if crate::text::starts_with(lower.as_str(), "keep_last_and_days:") {
        let rest = chars_from(&l, 19);
        let (count, first) = count_and_find(&l, 19, ',');
        if count != 1 {
            return Err(
                cfg_error(
                    "backup.retention",
                    trimmed,
                    "Expected keep_last_and_days:<usize>,<u32>",
                ),
            );
        }
        proof {
            lemma_first_index_found(rest@, ',');
        }
        let last = match parse_field_exec(&rest, 0, first, usize::MAX as u64) {
            Some(n) => n,
            None => {
                return Err(cfg_error("backup.retention", trimmed, "Invalid last parameter"));
            },
        };
        let days = match parse_field_exec(&rest, first + 1, rest.len(), u32::MAX as u64) {
            Some(n) => n,
            None => {
                return Err(cfg_error("backup.retention", trimmed, "Invalid days parameter"));
            },
        };
        return Ok(RetentionPolicyConfig::KeepLastAndDays { last: last as usize, days: days as u32 });
    }
    Err(
        cfg_error(
            "backup.retention",
            trimmed,
            "Valid values: keep_all, keep_days:<u32>, keep_last:<usize>, keep_last_and_days:<usize>,<u32>",
        ),
    )
}


/// The configuration files looked for, highest priority first: the file named
/// by `CAGE_CONFIG` (when set and not empty), `cage/config.toml` under
/// `XDG_CONFIG_HOME` or else `.config/cage/config.toml` under `HOME`, and
/// `cage.toml` in the working directory.
pub open spec fn search_paths_spec(
    cage_config: Option<Seq<char>>,
    xdg: Option<Seq<char>>,
    home: Option<Seq<char>>,
) -> Seq<Seq<char>> {
    let a: Seq<Seq<char>> = match cage_config {
        Some(c) => if c.len() > 0 { seq![c] } else { Seq::empty() },
        None => Seq::empty(),
    };
    let b: Seq<Seq<char>> = match xdg {
        Some(x) => a.push(crate::paths::path_join(x, "cage/config.toml"@)),
        None => match home {
            Some(h) => a.push(crate::paths::path_join(h, ".config/cage/config.toml"@)),
            None => a,
        },
    };
    b.push("cage.toml"@)
}

pub open spec fn opt_str(o: Option<&str>) -> Option<Seq<char>> {
    match o {
        Some(s) => Some(s@),
        None => None,
    }
}

/// The configuration files looked for, given the values of the variables
/// `CAGE_CONFIG`, `XDG_CONFIG_HOME` and `HOME` (absent when unset).
pub fn default_config_paths(cage_config: Option<&str>, xdg_config_home: Option<&str>, home: Option<&str>) -> (r: Vec<String>)
    ensures
        crate::text::views(r@) == search_paths_spec(opt_str(cage_config), opt_str(xdg_config_home), opt_str(home)),
{
    let mut paths: Vec<String> = Vec::new();
    match cage_config {
        Some(custom) => {
            if custom.unicode_len() != 0 {
                paths.push(String::from_str(custom));
            }
        },
        None => {},
    }
    match xdg_config_home {
        Some(xdg) => {
            paths.push(crate::paths::join(xdg, "cage/config.toml"));
        },
        None => match home {
            Some(h) => {
                paths.push(crate::paths::join(h, ".config/cage/config.toml"));
            },
            None => {},
        },
    }
    paths.push(String::from_str("cage.toml"));
    proof {
        assert(crate::text::views(paths@) =~= search_paths_spec(
            opt_str(cage_config),
            opt_str(xdg_config_home),
            opt_str(home),
        ));
    }
    paths
}

/// The first configuration file that exists, if any.
pub fn select_config_path(exists: &Vec<bool>) -> (r: Option<usize>)
    ensures
        match r {
            Some(i) => i < exists.len() && exists@[i as int] && forall|j: int|
                0 <= j < i ==> !(#[trigger] exists@[j]),
            None => forall|j: int| 0 <= j < exists.len() ==> !(#[trigger] exists@[j]),
        },
{
    let mut i: usize = 0;
    while i < exists.len()
        invariant
            i <= exists.len(),
            forall|j: int| 0 <= j < i ==> !(#[trigger] exists@[j]),
        decreases exists.len() - i,
    {
        if exists[i] {
            return Some(i);
        }
        i = i + 1;
    }
    None
}

/// Where a search path comes from.
pub open spec fn layer_source(i: int, path: Seq<char>, cage_config_set: bool) -> Seq<char> {
    if i == 0 && cage_config_set {
        "env:CAGE_CONFIG"@
    } else if crate::text::contains_sub(path, "XDG_CONFIG_HOME"@) || crate::text::contains_sub(
        path,
        ".config"@,
    ) {
        "XDG"@
    } else if crate::text::contains_sub(path, "cage.toml"@) {
        "local"@
    } else {
        "unknown"@
    }
}

/// The status of a search path.
pub open spec fn layer_status(path: Seq<char>, exists: bool, loaded: Option<Seq<char>>) -> Seq<char> {
    if exists {
        match loaded {
            Some(l) => if crate::paths::path_equal(l, path) { " [LOADED]"@ } else { " [exists]"@ },
            None => " [exists]"@,
        }
    } else {
        " [not found]"@
    }
}

/// One line of the layer listing.
pub open spec fn layer_line(i: int, path: Seq<char>, exists: bool, loaded: Option<Seq<char>>, cage_config_set: bool) -> Seq<char> {
    "  "@ + dec_digits((i + 1) as nat) + ". "@ + layer_source(i, path, cage_config_set) + " -> "@
        + path + layer_status(path, exists, loaded) + "\n"@
}

/// The lines of the first `n` search paths.
pub open spec fn layer_lines(paths: Seq<Seq<char>>, exists: Seq<bool>, loaded: Option<Seq<char>>, cage_config_set: bool, n: nat) -> Seq<char>
    decreases n,
{
    if n == 0 {
        Seq::empty()
    } else {
        layer_lines(paths, exists, loaded, cage_config_set, (n - 1) as nat) + layer_line(
            n - 1,
            paths[n - 1],
            exists[n - 1],
            loaded,
            cage_config_set,
        )
    }
}

/// The listing of the configuration layers.
pub open spec fn layers_spec(paths: Seq<Seq<char>>, exists: Seq<bool>, loaded: Option<Seq<char>>, cage_config_set: bool) -> Seq<char> {
    "Configuration search order (highest priority first):\n"@ + layer_lines(
        paths,
        exists,
        loaded,
        cage_config_set,
        paths.len(),
    ) + if loaded is None {
        "\nUsing default configuration (no config file found)"@
    } else {
        Seq::empty()
    }
}

/// One line of the layer listing.
fn layer_line_text(i: usize, path: &String, exists: bool, loaded: &Option<String>, cage_config_set: bool) -> (r: String)
    requires
        i < usize::MAX,
    ensures
        r@ == layer_line(i as int, path@, exists, crate::text::opt_view(*loaded), cage_config_set),
{
    let status: &str = if exists {
        match loaded {
            Some(l) => if crate::paths::paths_equal(l.as_str(), path.as_str()) {
                " [LOADED]"
            } else {
                " [exists]"
            },
            None => " [exists]",
        }
    } else {
        " [not found]"
    };
    let source: &str = if i == 0 && cage_config_set {
        "env:CAGE_CONFIG"
    } else if crate::text::contains(path.as_str(), "XDG_CONFIG_HOME") || crate::text::contains(
        path.as_str(),
        ".config",
    ) {
        "XDG"
    } else if crate::text::contains(path.as_str(), "cage.toml") {
        "local"
    } else {
        "unknown"
    };
    let num = crate::text::u64_to_string((i + 1) as u64);
    let mut line = String::from_str("  ");
    line.append(num.as_str());
    line.append(". ");
    line.append(source);
    line.append(" -> ");
    line.append(path.as_str());
    line.append(status);
    line.append("\n");
    line
}

impl AgeConfig {
    /// The configuration files looked for (see [`default_config_paths`]).
    pub fn get_config_search_paths(cage_config: Option<&str>, xdg_config_home: Option<&str>, home: Option<&str>) -> (r: Vec<String>)
        ensures
            crate::text::views(r@) == search_paths_spec(opt_str(cage_config), opt_str(xdg_config_home), opt_str(home)),
    {
        default_config_paths(cage_config, xdg_config_home, home)
    }

    /// A listing of the search paths, highest priority first, each with where
    /// it comes from and whether it exists or was loaded; `exists[i]` tells
    /// whether `paths[i]` exists, and `cage_config_set` whether the variable
    /// `CAGE_CONFIG` is set.
    pub fn format_layers(&self, paths: &Vec<String>, exists: &Vec<bool>, cage_config_set: bool) -> (r: String)
        requires
            exists.len() == paths.len(),
            paths.len() < usize::MAX,
        ensures
            r@ == layers_spec(crate::text::views(paths@), exists@, crate::text::opt_view(self.source_path), cage_config_set),
    {
        let ghost pv = crate::text::views(paths@);
        let ghost loaded = crate::text::opt_view(self.source_path);
        let mut layers = String::from_str("Configuration search order (highest priority first):\n");
        let ghost head = layers@;
        let mut i: usize = 0;
        while i < paths.len()
            invariant
                exists.len() == paths.len(),
                paths.len() < usize::MAX,
                i <= paths.len(),
                pv == crate::text::views(paths@),
                loaded == crate::text::opt_view(self.source_path),
                layers@ == head + layer_lines(pv, exists@, loaded, cage_config_set, i as nat),
            decreases paths.len() - i,
        {
            let line = layer_line_text(i, &paths[i], exists[i], &self.source_path, cage_config_set);
            let ghost before = layers@;
            layers.append(line.as_str());
            proof {
                assert(pv[i as int] == paths@[i as int]@);
                assert(layer_lines(pv, exists@, loaded, cage_config_set, (i + 1) as nat) =~= layer_lines(pv, exists@, loaded, cage_config_set, i as nat) + layer_line(i as int, pv[i as int], exists@[i as int], loaded, cage_config_set));
            }
            i = i + 1;
        }
        if self.source_path.is_none() {
            layers.append("\nUsing default configuration (no config file found)");
        } else {
            proof {
                assert(layers@ =~= layers@ + Seq::<char>::empty());
            }
        }
        layers
    }

    /// The configuration a parsed configuration file at `path` describes:
    /// the defaults, with the file's backup and streaming settings, then
    /// validated.
    pub fn from_file(path: &str, file: AgeConfigFile) -> (r: Result<AgeConfig, AgeError>)
        ensures
            match file_config_spec(path@, file) {
                Ok(c) => r is Ok && config_matches(r->Ok_0, c),
                Err(_) => r is Err,
            },
    {
        let mut config = AgeConfig::default();
        config.source_path = Some(String::from_str(path));
        match file.backup {
            Some(backup) => {
                match backup.cleanup_on_success {
                    Some(c) => {
                        config.backup_cleanup = c;
                    },
                    None => {},
                }
                match backup.directory {
                    Some(d) => {
                        config.backup_directory = Some(d);
                    },
                    None => {},
                }
                match backup.retention {
                    Some(r) => {
                        match parse_retention_policy(r.as_str()) {
                            Ok(p) => {
                                config.backup_retention = p;
                            },
                            Err(e) => {
                                return Err(e);
                            },
                        }
                    },
                    None => {},
                }
            },
            None => {},
        }
        match file.streaming {
            Some(s) => match s.strategy {
                Some(st) => {
                    config.streaming_strategy = Some(st);
                },
                None => {},
            },
            None => {},
        }
        match config.validate() {
            Ok(()) => Ok(config),
            Err(e) => Err(e),
        }
    }
}

/// The settings a configuration file changes, as views.
pub struct FileSettings {
    pub source_path: Seq<char>,
    pub backup_cleanup: bool,
    pub backup_directory: Option<Seq<char>>,
    pub backup_retention: RetentionPolicyConfig,
    pub streaming_strategy: Option<Seq<char>>,
}

/// `c` is the default configuration with the settings `s`.
pub open spec fn config_matches(c: AgeConfig, s: FileSettings) -> bool {
    &&& crate::text::opt_view(c.source_path) == Some(s.source_path)
    &&& c.backup_cleanup == s.backup_cleanup
    &&& crate::text::opt_view(c.backup_directory) == s.backup_directory
    &&& c.backup_retention == s.backup_retention
    &&& crate::text::opt_view(c.streaming_strategy) == s.streaming_strategy
    &&& c.output_format == OutputFormat::Binary
    &&& c.tty_method == TtyMethod::Auto
    &&& c.security_level == SecurityLevel::Standard
    &&& c.max_passphrase_length == 1024
    &&& c.operation_timeout == 120
    &&& c.age_binary_path is None && c.script_binary_path is None && c.expect_binary_path is None
    &&& c.audit_logging && c.audit_log_path is None && c.security_validation && c.health_checks
    &&& c.max_retries == 2 && c.retry_delay == 1 && c.secure_deletion
    &&& c.temp_dir_override is None
    &&& c.encrypted_file_extension@ == "cage"@
}

/// The settings of a configuration file, or the reason it is rejected: a bad
/// retention policy, or a streaming strategy other than `temp`, `pipe` and
/// `auto`.
pub open spec fn file_config_spec(path: Seq<char>, file: AgeConfigFile) -> Result<FileSettings, Seq<char>> {
    let (cleanup, dir, ret) = match file.backup {
        Some(b) => (
            match b.cleanup_on_success { Some(c) => c, None => true },
            crate::text::opt_view(b.directory),
            match b.retention {
                Some(r) => retention_spec(r@),
                None => Ok(RetentionPolicyConfig::KeepLast(3)),
            },
        ),
        None => (true, None, Ok(RetentionPolicyConfig::KeepLast(3))),
    };
    let strategy = match file.streaming {
        Some(s) => crate::text::opt_view(s.strategy),
        None => None,
    };
    match ret {
        Err(why) => Err(why),
        Ok(policy) => match strategy {
            Some(st) => if st == "temp"@ || st == "pipe"@ || st == "auto"@ {
                Ok(FileSettings { source_path: path, backup_cleanup: cleanup, backup_directory: dir, backup_retention: policy, streaming_strategy: strategy })
            } else {
                Err("Valid values: temp, pipe, auto"@)
            },
            None => Ok(FileSettings { source_path: path, backup_cleanup: cleanup, backup_directory: dir, backup_retention: policy, streaming_strategy: strategy }),
        },
    }
}

} // verus!
