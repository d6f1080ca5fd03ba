//! The second backend interface: files and streams, identities and
//! recipients, capabilities and health.  This module holds what the shell
//! backend decides: the streaming strategy, the plan of each operation, the
//! recipient arguments of the `age` command, the validation of identities,
//! and its capabilities and health.  Running `age` and moving the bytes is
//! the caller's.
use vstd::prelude::*;
use crate::adapter::{probe_result, AgeAdapter, AgeProbe};
use crate::config::OutputFormat;
use crate::error::{AgeError, AgeResult};
use crate::paths::{extension, path_extension};
use crate::requests::{Identity, IdentityModel, Recipient};
use crate::text::{ascii_lowercase, is_ascii_text, join, join_spec, lowercase, owned, str_eq, to_lowercase, views};
use crate::VERSION;

verus! {

/// A streaming strategy.
#[derive(PartialEq, Eq, Structural, Clone, Copy, Debug)]
pub enum StreamingStrategyKind {
    /// Stage the stream in temporary files.
    TempFile,
    /// Pipe the stream through `age` directly.
    Pipe,
    /// Try the pipe, fall back to temporary files.
    Auto,
}

/// The strategy a configured value names, if any (case-insensitively):
/// `pipe` or `pipes`, `auto`, `temp` or `tempfile`.
pub open spec fn strategy_named(lower: Seq<char>) -> Option<StreamingStrategyKind> {
    if lower == "pipe"@ || lower == "pipes"@ {
        Some(StreamingStrategyKind::Pipe)
    } else if lower == "auto"@ {
        Some(StreamingStrategyKind::Auto)
    } else if lower == "temp"@ || lower == "tempfile"@ {
        Some(StreamingStrategyKind::TempFile)
    } else {
        None
    }
}

/// Law: the names of the strategies: `pipe` and `pipes` name the pipe,
/// `auto` the automatic choice, `temp` and `tempfile` temporary files, and
/// nothing else names one.
pub proof fn lemma_strategy_table(lower: Seq<char>)
    ensures
        strategy_named(lower) == Some(StreamingStrategyKind::Pipe) <==> (lower == seq!['p', 'i', 'p', 'e'] || lower
            == seq!['p', 'i', 'p', 'e', 's']),
        strategy_named(lower) == Some(StreamingStrategyKind::Auto) <==> lower == seq!['a', 'u', 't', 'o'],
        strategy_named(lower) == Some(StreamingStrategyKind::TempFile) <==> (lower == seq!['t', 'e', 'm', 'p']
            || lower == seq!['t', 'e', 'm', 'p', 'f', 'i', 'l', 'e']),
{
    reveal_strlit("pipe");
    reveal_strlit("pipes");
    reveal_strlit("auto");
    reveal_strlit("temp");
    reveal_strlit("tempfile");
    assert("pipe"@ =~= seq!['p', 'i', 'p', 'e']);
    assert("pipes"@ =~= seq!['p', 'i', 'p', 'e', 's']);
    assert("auto"@ =~= seq!['a', 'u', 't', 'o']);
    assert("temp"@ =~= seq!['t', 'e', 'm', 'p']);
    assert("tempfile"@ =~= seq!['t', 'e', 'm', 'p', 'f', 'i', 'l', 'e']);
}

/// The strategy named by `value` (compared in lowercase), if it names one.
pub fn parse_streaming_strategy(value: &str) -> (r: Option<StreamingStrategyKind>)
    ensures
        r == strategy_named(lowercase(value@)),
        is_ascii_text(value@) ==> r == strategy_named(ascii_lowercase(value@)),
        r == Some(StreamingStrategyKind::TempFile) <==> (lowercase(value@) == seq!['t', 'e', 'm', 'p']
            || lowercase(value@) == seq!['t', 'e', 'm', 'p', 'f', 'i', 'l', 'e']),
        r == Some(StreamingStrategyKind::Pipe) <==> (lowercase(value@) == seq!['p', 'i', 'p', 'e']
            || lowercase(value@) == seq!['p', 'i', 'p', 'e', 's']),
        r == Some(StreamingStrategyKind::Auto) <==> lowercase(value@) == seq!['a', 'u', 't', 'o'],
{
    proof {
        lemma_strategy_table(lowercase(value@));
    }
    let lower = to_lowercase(value);
    let l = lower.as_str();
    if str_eq(l, "pipe") || str_eq(l, "pipes") {
        Some(StreamingStrategyKind::Pipe)
    } else if str_eq(l, "auto") {
        Some(StreamingStrategyKind::Auto)
    } else if str_eq(l, "temp") || str_eq(l, "tempfile") {
        Some(StreamingStrategyKind::TempFile)
    } else {
        None
    }
}

/// The strategy in force for the configured value `value` (the strategy
/// variable's, if set): the one it names, temporary files otherwise.
pub fn streaming_strategy_from_value(value: Option<&str>) -> (r: StreamingStrategyKind)
    ensures
        r == (match value {
            Some(v) => match strategy_named(lowercase(v@)) {
                Some(k) => k,
                None => StreamingStrategyKind::TempFile,
            },
            None => StreamingStrategyKind::TempFile,
        }),
        r == StreamingStrategyKind::Pipe <==> (value matches Some(v) && (lowercase(v@) == seq!['p', 'i', 'p', 'e']
            || lowercase(v@) == seq!['p', 'i', 'p', 'e', 's'])),
        r == StreamingStrategyKind::Auto <==> (value matches Some(v) && lowercase(v@) == seq!['a', 'u', 't', 'o']),
{
    match value {
        Some(v) => match parse_streaming_strategy(v) {
            Some(k) => k,
            None => StreamingStrategyKind::TempFile,
        },
        None => StreamingStrategyKind::TempFile,
    }
}

/// How an encrypted file is encoded, as detected.
#[derive(PartialEq, Eq, Structural, Clone, Copy, Debug)]
pub enum DetectedFormat {
    AgeBinary,
    AgeArmor,
    Unknown,
}

/// What verifying an encrypted file found.
#[derive(Debug, Clone)]
pub struct VerificationResult {
    pub format_valid: bool,
    pub header_valid: bool,
    /// Whether the identity given decrypts it, when one was given.
    pub decryptable: Option<bool>,
    pub size_bytes: u64,
    pub format: DetectedFormat,
}

/// What can be read from an encrypted file without decrypting it.
#[derive(Debug, Clone)]
pub struct FileMetadata {
    pub recipient_count: Option<usize>,
    pub format: DetectedFormat,
    pub encrypted_size: u64,
    /// Creation time in seconds since the Unix epoch, where known.
    pub created: Option<u64>,
}

/// The health of a backend.
#[derive(Debug, Clone)]
pub struct HealthStatus {
    pub healthy: bool,
    pub age_binary: bool,
    pub age_version: Option<String>,
    pub can_encrypt: bool,
    pub can_decrypt: bool,
    pub streaming_available: bool,
    pub errors: Vec<String>,
}

/// The streaming strategies of a backend and their constraints.
#[derive(PartialEq, Eq, Structural, Clone, Copy, Debug)]
pub struct StreamingStrategyInfo {
    /// The strategy without any configuration.
    pub default: StreamingStrategyKind,
    /// The strategy in force.
    pub configured: StreamingStrategyKind,
    /// The strategy the environment asks for, if any.
    pub env_override: Option<StreamingStrategyKind>,
    pub supports_tempfile: bool,
    pub supports_pipe: bool,
    pub auto_fallback: bool,
    /// Piped encryption needs recipients.
    pub pipe_requires_recipients: bool,
    /// Piped decryption needs an identity file or SSH key.
    pub pipe_requires_identity: bool,
}

/// What a backend can do.
#[derive(PartialEq, Eq, Structural, Clone, Copy, Debug)]
pub struct AdapterCapabilities {
    pub passphrase: bool,
    pub public_key: bool,
    pub identity_files: bool,
    pub ssh_recipients: bool,
    pub streaming: bool,
    pub streaming_strategies: StreamingStrategyInfo,
    pub ascii_armor: bool,
    pub hardware_keys: bool,
    pub key_derivation: bool,
    /// Largest file handled, if limited.
    pub max_file_size: Option<u64>,
}

/// The capabilities of the shell backend when the strategy variable holds
/// `env_value` (if set).
pub open spec fn shell_capabilities_spec(env_override: Option<StreamingStrategyKind>) -> AdapterCapabilities {
    AdapterCapabilities {
        passphrase: true,
        public_key: true,
        identity_files: true,
        ssh_recipients: false,
        streaming: true,
        streaming_strategies: StreamingStrategyInfo {
            default: StreamingStrategyKind::TempFile,
            configured: match env_override {
                Some(k) => k,
                None => StreamingStrategyKind::TempFile,
            },
            env_override,
            supports_tempfile: true,
            supports_pipe: true,
            auto_fallback: true,
            pipe_requires_recipients: true,
            pipe_requires_identity: true,
        },
        ascii_armor: true,
        hardware_keys: false,
        key_derivation: false,
        max_file_size: None,
    }
}

/// Why a pipe cannot encrypt a stream.
pub const ERR_STREAM_PIPE_REQUIRES_RECIPIENTS: &'static str =
    "Pipe streaming requires recipients (public-key mode)";

/// Why a pipe cannot decrypt a stream.
pub const ERR_STREAM_PIPE_REQUIRES_IDENTITY: &'static str =
    "Pipe streaming requires an identity file or SSH key";

/// How a stream is processed.
#[derive(PartialEq, Eq, Structural, Clone, Copy, Debug)]
pub enum StreamPlan {
    /// Through a pipe; on failure, through temporary files if `fallback`.
    Pipe { fallback: bool },
    /// Through temporary files.
    TempFile,
}

/// An invalid operation `operation` refused for `reason`.
pub open spec fn invalid_operation(e: AgeError, operation: Seq<char>, reason: Seq<char>) -> bool {
    e matches AgeError::InvalidOperation { operation: o, reason: r } && o@ == operation && r@ == reason
}

/// An adapter feature that is not implemented, with message `m`.
pub open spec fn not_implemented(e: AgeError, m: Seq<char>) -> bool {
    e matches AgeError::AdapterNotImplemented(d) && d@ == m
}

/// The plan for a stream operation under `strategy`, the pipe being
/// possible or not: a pipe that is asked for but impossible is an error;
/// the pipe is used when possible and asked for, with fallback under `Auto`;
/// otherwise temporary files.
pub open spec fn stream_plan(strategy: StreamingStrategyKind, can_pipe: bool) -> Option<StreamPlan> {
    if !can_pipe && strategy == StreamingStrategyKind::Pipe {
        None
    } else if can_pipe && strategy != StreamingStrategyKind::TempFile {
        Some(StreamPlan::Pipe { fallback: strategy == StreamingStrategyKind::Auto })
    } else {
        Some(StreamPlan::TempFile)
    }
}

/// The identity can decrypt through a pipe: an identity file or SSH key.
pub open spec fn identity_pipes(identity: Identity) -> bool {
    identity is IdentityFile || identity is SshKey
}

/// The `-r` arguments for a list of keys.
pub open spec fn key_args(keys: Seq<Seq<char>>) -> Seq<Seq<char>>
    decreases keys.len(),
{
    if keys.len() == 0 {
        Seq::empty()
    } else {
        key_args(keys.drop_last()).push("-r"@).push(keys.last())
    }
}

/// What `age::ssh::Recipient::from_str` makes of `key`: the recipient's text
/// (its `Display`), or the text (`Debug`) of the parse error.
pub uninterp spec fn ssh_recipient_parse(key: Seq<char>) -> Result<Seq<char>, Seq<char>>;

/// The `-r` arguments for SSH keys, each converted, or the first conversion
/// error.
pub open spec fn ssh_args(keys: Seq<Seq<char>>) -> Result<Seq<Seq<char>>, Seq<char>>
    decreases keys.len(),
{
    if keys.len() == 0 {
        Ok(Seq::empty())
    } else {
        match ssh_args(keys.drop_last()) {
            Err(e) => Err(e),
            Ok(a) => match ssh_recipient_parse(keys.last()) {
                Err(e) => Err(e),
                Ok(r) => Ok(a.push("-r"@).push(r)),
            },
        }
    }
}

/// Why recipient arguments could not be made.
pub enum RecipientArgsError {
    /// The recipients file at the path does not exist.
    MissingFile(Seq<char>),
    /// An SSH key did not parse; the parser's message.
    BadSshKey(Seq<char>),
    /// Encrypting to oneself is not implemented.
    SelfRecipient,
}

/// The arguments for one recipient, its file existing or not.
pub open spec fn recipient_args(r: Recipient, file_exists: bool) -> Result<Seq<Seq<char>>, RecipientArgsError> {
    match r {
        Recipient::PublicKey(pk) => Ok(seq!["-r"@, pk@]),
        Recipient::MultipleKeys(list) => Ok(key_args(views(list@))),
        Recipient::RecipientsFile(path) => if file_exists {
            Ok(seq!["-R"@, path@])
        } else {
            Err(RecipientArgsError::MissingFile(path@))
        },
        Recipient::SshRecipients(keys) => match ssh_args(views(keys@)) {
            Ok(a) => Ok(a),
            Err(m) => Err(RecipientArgsError::BadSshKey(m)),
        },
        Recipient::SelfRecipient => Err(RecipientArgsError::SelfRecipient),
    }
}

/// The arguments for a list of recipients in order, or the first failure.
pub open spec fn all_recipient_args(rs: Seq<Recipient>, exists: Seq<bool>) -> Result<Seq<Seq<char>>, RecipientArgsError>
    decreases rs.len(),
{
    if rs.len() == 0 {
        Ok(Seq::empty())
    } else {
        match all_recipient_args(rs.drop_last(), exists) {
            Err(e) => Err(e),
            Ok(a) => match recipient_args(rs.last(), exists[rs.len() - 1]) {
                Err(e) => Err(e),
                Ok(b) => Ok(a + b),
            },
        }
    }
}

/// `e` is the error reported for the failure `f`.
pub open spec fn args_error(e: AgeError, f: RecipientArgsError) -> bool {
    match f {
        RecipientArgsError::MissingFile(p) => invalid_operation(e, "encrypt"@, "Recipients file not found: "@ + p),
        RecipientArgsError::BadSshKey(m) => invalid_operation(e, "ssh_to_recipient"@, m),
        RecipientArgsError::SelfRecipient => not_implemented(e, "Self recipient flow not yet implemented"@),
    }
}

/// Parses an SSH public key as an `age` recipient (`age::ssh::Recipient`'s
/// `FromStr`), giving its text or the parser's error, as named.
#[verifier::external_body]
fn parse_ssh_recipient(key: &str) -> (r: Result<String, String>)
    ensures
        match r {
            Ok(s) => ssh_recipient_parse(key@) == Ok::<Seq<char>, Seq<char>>(s@),
            Err(m) => ssh_recipient_parse(key@) == Err::<Seq<char>, Seq<char>>(m@),
        },
{
    match <age::ssh::Recipient as std::str::FromStr>::from_str(key) {
        Ok(rec) => Ok(rec.to_string()),
        Err(e) => Err(format!("{e:?}")),
    }
}

/// Converts an SSH public key to an `age` recipient.
pub fn ssh_to_recipient(ssh_pubkey: &str) -> (r: AgeResult<String>)
    ensures
        match ssh_recipient_parse(ssh_pubkey@) {
            Ok(s) => r matches Ok(t) && t@ == s,
            Err(m) => r matches Err(e) && invalid_operation(e, "ssh_to_recipient"@, m),
        },
{
    match parse_ssh_recipient(ssh_pubkey) {
        Ok(s) => Ok(s),
        Err(m) => Err(AgeError::InvalidOperation { operation: owned("ssh_to_recipient"), reason: m }),
    }
}

/// Appends `-r <key>` for each key.
fn push_key_args(args: &mut Vec<String>, keys: &Vec<String>)
    ensures
        views(final(args)@) == views(old(args)@) + key_args(views(keys@)),
{
    let ghost start = views(args@);
    let mut i: usize = 0;
    while i < keys.len()
        invariant
            i <= keys.len(),
            views(args@) == start + key_args(views(keys@).take(i as int)),
        decreases keys.len() - i,
    {
        let ghost before = args@;
        proof {
            assert(views(keys@).take(i + 1).drop_last() =~= views(keys@).take(i as int));
            assert(views(keys@).take(i + 1).last() == keys@[i as int]@);
        }
        let k = keys[i].clone();
        args.push(owned("-r"));
        args.push(k);
        proof {
            assert(views(args@) =~= views(before).push("-r"@).push(keys@[i as int]@));
            assert(views(args@) =~= start + key_args(views(keys@).take(i + 1)));
        }
        i = i + 1;
    }
    assert(views(keys@).take(keys.len() as int) =~= views(keys@));
}

/// Appends `-r <recipient>` for each SSH key, each converted, or returns the
/// first conversion error.
fn push_ssh_args(args: &mut Vec<String>, keys: &Vec<String>) -> (r: Result<(), String>)
    ensures
        match ssh_args(views(keys@)) {
            Ok(a) => r is Ok && views(final(args)@) == views(old(args)@) + a,
            Err(m) => r matches Err(t) && t@ == m,
        },
{
    let ghost start = views(args@);
    let mut i: usize = 0;
    while i < keys.len()
        invariant
            i <= keys.len(),
            ssh_args(views(keys@).take(i as int)) matches Ok(a) && views(args@) == start + a,
        decreases keys.len() - i,
    {
        proof {
            assert(views(keys@).take(i + 1).drop_last() =~= views(keys@).take(i as int));
        }
        let converted = parse_ssh_recipient(keys[i].as_str());
        proof {
            assert(views(keys@).take(i + 1).last() == keys@[i as int]@);
        }
        match converted {
            Ok(s) => {
                let ghost before = args@;
                let ghost sv = s@;
                args.push(owned("-r"));
                args.push(s);
                proof {
                    assert(views(args@) =~= views(before).push("-r"@).push(sv));
                    assert(views(args@) =~= start + ssh_args(views(keys@).take(i + 1))->Ok_0);
                }
            },
            Err(m) => {
                proof {
                    lemma_ssh_args_error_persists(views(keys@), i as int);
                }
                return Err(m);
            },
        }
        i = i + 1;
    }
    assert(views(keys@).take(keys.len() as int) =~= views(keys@));
    Ok(())
}

/// Lemma: an SSH conversion error among the first keys is the error of the
/// whole list.
proof fn lemma_ssh_args_error_persists(keys: Seq<Seq<char>>, i: int)
    requires
        0 <= i < keys.len(),
        ssh_args(keys.take(i)) is Ok,
        ssh_recipient_parse(keys[i]) is Err,
    ensures
        ssh_args(keys) == Err::<Seq<Seq<char>>, Seq<char>>(ssh_recipient_parse(keys[i])->Err_0),
    decreases keys.len() - i,
{
    assert(keys.take(i + 1).drop_last() =~= keys.take(i));
    lemma_ssh_args_error_from(keys, i + 1, ssh_recipient_parse(keys[i])->Err_0);
}

/// Lemma: once the conversion of a prefix fails, every longer prefix fails
/// with the same error.
proof fn lemma_ssh_args_error_from(keys: Seq<Seq<char>>, j: int, m: Seq<char>)
    requires
        0 <= j <= keys.len(),
        ssh_args(keys.take(j)) == Err::<Seq<Seq<char>>, Seq<char>>(m),
    ensures
        ssh_args(keys) == Err::<Seq<Seq<char>>, Seq<char>>(m),
    decreases keys.len() - j,
{
    if j == keys.len() {
        assert(keys.take(j) =~= keys);
    } else {
        assert(keys.take(j + 1).drop_last() =~= keys.take(j));
        lemma_ssh_args_error_from(keys, j + 1, m);
    }
}

/// The `age` arguments naming `recipients` in order (`-r <key>` for keys,
/// converted SSH keys, `-R <file>` for recipients files), where
/// `files_exist[i]` tells whether the file of the `i`th recipient exists.
pub fn collect_recipient_args(recipients: &Vec<Recipient>, files_exist: &Vec<bool>) -> (r: AgeResult<Vec<String>>)
    requires
        files_exist.len() == recipients.len(),
    ensures
        match all_recipient_args(recipients@, files_exist@) {
            Ok(a) => r matches Ok(v) && views(v@) == a,
            Err(f) => r matches Err(e) && args_error(e, f),
        },
{
    let mut args: Vec<String> = Vec::new();
    let mut i: usize = 0;
    while i < recipients.len()
        invariant
            i <= recipients.len(),
            files_exist.len() == recipients.len(),
            all_recipient_args(recipients@.take(i as int), files_exist@) matches Ok(a) && views(args@) == a,
        decreases recipients.len() - i,
    {
        let ghost before = views(args@);
        proof {
            assert(recipients@.take(i + 1).drop_last() =~= recipients@.take(i as int));
            assert(recipients@.take(i + 1).last() == recipients@[i as int]);
        }
        match &recipients[i] {
            Recipient::PublicKey(pk) => {
                args.push(owned("-r"));
                args.push(pk.clone());
                assert(views(args@) =~= before + seq!["-r"@, pk@]);
            },
            Recipient::MultipleKeys(list) => {
                push_key_args(&mut args, list);
            },
            Recipient::RecipientsFile(path) => {
                if !files_exist[i] {
                    let mut reason = owned("Recipients file not found: ");
                    reason.append(path.as_str());
                    proof {
                        lemma_args_error_persists(recipients@, files_exist@, i as int);
                    }
                    return Err(AgeError::InvalidOperation { operation: owned("encrypt"), reason });
                }
                args.push(owned("-R"));
                args.push(path.clone());
                assert(views(args@) =~= before + seq!["-R"@, path@]);
            },
            Recipient::SshRecipients(keys) => {
                match push_ssh_args(&mut args, keys) {
                    Ok(()) => {},
                    Err(m) => {
                        proof {
                            lemma_args_error_persists(recipients@, files_exist@, i as int);
                        }
                        return Err(AgeError::InvalidOperation { operation: owned("ssh_to_recipient"), reason: m });
                    },
                }
            },
            Recipient::SelfRecipient => {
                proof {
                    lemma_args_error_persists(recipients@, files_exist@, i as int);
                }
                return Err(AgeError::AdapterNotImplemented(owned("Self recipient flow not yet implemented")));
            },
        }
        i = i + 1;
    }
    assert(recipients@.take(recipients.len() as int) =~= recipients@);
    Ok(args)
}

/// Lemma: the failure of the recipient at `i`, after a prefix that succeeds,
/// is the failure of the whole list.
proof fn lemma_args_error_persists(rs: Seq<Recipient>, ex: Seq<bool>, i: int)
    requires
        0 <= i < rs.len(),
        all_recipient_args(rs.take(i), ex) is Ok,
        recipient_args(rs[i], ex[i]) is Err,
    ensures
        all_recipient_args(rs, ex) == Err::<Seq<Seq<char>>, RecipientArgsError>(recipient_args(rs[i], ex[i])->Err_0),
    decreases rs.len() - i,
{
    assert(rs.take(i + 1).drop_last() =~= rs.take(i));
    assert(rs.take(i + 1).last() == rs[i]);
    lemma_args_error_from(rs, ex, i + 1, recipient_args(rs[i], ex[i])->Err_0);
}

/// Lemma: a failure of a prefix is the failure of the whole list.
proof fn lemma_args_error_from(rs: Seq<Recipient>, ex: Seq<bool>, j: int, f: RecipientArgsError)
    requires
        0 <= j <= rs.len(),
        all_recipient_args(rs.take(j), ex) == Err::<Seq<Seq<char>>, RecipientArgsError>(f),
    ensures
        all_recipient_args(rs, ex) == Err::<Seq<Seq<char>>, RecipientArgsError>(f),
    decreases rs.len() - j,
{
    if j == rs.len() {
        assert(rs.take(j) =~= rs);
    } else {
        assert(rs.take(j + 1).drop_last() =~= rs.take(j));
        lemma_args_error_from(rs, ex, j + 1, f);
    }
}

/// What an encryption of a file will use.
#[derive(Debug)]
pub enum EncryptPlan {
    /// The recipients given.
    Recipients,
    /// This passphrase, through the terminal automation.
    Passphrase(String),
}

/// What a decryption of a file will use.
#[derive(Debug)]
pub enum DecryptPlan {
    /// This passphrase, through the terminal automation.
    Passphrase(String),
    /// This identity file or SSH key.
    IdentityFile(String),
}

/// Stands for the shell backend's decisions; running `age` is the caller's.
#[derive(Debug, Clone)]
pub struct ShellAdapterV2;

impl ShellAdapterV2 {
    /// The backend, if probing found the `age` binary usable.
    pub fn new(probe: &AgeProbe) -> (r: AgeResult<Self>)
        ensures
            match probe_result(*probe) {
                None => r is Ok,
                Some(m) => r matches Err(AgeError::AgeBinaryNotFound(d)) && d@ == m,
            },
    {
        match crate::adapter::ShellAdapter.validate_dependencies(probe) {
            Ok(()) => Ok(ShellAdapterV2),
            Err(e) => Err(e),
        }
    }

    /// How to encrypt a file: to the recipients when some are given, else
    /// with the passphrase identity; other identities are not implemented.
    pub fn encrypt_file_plan(&self, identity: &Identity, recipients: Option<&Vec<Recipient>>) -> (r: AgeResult<EncryptPlan>)
        ensures
            (recipients matches Some(rs) && rs.len() > 0) ==> (r matches Ok(EncryptPlan::Recipients)),
            !(recipients matches Some(rs) && rs.len() > 0) ==> match *identity {
                Identity::Passphrase(p) => r matches Ok(EncryptPlan::Passphrase(q)) && q@ == p@,
                Identity::PromptPassphrase => r matches Err(e) && not_implemented(
                    e,
                    "PromptPassphrase not supported in ShellAdapterV2"@,
                ),
                _ => r matches Err(e) && not_implemented(e, "Identity-based encryption not yet implemented"@),
            },
    {
        if let Some(rs) = recipients {
            if rs.len() > 0 {
                return Ok(EncryptPlan::Recipients);
            }
        }
        match identity {
            Identity::Passphrase(p) => Ok(EncryptPlan::Passphrase(p.clone())),
            Identity::PromptPassphrase => Err(
                AgeError::AdapterNotImplemented(owned("PromptPassphrase not supported in ShellAdapterV2")),
            ),
            _ => Err(AgeError::AdapterNotImplemented(owned("Identity-based encryption not yet implemented"))),
        }
    }

    /// How to decrypt a file with `identity`.
    pub fn decrypt_file_plan(&self, identity: &Identity) -> (r: AgeResult<DecryptPlan>)
        ensures
            match *identity {
                Identity::Passphrase(p) => r matches Ok(DecryptPlan::Passphrase(q)) && q@ == p@,
                Identity::IdentityFile(p) => r matches Ok(DecryptPlan::IdentityFile(q)) && q@ == p@,
                Identity::SshKey(p) => r matches Ok(DecryptPlan::IdentityFile(q)) && q@ == p@,
                Identity::PromptPassphrase => r matches Err(e) && not_implemented(
                    e,
                    "PromptPassphrase not supported in ShellAdapterV2"@,
                ),
            },
    {
        match identity {
            Identity::Passphrase(p) => Ok(DecryptPlan::Passphrase(p.clone())),
            Identity::IdentityFile(p) => Ok(DecryptPlan::IdentityFile(p.clone())),
            Identity::SshKey(p) => Ok(DecryptPlan::IdentityFile(p.clone())),
            Identity::PromptPassphrase => Err(
                AgeError::AdapterNotImplemented(owned("PromptPassphrase not supported in ShellAdapterV2")),
            ),
        }
    }

    /// The arguments of an `age` encryption to recipients: `-a` for armor,
    /// the recipient arguments, `-o <output>` and the input; an empty list of
    /// recipient arguments is refused.
    pub fn recipient_command(&self, recipient_args: &Vec<String>, format: OutputFormat, input: &str, output: &str) -> (r: AgeResult<Vec<String>>)
        ensures
            recipient_args.len() == 0 ==> (r matches Err(e) && invalid_operation(
                e,
                "encrypt_stream_pipe"@,
                "Recipient list cannot be empty"@,
            )),
            recipient_args.len() > 0 ==> (r matches Ok(v) && views(v@) == (if format == OutputFormat::AsciiArmor {
                seq!["-a"@]
            } else {
                Seq::<Seq<char>>::empty()
            }) + views(recipient_args@) + seq!["-o"@, output@, input@]),
    {
        if recipient_args.len() == 0 {
            return Err(AgeError::InvalidOperation {
                operation: owned("encrypt_stream_pipe"),
                reason: owned("Recipient list cannot be empty"),
            });
        }
        let mut v: Vec<String> = Vec::new();
        if format == OutputFormat::AsciiArmor {
            v.push(owned("-a"));
        }
        let ghost head = views(v@);
        let mut i: usize = 0;
        while i < recipient_args.len()
            invariant
                i <= recipient_args.len(),
                views(v@) == head + views(recipient_args@).take(i as int),
            decreases recipient_args.len() - i,
        {
            let ghost before = v@;
            v.push(recipient_args[i].clone());
            assert(views(v@) =~= views(before).push(recipient_args@[i as int]@));
            i = i + 1;
            assert(views(v@) =~= head + views(recipient_args@).take(i as int));
        }
        assert(views(recipient_args@).take(recipient_args.len() as int) =~= views(recipient_args@));
        v.push(owned("-o"));
        v.push(owned(output));
        v.push(owned(input));
        assert(views(v@) =~= head + views(recipient_args@) + seq!["-o"@, output@, input@]);
        Ok(v)
    }

    /// The arguments of an `age` encryption of a stream to recipients: `-a`
    /// for armor, then the recipient arguments; input and output are the
    /// process's standard streams.
    pub fn pipe_encrypt_args(&self, recipient_args: &Vec<String>, format: OutputFormat) -> (r: Vec<String>)
        ensures
            views(r@) == (if format == OutputFormat::AsciiArmor {
                seq!["-a"@]
            } else {
                Seq::<Seq<char>>::empty()
            }) + views(recipient_args@),
    {
        let mut v: Vec<String> = Vec::new();
        if format == OutputFormat::AsciiArmor {
            v.push(owned("-a"));
        }
        let ghost head = views(v@);
        let mut i: usize = 0;
        while i < recipient_args.len()
            invariant
                i <= recipient_args.len(),
                views(v@) == head + views(recipient_args@).take(i as int),
            decreases recipient_args.len() - i,
        {
            let ghost before = v@;
            v.push(recipient_args[i].clone());
            assert(views(v@) =~= views(before).push(recipient_args@[i as int]@));
            i = i + 1;
            assert(views(v@) =~= head + views(recipient_args@).take(i as int));
        }
        assert(views(recipient_args@).take(recipient_args.len() as int) =~= views(recipient_args@));
        v
    }

    /// Encrypting a stream through a pipe with a passphrase cannot work:
    /// `age` reads passphrases from the terminal, which the pipe occupies.
    pub(crate) fn encrypt_stream_pipe_passphrase(&self, passphrase: &str, format: OutputFormat) -> (r: AgeResult<u64>)
        ensures
            r matches Err(e) && invalid_operation(
                e,
                "encrypt_stream_pipe_passphrase"@,
                "Passphrase pipe streaming not feasible - use temp file strategy instead"@,
            ),
    {
        Err(AgeError::InvalidOperation {
            operation: owned("encrypt_stream_pipe_passphrase"),
            reason: owned("Passphrase pipe streaming not feasible - use temp file strategy instead"),
        })
    }

    /// Decrypting a stream through a pipe with a passphrase cannot work
    /// either.
    pub(crate) fn decrypt_stream_pipe_passphrase(&self, passphrase: &str) -> (r: AgeResult<u64>)
        ensures
            r matches Err(e) && invalid_operation(
                e,
                "decrypt_stream_pipe_passphrase"@,
                "Passphrase pipe streaming not feasible - use temp file strategy instead"@,
            ),
    {
        Err(AgeError::InvalidOperation {
            operation: owned("decrypt_stream_pipe_passphrase"),
            reason: owned("Passphrase pipe streaming not feasible - use temp file strategy instead"),
        })
    }

    /// How a stream held in a temporary file is encrypted: to the recipients
    /// when there are some, otherwise with the identity's passphrase; any
    /// other identity cannot encrypt a stream.
    pub fn temp_encrypt_plan(&self, identity: &Identity, has_recipients: bool) -> (r: AgeResult<EncryptPlan>)
        ensures
            has_recipients ==> r matches Ok(EncryptPlan::Recipients),
            !has_recipients ==> match *identity {
                Identity::Passphrase(p) => r matches Ok(EncryptPlan::Passphrase(q)) && q@ == p@,
                _ => r matches Err(e) && not_implemented(e, "Streaming requires passphrase or recipients"@),
            },
    {
        if has_recipients {
            return Ok(EncryptPlan::Recipients);
        }
        match identity {
            Identity::Passphrase(p) => Ok(EncryptPlan::Passphrase(p.clone())),
            _ => Err(AgeError::AdapterNotImplemented(owned("Streaming requires passphrase or recipients"))),
        }
    }

    /// The arguments of an `age` decryption of a stream with `identity`:
    /// `-d -i <key>` for an identity file or SSH key; a passphrase or a
    /// prompt cannot go through a pipe.
    pub fn pipe_decrypt_args(&self, identity: &Identity) -> (r: AgeResult<Vec<String>>)
        ensures
            match *identity {
                Identity::IdentityFile(p) => r matches Ok(v) && views(v@) == seq!["-d"@, "-i"@, p@],
                Identity::SshKey(p) => r matches Ok(v) && views(v@) == seq!["-d"@, "-i"@, p@],
                Identity::PromptPassphrase => r matches Err(e) && not_implemented(
                    e,
                    "PromptPassphrase not supported in ShellAdapterV2"@,
                ),
                Identity::Passphrase(_) => r matches Err(e) && not_implemented(
                    e,
                    "Passphrase-based streaming requires PTY; pipe strategy unavailable"@,
                ),
            },
    {
        let key = match identity {
            Identity::IdentityFile(p) => p,
            Identity::SshKey(p) => p,
            Identity::PromptPassphrase => {
                return Err(AgeError::AdapterNotImplemented(owned("PromptPassphrase not supported in ShellAdapterV2")));
            },
            Identity::Passphrase(_) => {
                return Err(
                    AgeError::AdapterNotImplemented(
                        owned("Passphrase-based streaming requires PTY; pipe strategy unavailable"),
                    ),
                );
            },
        };
        let v = vec![owned("-d"), owned("-i"), key.clone()];
        assert(views(v@) =~= seq!["-d"@, "-i"@, key@]);
        Ok(v)
    }

    /// How a piped `age` run ended: the `bytes` fed to it when it succeeded;
    /// otherwise a failure with its exit code and its error output, or a note
    /// that it wrote none.
    pub fn pipe_outcome(&self, success: bool, exit_code: Option<i32>, stderr: &str, bytes: u64) -> (r: AgeResult<u64>)
        ensures
            success ==> r == Ok::<u64, AgeError>(bytes),
            !success ==> (r matches Err(AgeError::ProcessExecutionFailed { command, exit_code: c, stderr: m })
                && command@ == "age"@ && c == exit_code && m@ == (if stderr@.len() == 0 {
                "age command failed without stderr output"@
            } else {
                stderr@
            })),
    {
        if success {
            return Ok(bytes);
        }
        let message = if stderr.is_empty() {
            owned("age command failed without stderr output")
        } else {
            owned(stderr)
        };
        Err(AgeError::ProcessExecutionFailed { command: owned("age"), exit_code, stderr: message })
    }

    /// The plan for encrypting a stream under `strategy`, recipients given or
    /// not.
    pub fn plan_encrypt_stream(&self, strategy: StreamingStrategyKind, has_recipients: bool) -> (r: AgeResult<StreamPlan>)
        ensures
            match stream_plan(strategy, has_recipients) {
                Some(p) => r == Ok::<StreamPlan, AgeError>(p),
                None => r matches Err(e) && invalid_operation(e, "encrypt_stream"@, ERR_STREAM_PIPE_REQUIRES_RECIPIENTS@),
            },
    {
        if !has_recipients && strategy == StreamingStrategyKind::Pipe {
            return Err(AgeError::InvalidOperation {
                operation: owned("encrypt_stream"),
                reason: owned(ERR_STREAM_PIPE_REQUIRES_RECIPIENTS),
            });
        }
        if has_recipients && strategy != StreamingStrategyKind::TempFile {
            Ok(StreamPlan::Pipe { fallback: strategy == StreamingStrategyKind::Auto })
        } else {
            Ok(StreamPlan::TempFile)
        }
    }

    /// The plan for decrypting a stream with `identity` under `strategy`.
    pub fn plan_decrypt_stream(&self, strategy: StreamingStrategyKind, identity: &Identity) -> (r: AgeResult<StreamPlan>)
        ensures
            match stream_plan(strategy, identity_pipes(*identity)) {
                Some(p) => r == Ok::<StreamPlan, AgeError>(p),
                None => r matches Err(e) && invalid_operation(e, "decrypt_stream"@, ERR_STREAM_PIPE_REQUIRES_IDENTITY@),
            },
    {
        let can_pipe = match identity {
            Identity::IdentityFile(_) => true,
            Identity::SshKey(_) => true,
            _ => false,
        };
        if !can_pipe && strategy == StreamingStrategyKind::Pipe {
            return Err(AgeError::InvalidOperation {
                operation: owned("decrypt_stream"),
                reason: owned(ERR_STREAM_PIPE_REQUIRES_IDENTITY),
            });
        }
        if can_pipe && strategy != StreamingStrategyKind::TempFile {
            Ok(StreamPlan::Pipe { fallback: strategy == StreamingStrategyKind::Auto })
        } else {
            Ok(StreamPlan::TempFile)
        }
    }

    /// Checks an identity: a passphrase must not be empty, an identity file
    /// or SSH key must exist (`path_exists` tells), a prompt is not
    /// supported.
    pub fn validate_identity(&self, identity: &Identity, path_exists: bool) -> (r: AgeResult<()>)
        ensures
            match *identity {
                Identity::Passphrase(p) => if p@.len() == 0 {
                    r matches Err(e) && invalid_operation(e, "validate_identity"@, "Empty passphrase"@)
                } else {
                    r is Ok
                },
                Identity::IdentityFile(p) => if path_exists {
                    r is Ok
                } else {
                    r matches Err(e) && invalid_operation(e, "validate_identity"@, "Identity file not found: "@ + p@)
                },
                Identity::SshKey(p) => if path_exists {
                    r is Ok
                } else {
                    r matches Err(e) && invalid_operation(e, "validate_identity"@, "SSH key not found: "@ + p@)
                },
                Identity::PromptPassphrase => r matches Err(e) && not_implemented(
                    e,
                    "PromptPassphrase not supported in ShellAdapterV2"@,
                ),
            },
    {
        match identity {
            Identity::Passphrase(p) => {
                if p.as_str().unicode_len() == 0 {
                    Err(AgeError::InvalidOperation {
                        operation: owned("validate_identity"),
                        reason: owned("Empty passphrase"),
                    })
                } else {
                    Ok(())
                }
            },
            Identity::IdentityFile(p) => {
                if path_exists {
                    Ok(())
                } else {
                    let mut reason = owned("Identity file not found: ");
                    reason.append(p.as_str());
                    Err(AgeError::InvalidOperation { operation: owned("validate_identity"), reason })
                }
            },
            Identity::SshKey(p) => {
                if path_exists {
                    Ok(())
                } else {
                    let mut reason = owned("SSH key not found: ");
                    reason.append(p.as_str());
                    Err(AgeError::InvalidOperation { operation: owned("validate_identity"), reason })
                }
            },
            Identity::PromptPassphrase => Err(
                AgeError::AdapterNotImplemented(owned("PromptPassphrase not supported in ShellAdapterV2")),
            ),
        }
    }

    /// Checks recipients: their arguments can be made.
    pub fn validate_recipients(&self, recipients: &Vec<Recipient>, files_exist: &Vec<bool>) -> (r: AgeResult<()>)
        requires
            files_exist.len() == recipients.len(),
        ensures
            match all_recipient_args(recipients@, files_exist@) {
                Ok(a) => r is Ok,
                Err(f) => r matches Err(e) && args_error(e, f),
            },
    {
        match collect_recipient_args(recipients, files_exist) {
            Ok(_) => Ok(()),
            Err(e) => Err(e),
        }
    }

    /// Identity generation is not implemented.
    pub fn generate_identity(&self) -> (r: AgeResult<(String, String)>)
        ensures
            r matches Err(e) && not_implemented(e, "Identity generation not implemented"@),
    {
        Err(AgeError::AdapterNotImplemented(owned("Identity generation not implemented")))
    }

    /// Verification of files is not implemented.
    pub fn verify_file(&self, file: &str, identity: Option<&Identity>) -> (r: AgeResult<VerificationResult>)
        ensures
            r matches Err(e) && not_implemented(e, "verify_file not implemented"@),
    {
        Err(AgeError::AdapterNotImplemented(owned("verify_file not implemented")))
    }

    /// Inspection of files is not implemented.
    pub fn inspect_file(&self, file: &str) -> (r: AgeResult<FileMetadata>)
        ensures
            r matches Err(e) && not_implemented(e, "inspect_file not implemented"@),
    {
        Err(AgeError::AdapterNotImplemented(owned("inspect_file not implemented")))
    }

    /// A file is taken as encrypted when its extension is `cage`.
    pub fn is_encrypted(&self, file: &str) -> (r: bool)
        ensures
            r == (path_extension(file@) == Some("cage"@)),
    {
        match extension(file) {
            Some(e) => str_eq(e.as_str(), "cage"),
            None => false,
        }
    }

    /// The health found when the `age` binary is, or is not, usable.
    pub fn health_status(&self, age_available: bool) -> (h: HealthStatus)
        ensures
            h.healthy == age_available,
            h.age_binary == age_available,
            h.age_version is None,
            h.can_encrypt == age_available,
            h.can_decrypt == age_available,
            h.streaming_available == age_available,
            age_available ==> h.errors.len() == 0,
            !age_available ==> views(h.errors@) == seq!["Age binary not available"@],
    {
        let mut errors: Vec<String> = Vec::new();
        if !age_available {
            errors.push(owned("Age binary not available"));
            assert(views(errors@) =~= seq!["Age binary not available"@]);
        }
        HealthStatus {
            healthy: age_available,
            age_binary: age_available,
            age_version: None,
            can_encrypt: age_available,
            can_decrypt: age_available,
            streaming_available: age_available,
            errors,
        }
    }

    /// The capabilities of the backend when the strategy variable holds
    /// `env_value` (if set): its override is the strategy it names, if any.
    pub fn capabilities(&self, env_value: Option<&str>) -> (c: AdapterCapabilities)
        ensures
            c == shell_capabilities_spec(match env_value {
                Some(v) => strategy_named(lowercase(v@)),
                None => None,
            }),
    {
        let env_override = match env_value {
            Some(v) => parse_streaming_strategy(v),
            None => None,
        };
        let configured = match env_override {
            Some(k) => k,
            None => StreamingStrategyKind::TempFile,
        };
        AdapterCapabilities {
            passphrase: true,
            public_key: true,
            identity_files: true,
            ssh_recipients: false,
            streaming: true,
            streaming_strategies: StreamingStrategyInfo {
                default: StreamingStrategyKind::TempFile,
                configured,
                env_override,
                supports_tempfile: true,
                supports_pipe: true,
                auto_fallback: true,
                pipe_requires_recipients: true,
                pipe_requires_identity: true,
            },
            ascii_armor: true,
            hardware_keys: false,
            key_derivation: false,
            max_file_size: None,
        }
    }

    /// The backend's name.
    pub fn adapter_name(&self) -> (r: &'static str)
        ensures
            r@ == "ShellAdapterV2"@,
    {
        "ShellAdapterV2"
    }

    /// The backend's version: `shell-v2-<version>`.
    pub fn adapter_version(&self) -> (r: String)
        ensures
            r@ == "shell-v2-"@ + VERSION@,
    {
        let mut s = owned("shell-v2-");
        s.append(VERSION);
        s
    }
}

/// Piping passphrase-encrypted streams, which `age` cannot do: kept for
/// callers that ask.
pub trait PassphrasePipeStreaming {
    /// Whether passphrase pipe streaming is on.
    fn is_passphrase_pipe_enabled(&self) -> bool;

    /// Turns passphrase pipe streaming on or off.
    fn enable_passphrase_pipe(&mut self, enable: bool);
}

impl PassphrasePipeStreaming for ShellAdapterV2 {
    fn is_passphrase_pipe_enabled(&self) -> (r: bool)
        ensures
            !r,
    {
        false
    }

    fn enable_passphrase_pipe(&mut self, enable: bool)
        ensures
            *final(self) == *old(self),
    {
    }
}

/// A backend of the second interface, as far as the first interface needs
/// it.
///
/// As with the first interface, each backend says through the relations
/// below which answers it may give to a request; one that says nothing more
/// allows every answer.
pub trait AgeAdapterV2 {
    /// `r` is an answer this backend may give to a request to encrypt
    /// `input` into `output` with `identity`, or to `recipients`, in
    /// `format`.
    open spec fn encrypts_file(
        &self,
        input: Seq<char>,
        output: Seq<char>,
        identity: IdentityModel,
        recipients: Option<Seq<Recipient>>,
        format: OutputFormat,
        r: AgeResult<()>,
    ) -> bool {
        true
    }

    /// `r` is an answer this backend may give to a request to decrypt
    /// `input` into `output` with `identity`.
    open spec fn decrypts_file(&self, input: Seq<char>, output: Seq<char>, identity: IdentityModel, r: AgeResult<()>) -> bool {
        true
    }

    /// `r` is an answer this backend may give to a health check.
    open spec fn reports_health(&self, r: AgeResult<HealthStatus>) -> bool {
        true
    }

    /// `name` may be this backend's name.
    open spec fn names(&self, name: Seq<char>) -> bool {
        true
    }

    /// `version` may be this backend's version.
    open spec fn versions(&self, version: Seq<char>) -> bool {
        true
    }

    /// Encrypts a file with an identity, or to recipients.
    fn encrypt_file(
        &self,
        input: &str,
        output: &str,
        identity: &Identity,
        recipients: Option<&Vec<Recipient>>,
        format: OutputFormat,
    ) -> (r: AgeResult<()>)
        ensures
            self.encrypts_file(
                input@,
                output@,
                identity.model(),
                match recipients {
                    Some(v) => Some(v@),
                    None => None,
                },
                format,
                r,
            ),
    ;

    /// Decrypts a file with an identity.
    fn decrypt_file(&self, input: &str, output: &str, identity: &Identity) -> (r: AgeResult<()>)
        ensures
            self.decrypts_file(input@, output@, identity.model(), r),
    ;

    /// The backend's health.
    fn health_check(&self) -> (r: AgeResult<HealthStatus>)
        ensures
            self.reports_health(r),
    ;

    /// The backend's name.
    fn adapter_name(&self) -> (r: &'static str)
        ensures
            self.names(r@),
    ;

    /// The backend's version.
    fn adapter_version(&self) -> (r: String)
        ensures
            self.versions(r@),
    ;
}

/// `r` is how the first interface reports the health `status`: `Ok` when
/// healthy, else an error listing its problems.
pub open spec fn health_from(status: HealthStatus, r: AgeResult<()>) -> bool {
    if status.healthy {
        r is Ok
    } else {
        r matches Err(AgeError::HealthCheckFailed(m)) && m@ == join_spec(views(status.errors@), ", "@)
    }
}

/// Serves a backend of the second interface through the first.
pub struct AdapterV1Compat<A: AgeAdapterV2> {
    inner: A,
}

impl<A: AgeAdapterV2> AdapterV1Compat<A> {
    /// The wrapped backend.
    pub closed spec fn spec_inner(&self) -> A {
        self.inner
    }

    /// Wraps `adapter`.
    pub fn new(adapter: A) -> (c: Self)
        ensures
            c.spec_inner() == adapter,
    {
        AdapterV1Compat { inner: adapter }
    }

    /// The health of the wrapped backend as the first interface reports it:
    /// an error listing its problems unless it is healthy.
    pub fn health_from_status(status: &HealthStatus) -> (r: AgeResult<()>)
        ensures
            health_from(*status, r),
            status.healthy ==> r is Ok,
            !status.healthy ==> (r matches Err(AgeError::HealthCheckFailed(m)) && m@ == join_spec(
                views(status.errors@),
                ", "@,
            )),
    {
        if status.healthy {
            Ok(())
        } else {
            Err(AgeError::HealthCheckFailed(join(&status.errors, ", ")))
        }
    }
}

impl<A: AgeAdapterV2> AgeAdapter for AdapterV1Compat<A> {
    /// The wrapped backend's answer to the passphrase as identity, with no
    /// recipients.
    open spec fn encrypts(&self, input: Seq<char>, output: Seq<char>, passphrase: Seq<char>, format: OutputFormat, r: AgeResult<()>) -> bool {
        self.spec_inner().encrypts_file(input, output, IdentityModel::Passphrase(passphrase), None, format, r)
    }

    open spec fn decrypts(&self, input: Seq<char>, output: Seq<char>, passphrase: Seq<char>, r: AgeResult<()>) -> bool {
        self.spec_inner().decrypts_file(input, output, IdentityModel::Passphrase(passphrase), r)
    }

    /// The wrapped backend's health as the first interface reports it, or
    /// its error.
    open spec fn checks_health(&self, r: AgeResult<()>) -> bool {
        ||| exists|s: HealthStatus| #[trigger] self.spec_inner().reports_health(Ok(s)) && health_from(s, r)
        ||| r matches Err(e) && self.spec_inner().reports_health(Err(e))
    }

    open spec fn names(&self, name: Seq<char>) -> bool {
        self.spec_inner().names(name)
    }

    open spec fn versions(&self, version: Seq<char>) -> bool {
        self.spec_inner().versions(version)
    }

    fn encrypt(&self, input: &str, output: &str, passphrase: &str, format: OutputFormat) -> (r: AgeResult<()>) {
        let identity = Identity::Passphrase(owned(passphrase));
        self.inner.encrypt_file(input, output, &identity, None, format)
    }

    fn decrypt(&self, input: &str, output: &str, passphrase: &str) -> (r: AgeResult<()>) {
        let identity = Identity::Passphrase(owned(passphrase));
        self.inner.decrypt_file(input, output, &identity)
    }

    fn health_check(&self) -> (r: AgeResult<()>) {
        let answer = self.inner.health_check();
        match answer {
            Ok(status) => {
                let r = Self::health_from_status(&status);
                assert(self.spec_inner().reports_health(Ok(status)));
                r
            },
            Err(e) => Err(e),
        }
    }

    fn adapter_name(&self) -> (r: &'static str) {
        self.inner.adapter_name()
    }

    fn adapter_version(&self) -> (r: String) {
        self.inner.adapter_version()
    }
}

/// The buffer size of streaming operations.
pub const DEFAULT_BUFFER_SIZE: usize = 8192;

/// A fixed buffer with a fill position.
pub struct StreamBuffer {
    buffer: Vec<u8>,
    position: usize,
    capacity: usize,
}

impl StreamBuffer {
    pub closed spec fn spec_position(&self) -> usize {
        self.position
    }

    pub closed spec fn spec_capacity(&self) -> usize {
        self.capacity
    }

    pub closed spec fn spec_bytes(&self) -> Seq<u8> {
        self.buffer@
    }

    /// The buffer holds exactly `capacity` bytes and its position is within.
    pub open spec fn wf(&self) -> bool {
        &&& self.spec_bytes().len() == self.spec_capacity()
        &&& self.spec_position() <= self.spec_capacity()
    }

    /// A zeroed buffer of `capacity` bytes at position 0.
    pub fn new(capacity: usize) -> (b: Self)
        ensures
            b.wf(),
            b.spec_capacity() == capacity,
            b.spec_position() == 0,
    {
        StreamBuffer { buffer: vec![0u8; capacity], position: 0, capacity }
    }

    /// A buffer of the default size.
    pub fn default() -> (b: Self)
        ensures
            b.wf(),
            b.spec_capacity() == DEFAULT_BUFFER_SIZE,
            b.spec_position() == 0,
    {
        Self::new(DEFAULT_BUFFER_SIZE)
    }

    /// The whole buffer, to be written into.
    pub fn as_mut_slice(&mut self) -> (s: &mut [u8])
        requires
            old(self).wf(),
        ensures
            s@ == old(self).spec_bytes(),
            final(self).spec_bytes() == final(s)@,
            final(self).spec_position() == old(self).spec_position(),
            final(self).spec_capacity() == old(self).spec_capacity(),
    {
        self.buffer.as_mut_slice()
    }

    /// The bytes up to the position.
    pub fn filled(&self) -> (s: &[u8])
        requires
            self.wf(),
        ensures
            s@ == self.spec_bytes().subrange(0, self.spec_position() as int),
    {
        &self.buffer.as_slice()[0..self.position]
    }

    /// Moves the position forward by `count`, up to the capacity.
    pub fn advance(&mut self, count: usize)
        requires
            old(self).wf(),
        ensures
            final(self).wf(),
            final(self).spec_position() == (if old(self).spec_position() + count < old(self).spec_capacity() {
                old(self).spec_position() + count
            } else {
                old(self).spec_capacity() as int
            }),
            final(self).spec_capacity() == old(self).spec_capacity(),
            final(self).spec_bytes() == old(self).spec_bytes(),
    {
        if count < self.capacity - self.position {
            self.position = self.position + count;
        } else {
            self.position = self.capacity;
        }
    }

    /// Moves the position back to the start.
    pub fn reset(&mut self)
        requires
            old(self).wf(),
        ensures
            final(self).wf(),
            final(self).spec_position() == 0,
            final(self).spec_capacity() == old(self).spec_capacity(),
            final(self).spec_bytes() == old(self).spec_bytes(),
    {
        self.position = 0;
    }

    /// The position.
    pub fn position(&self) -> (r: usize)
        ensures
            r == self.spec_position(),
    {
        self.position
    }

    /// The capacity.
    pub fn capacity(&self) -> (r: usize)
        ensures
            r == self.spec_capacity(),
    {
        self.capacity
    }
}

} // verus!
