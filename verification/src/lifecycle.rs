//! The lifecycle of encrypted files: options of lock and unlock, the results
//! of authority, verification and emergency operations, operation records,
//! and the naming of backups.  Copying and moving files is the caller's.
use vstd::prelude::*;
use crate::config::{dotted, OutputFormat};
use crate::error::{AgeError, AgeResult};
use crate::paths::{file_name, join, parent, path_file_name, path_join, path_parent};
use crate::text::{kv_get, owned, starts_with, is_prefix, dec_digits, u64_to_string};

verus! {

/// Options of a lock.
#[derive(Debug, Clone)]
pub struct LockOptions {
    pub recursive: bool,
    pub format: OutputFormat,
    pub pattern_filter: Option<String>,
    pub backup_before_lock: bool,
}

impl LockOptions {
    /// Not recursive, binary output, no filter, no backup.
    pub fn default() -> (o: Self)
        ensures
            !o.recursive,
            o.format == OutputFormat::Binary,
            o.pattern_filter is None,
            !o.backup_before_lock,
    {
        LockOptions { recursive: false, format: OutputFormat::Binary, pattern_filter: None, backup_before_lock: false }
    }
}

/// Options of an unlock.
#[derive(Debug, Clone)]
pub struct UnlockOptions {
    pub selective: bool,
    pub verify_before_unlock: bool,
    pub pattern_filter: Option<String>,
    pub preserve_encrypted: bool,
}

impl UnlockOptions {
    /// Not selective, verified first, no filter, encrypted files not kept.
    pub fn default() -> (o: Self)
        ensures
            !o.selective,
            o.verify_before_unlock,
            o.pattern_filter is None,
            !o.preserve_encrypted,
    {
        UnlockOptions { selective: false, verify_before_unlock: true, pattern_filter: None, preserve_encrypted: false }
    }
}

/// The result of an operation on the authority chain.
#[derive(Debug, Clone)]
pub struct AuthorityResult {
    pub operation: String,
    pub recipient: String,
    pub success: bool,
    pub authority_chain_status: String,
}

/// The result of verifying files.
#[derive(Debug, Clone)]
pub struct VerificationResult {
    pub verified_files: Vec<String>,
    pub failed_files: Vec<String>,
    pub authority_status: String,
    pub overall_status: String,
}

/// The result of an emergency operation.
#[derive(Debug, Clone)]
pub struct EmergencyResult {
    pub operation: String,
    pub affected_files: Vec<String>,
    pub recovery_actions: Vec<String>,
    pub security_events: Vec<String>,
}

/// A record of an operation performed.
#[derive(Debug, Clone)]
pub struct OperationRecord {
    pub operation_type: String,
    pub target_path: String,
    /// Clock reading of the operation, in nanoseconds.
    pub timestamp: u128,
    pub success: bool,
    pub details: Vec<(String, String)>,
}

impl OperationRecord {
    /// The detail recorded under `key`, if any.
    pub open spec fn detail(&self, key: Seq<char>) -> Option<Seq<char>> {
        kv_get(self.details@, key)
    }
}

/// The checks of one encrypted file.
#[derive(Debug, Clone)]
pub struct FileVerificationStatus {
    pub file_path: String,
    pub is_encrypted: bool,
    pub format_valid: bool,
    pub header_valid: bool,
    pub size_check: bool,
    pub error_message: Option<String>,
}

impl FileVerificationStatus {
    /// Every check passed and no error was recorded.
    pub fn is_valid(&self) -> (r: bool)
        ensures
            r == (self.is_encrypted && self.format_valid && self.header_valid && self.size_check
                && self.error_message is None),
    {
        self.is_encrypted && self.format_valid && self.header_valid && self.size_check
            && self.error_message.is_none()
    }
}

/// A backup that was made.
#[derive(Debug, Clone)]
pub struct BackupInfo {
    pub original_path: String,
    pub backup_path: String,
    /// Creation time in seconds since the Unix epoch.
    pub created_at: u64,
    pub size_bytes: u64,
}

impl BackupInfo {
    /// Whole seconds since the backup was made, at clock reading `now`
    /// (seconds since the epoch); zero if the clock is behind.
    pub fn age_seconds(&self, now: u64) -> (r: u64)
        ensures
            r == (if now >= self.created_at { (now - self.created_at) as u64 } else { 0u64 }),
    {
        if now >= self.created_at {
            now - self.created_at
        } else {
            0
        }
    }
}

/// What becomes of a file's backup once its lock is over.
#[derive(PartialEq, Eq, Structural, Clone, Copy, Debug)]
pub enum BackupAction {
    /// Remove the backup.
    Cleanup,
    /// Copy the backup back over the file.
    Restore,
    /// Leave things as they are.
    Keep,
}

/// How backing a file up before its lock went.
pub enum BackupStep {
    /// No backup was asked for.
    NotAsked,
    /// The backup was made.
    Made,
    /// Making it failed with this error.
    Failed(AgeError),
}

/// What to do with a file's backup after its lock: remove it when the lock
/// succeeded and backups are cleaned up on success, copy it back when the
/// lock failed, else leave it.
pub fn backup_after_lock(has_backup: bool, locked: bool, cleanup_on_success: bool) -> (a: BackupAction)
    ensures
        has_backup && locked && cleanup_on_success ==> a == BackupAction::Cleanup,
        has_backup && !locked ==> a == BackupAction::Restore,
        !has_backup || (locked && !cleanup_on_success) ==> a == BackupAction::Keep,
{
    if !has_backup {
        BackupAction::Keep
    } else if locked {
        if cleanup_on_success {
            BackupAction::Cleanup
        } else {
            BackupAction::Keep
        }
    } else {
        BackupAction::Restore
    }
}

/// Where backups go and what they are called.
#[derive(Debug, Clone)]
pub struct BackupManager {
    backup_dir: Option<String>,
    backup_extension: String,
    cleanup_on_success: bool,
}

impl BackupManager {
    pub closed spec fn spec_backup_dir(&self) -> Option<Seq<char>> {
        match self.backup_dir {
            Some(d) => Some(d@),
            None => None,
        }
    }

    pub closed spec fn spec_extension(&self) -> Seq<char> {
        self.backup_extension@
    }

    pub closed spec fn spec_cleanup(&self) -> bool {
        self.cleanup_on_success
    }

    /// Backups beside the original, with extension `.bak`, removed after
    /// success.
    pub fn new() -> (m: Self)
        ensures
            m.spec_backup_dir() is None,
            m.spec_extension() == ".bak"@,
            m.spec_cleanup(),
    {
        BackupManager { backup_dir: None, backup_extension: owned(".bak"), cleanup_on_success: true }
    }

    /// Backups in `backup_dir`, with extension `.bak`, removed after success.
    pub fn with_backup_dir(backup_dir: String) -> (m: Self)
        ensures
            m.spec_backup_dir() == Some(backup_dir@),
            m.spec_extension() == ".bak"@,
            m.spec_cleanup(),
    {
        BackupManager { backup_dir: Some(backup_dir), backup_extension: owned(".bak"), cleanup_on_success: true }
    }

    /// Sets the extension, with a leading dot added when missing.
    pub fn with_extension(self, extension: String) -> (m: Self)
        ensures
            m.spec_extension() == dotted(extension@),
            m.spec_backup_dir() == self.spec_backup_dir(),
            m.spec_cleanup() == self.spec_cleanup(),
    {
        let mut m = self;
        proof {
            reveal_strlit(".");
            assert("."@ =~= seq!['.']);
            crate::text::lemma_prefix_one('.', extension@);
        }
        if starts_with(extension.as_str(), ".") {
            m.backup_extension = extension;
        } else {
            let mut e = owned(".");
            e.append(extension.as_str());
            m.backup_extension = e;
        }
        m
    }

    /// Sets whether backups are removed after success.
    pub fn with_cleanup(self, cleanup: bool) -> (m: Self)
        ensures
            m.spec_cleanup() == cleanup,
            m.spec_backup_dir() == self.spec_backup_dir(),
            m.spec_extension() == self.spec_extension(),
    {
        let mut m = self;
        m.cleanup_on_success = cleanup;
        m
    }

    /// The backup directory, if set.
    pub fn backup_dir(&self) -> (r: Option<&String>)
        ensures
            match r {
                Some(d) => self.spec_backup_dir() == Some(d@),
                None => self.spec_backup_dir() is None,
            },
    {
        self.backup_dir.as_ref()
    }

    /// The backup extension.
    pub fn backup_extension(&self) -> (r: &str)
        ensures
            r@ == self.spec_extension(),
    {
        self.backup_extension.as_str()
    }

    /// Whether backups are removed after success.
    pub fn cleanup_on_success(&self) -> (r: bool)
        ensures
            r == self.spec_cleanup(),
    {
        self.cleanup_on_success
    }

    /// Where the backup of `file_path` goes: its file name with the backup
    /// extension, in the backup directory, or else beside the file (in `.`
    /// for a path without parent).  A path without a file name is refused.
    pub fn backup_path(&self, file_path: &str) -> (r: AgeResult<String>)
        ensures
            match path_file_name(file_path@) {
                None => r matches Err(AgeError::FileError { operation, path, source }) && operation@
                    == "get_filename"@ && path@ == file_path@ && source@ == "Invalid filename"@,
                Some(name) => r matches Ok(p) && p@ == path_join(
                    match self.spec_backup_dir() {
                        Some(d) => d,
                        None => match path_parent(file_path@) {
                            Some(q) => q,
                            None => "."@,
                        },
                    },
                    name + self.spec_extension(),
                ),
            },
    {
        let name = match file_name(file_path) {
            Some(n) => n,
            None => {
                return Err(AgeError::FileError {
                    operation: owned("get_filename"),
                    path: owned(file_path),
                    source: owned("Invalid filename"),
                });
            },
        };
        let mut backup_name = name;
        backup_name.append(self.backup_extension.as_str());
        let dir = match &self.backup_dir {
            Some(d) => d.clone(),
            None => match parent(file_path) {
                Some(p) => p,
                None => owned("."),
            },
        };
        Ok(join(dir.as_str(), backup_name.as_str()))
    }

    /// Where an existing backup at `backup_path` is moved aside to, at clock
    /// reading `timestamp` (seconds since the epoch):
    /// `<backup_path>.conflict.<timestamp>`.
    pub fn conflict_path(&self, backup_path: &str, timestamp: u64) -> (r: String)
        ensures
            r@ == backup_path@ + ".conflict."@ + dec_digits(timestamp as nat),
    {
        let mut s = owned(backup_path);
        s.append(".conflict.");
        s.append(u64_to_string(timestamp).as_str());
        s
    }
}

} // verus!
