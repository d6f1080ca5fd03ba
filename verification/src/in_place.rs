//! Replacing a file by its encrypted form in place, with its safety layers:
//! the recovery file and its contents, the danger-mode checks, and what an
//! unfinished operation leaves to remove.  Touching the file system and
//! prompting are the caller's.
use vstd::prelude::*;
use crate::error::{AgeError, AgeResult};
use crate::paths::{path_with_extension, with_extension};
use crate::text::{chars_of, owned, trim_chars, trim_spec, views};

verus! {

/// Whether recovery files are made.
#[derive(Debug)]
pub struct RecoveryManager {
    create_recovery: bool,
    danger_mode: bool,
}

/// The text of a recovery file.
pub open spec fn recovery_text(generated: Seq<char>, original: Seq<char>, operation: Seq<char>, passphrase: Seq<char>) -> Seq<char> {
    "# CAGE RECOVERY INFORMATION\n# Generated: "@ + generated + "\n# Original: "@ + original
        + "\n# Operation: "@ + operation + "\n# Passphrase: "@ + passphrase
        + "\n#\n# TO RECOVER YOUR FILE:\n# cage unlock "@ + original + " "@ + passphrase
        + "\n#\n# DELETE THIS FILE ONCE YOU'VE VERIFIED YOUR ENCRYPTION!\n# This file contains your passphrase and is a security risk if left around.\n"@
}

impl RecoveryManager {
    pub closed spec fn spec_create(&self) -> bool {
        self.create_recovery
    }

    pub closed spec fn spec_danger(&self) -> bool {
        self.danger_mode
    }

    /// A manager that makes recovery files or not, in danger mode or not.
    pub fn new(create_recovery: bool, danger_mode: bool) -> (m: Self)
        ensures
            m.spec_create() == create_recovery,
            m.spec_danger() == danger_mode,
    {
        RecoveryManager { create_recovery, danger_mode }
    }

    /// Whether a recovery file may be made: only when asked for and outside
    /// danger mode.
    pub fn check_allowed(&self) -> (r: AgeResult<()>)
        ensures
            self.spec_create() && !self.spec_danger() ==> r is Ok,
            !(self.spec_create() && !self.spec_danger()) ==> (r matches Err(AgeError::InvalidOperation { operation, reason })
                && operation@ == "create_recovery_file"@ && reason@ == "Recovery file creation disabled"@),
    {
        if !self.create_recovery || self.danger_mode {
            return Err(AgeError::InvalidOperation {
                operation: owned("create_recovery_file"),
                reason: owned("Recovery file creation disabled"),
            });
        }
        Ok(())
    }

    /// Where the recovery file of `original` goes: its extension replaced by
    /// `tmp.recover`.
    pub fn recovery_path(&self, original: &str) -> (r: String)
        ensures
            r@ == path_with_extension(original@, "tmp.recover"@),
    {
        proof {
            reveal_strlit("tmp.recover");
        }
        with_extension(original, "tmp.recover")
    }

    /// The recovery file's text, written `secs` seconds after the Unix
    /// epoch: generated at that UTC date and time (left blank where it has
    /// none).
    pub fn recovery_content_at(&self, original: &str, operation: &str, passphrase: &str, secs: i64) -> (r: String)
        ensures
            r@ == recovery_text(
                match crate::clock_text::utc_text(secs) {
                    Some(t) => t,
                    None => Seq::<char>::empty(),
                },
                original@,
                operation@,
                passphrase@,
            ),
    {
        let generated = match crate::clock_text::utc_timestamp_text(secs) {
            Some(t) => t,
            None => String::new(),
        };
        self.recovery_content(original, operation, passphrase, generated.as_str())
    }

    /// The recovery file's text, `generated` being the time of writing.
    pub fn recovery_content(&self, original: &str, operation: &str, passphrase: &str, generated: &str) -> (r: String)
        ensures
            r@ == recovery_text(generated@, original@, operation@, passphrase@),
    {
        let mut s = owned("# CAGE RECOVERY INFORMATION\n# Generated: ");
        s.append(generated);
        s.append("\n# Original: ");
        s.append(original);
        s.append("\n# Operation: ");
        s.append(operation);
        s.append("\n# Passphrase: ");
        s.append(passphrase);
        s.append("\n#\n# TO RECOVER YOUR FILE:\n# cage unlock ");
        s.append(original);
        s.append(" ");
        s.append(passphrase);
        s.append(
            "\n#\n# DELETE THIS FILE ONCE YOU'VE VERIFIED YOUR ENCRYPTION!\n# This file contains your passphrase and is a security risk if left around.\n",
        );
        s
    }
}

/// The phrase that confirms an unrecoverable in-place operation.
pub const DANGER_CONFIRMATION: &'static str = "DELETE MY FILE";

/// The safety checks of an in-place operation.
#[derive(Debug)]
pub struct SafetyValidator {
    danger_mode: bool,
    i_am_sure: bool,
    env_danger: bool,
}

impl SafetyValidator {
    pub closed spec fn spec_danger(&self) -> bool {
        self.danger_mode
    }

    pub closed spec fn spec_sure(&self) -> bool {
        self.i_am_sure
    }

    pub closed spec fn spec_env_danger(&self) -> bool {
        self.env_danger
    }

    /// Checks for danger mode or not, the confirmation waived or not, with
    /// `DANGER_MODE=1` in the environment or not.
    pub fn new(danger_mode: bool, i_am_sure: bool, env_danger: bool) -> (v: Self)
        ensures
            v.spec_danger() == danger_mode,
            v.spec_sure() == i_am_sure,
            v.spec_env_danger() == env_danger,
    {
        SafetyValidator { danger_mode, i_am_sure, env_danger }
    }

    /// Whether the operator must type the confirmation phrase.
    pub fn needs_confirmation(&self) -> (r: bool)
        ensures
            r == (self.spec_danger() && self.spec_env_danger() && !self.spec_sure()),
    {
        self.danger_mode && self.env_danger && !self.i_am_sure
    }

    /// Checks an in-place operation on `file`: the file must exist; danger
    /// mode needs `DANGER_MODE=1` and, unless waived, the confirmation phrase
    /// as the line typed (`confirmation`; none typed counts as refused).
    pub fn validate_in_place_operation(&self, file: &str, file_exists: bool, confirmation: Option<&str>) -> (r: AgeResult<()>)
        ensures
            !file_exists ==> (r matches Err(AgeError::FileError { operation, path, source }) && operation@
                == "in-place"@ && path@ == file@ && source@ == "File not found"@),
            file_exists && self.spec_danger() && !self.spec_env_danger() ==> (r matches Err(
                AgeError::InvalidOperation { operation, reason },
            ) && operation@ == "in-place-danger"@ && reason@
                == "DANGER_MODE=1 environment variable required with --danger-mode"@),
            file_exists && self.spec_danger() && self.spec_env_danger() && !self.spec_sure() ==> (match confirmation {
                Some(c) => if trim_spec(c@) == DANGER_CONFIRMATION@ {
                    r is Ok
                } else {
                    r matches Err(AgeError::InvalidOperation { operation, reason }) && operation@
                        == "in-place-danger"@ && reason@ == "User cancelled dangerous operation"@
                },
                None => r matches Err(AgeError::InvalidOperation { operation, reason }) && operation@
                    == "in-place-danger"@ && reason@ == "User cancelled dangerous operation"@,
            }),
            file_exists && !self.spec_danger() ==> r is Ok,
            file_exists && self.spec_danger() && self.spec_env_danger() && self.spec_sure() ==> r is Ok,
    {
        if !file_exists {
            return Err(AgeError::FileError {
                operation: owned("in-place"),
                path: owned(file),
                source: owned("File not found"),
            });
        }
        if self.danger_mode {
            if !self.env_danger {
                return Err(AgeError::InvalidOperation {
                    operation: owned("in-place-danger"),
                    reason: owned("DANGER_MODE=1 environment variable required with --danger-mode"),
                });
            }
            if !self.i_am_sure {
                let confirmed = match confirmation {
                    Some(c) => {
                        let t = trim_chars(&chars_of(c));
                        let expected = chars_of(DANGER_CONFIRMATION);
                        crate::text::chars_equal(&t, &expected)
                    },
                    None => false,
                };
                if !confirmed {
                    return Err(AgeError::InvalidOperation {
                        operation: owned("in-place-danger"),
                        reason: owned("User cancelled dangerous operation"),
                    });
                }
            }
        }
        Ok(())
    }
}

/// The files of an in-place operation on one file.
#[derive(Debug)]
pub struct InPlaceOperation {
    original: String,
    temp_encrypted: String,
    recovery_file: Option<String>,
    completed: bool,
}

impl InPlaceOperation {
    pub closed spec fn spec_original(&self) -> Seq<char> {
        self.original@
    }

    pub closed spec fn spec_temp(&self) -> Seq<char> {
        self.temp_encrypted@
    }

    pub closed spec fn spec_recovery(&self) -> Option<Seq<char>> {
        match self.recovery_file {
            Some(r) => Some(r@),
            None => None,
        }
    }

    pub closed spec fn spec_completed(&self) -> bool {
        self.completed
    }

    /// An operation on `file`, staged in the file with extension `tmp.cage`,
    /// without recovery file, not completed.
    pub fn new(file: &str) -> (op: Self)
        ensures
            op.spec_original() == file@,
            op.spec_temp() == path_with_extension(file@, "tmp.cage"@),
            op.spec_recovery() is None,
            !op.spec_completed(),
    {
        proof {
            reveal_strlit("tmp.cage");
        }
        InPlaceOperation {
            original: owned(file),
            temp_encrypted: with_extension(file, "tmp.cage"),
            recovery_file: None,
            completed: false,
        }
    }

    /// The file replaced.
    pub fn original(&self) -> (r: &str)
        ensures
            r@ == self.spec_original(),
    {
        self.original.as_str()
    }

    /// Where the encrypted form is staged.
    pub fn temp_path(&self) -> (r: &str)
        ensures
            r@ == self.spec_temp(),
    {
        self.temp_encrypted.as_str()
    }

    /// Records the recovery file made.
    pub fn set_recovery_file(&mut self, path: String)
        ensures
            final(self).spec_recovery() == Some(path@),
            final(self).spec_original() == old(self).spec_original(),
            final(self).spec_temp() == old(self).spec_temp(),
            final(self).spec_completed() == old(self).spec_completed(),
    {
        self.recovery_file = Some(path);
    }

    /// Records that the staged file replaced the original.
    pub fn mark_completed(&mut self)
        ensures
            final(self).spec_completed(),
            final(self).spec_original() == old(self).spec_original(),
            final(self).spec_temp() == old(self).spec_temp(),
            final(self).spec_recovery() == old(self).spec_recovery(),
    {
        self.completed = true;
    }

    /// What an abandoned operation leaves to remove: nothing once completed,
    /// otherwise the staged file and the recovery file, if any.
    pub fn rollback_targets(&self) -> (r: Vec<String>)
        ensures
            self.spec_completed() ==> r.len() == 0,
            !self.spec_completed() ==> views(r@) == seq![self.spec_temp()] + match self.spec_recovery() {
                Some(p) => seq![p],
                None => Seq::<Seq<char>>::empty(),
            },
    {
        let mut r: Vec<String> = Vec::new();
        if self.completed {
            return r;
        }
        r.push(self.temp_encrypted.clone());
        if let Some(p) = &self.recovery_file {
            r.push(p.clone());
        }
        assert(views(r@) =~= seq![self.spec_temp()] + match self.spec_recovery() {
            Some(p) => seq![p],
            None => Seq::<Seq<char>>::empty(),
        });
        r
    }
}

/// How in-place operations are allowed.
#[derive(Debug, Clone, Copy, PartialEq, Eq)]
pub struct InPlaceOptions {
    pub enabled: bool,
    pub danger_mode: bool,
    pub i_am_sure: bool,
}

impl InPlaceOptions {
    /// Everything off.
    pub fn default() -> (o: Self)
        ensures
            !o.enabled && !o.danger_mode && !o.i_am_sure,
    {
        InPlaceOptions { enabled: false, danger_mode: false, i_am_sure: false }
    }
}

} // verus!
