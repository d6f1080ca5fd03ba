//! Operations on files and repositories: the interfaces of an operation, of
//! file encryption and of repository-wide encryption, the status of a
//! repository, and the tally of a batch of files.
use vstd::prelude::*;
use crate::adapter::AgeAdapter;
use crate::config::OutputFormat;
use crate::error::AgeResult;
use crate::error::AgeError;
use crate::security::{injection_failure, passphrase_injection, path_refusal, validation_failure, SecurityValidator};
use crate::paths::{extension, path_extension, path_with_extension, with_extension};
use crate::text::{dec_digits, is_prefix, owned, starts_with, str_eq, u64_to_string, views};

verus! {

/// An operation with checks before and after it.
///
/// Each implementer says through the relations below which answers its
/// checks and its work may give; one that says nothing more allows every
/// answer.
pub trait Operation {
    /// `r` is an answer the checks before the operation may give.
    open spec fn checks_before(&self, r: AgeResult<()>) -> bool {
        true
    }

    /// `r` is an answer the operation itself may give.
    open spec fn runs(&self, r: AgeResult<()>) -> bool {
        true
    }

    /// `r` is an answer the checks after the operation may give.
    open spec fn checks_after(&self, r: AgeResult<()>) -> bool {
        true
    }

    /// The operation's name.
    fn operation_name(&self) -> &'static str;

    /// Checks what must hold before the operation.
    fn validate_preconditions(&self) -> (r: AgeResult<()>)
        ensures
            self.checks_before(r),
    ;

    /// Performs the operation itself.
    fn execute(&self) -> (r: AgeResult<()>)
        ensures
            self.runs(r),
    ;

    /// Checks what must hold after the operation.
    fn validate_postconditions(&self) -> (r: AgeResult<()>)
        ensures
            self.checks_after(r),
    ;

    /// The checks before, the operation, the checks after, stopping at the
    /// first failure: the result is the first error of the three, else `Ok`.
    fn perform(&self) -> (r: AgeResult<()>)
        ensures
            r is Ok ==> self.checks_before(Ok(())) && self.runs(Ok(())) && self.checks_after(Ok(())),
            r matches Err(e) ==> {
                ||| self.checks_before(Err(e))
                ||| self.checks_before(Ok(())) && self.runs(Err(e))
                ||| self.checks_before(Ok(())) && self.runs(Ok(())) && self.checks_after(Err(e))
            },
    {
        let pre = self.validate_preconditions();
        let ghost g1 = pre;
        match pre {
            Ok(()) => {},
            Err(e) => {
                return Err(e);
            },
        }
        proof {
            let u = g1->Ok_0;
            assert(u == ());
            assert(g1 == Ok::<(), AgeError>(u));
        }
        let run = self.execute();
        let ghost g2 = run;
        match run {
            Ok(()) => {},
            Err(e) => {
                return Err(e);
            },
        }
        proof {
            let u = g2->Ok_0;
            assert(u == ());
            assert(g2 == Ok::<(), AgeError>(u));
        }
        let post = self.validate_postconditions();
        let ghost g3 = post;
        proof {
            if g3 is Ok {
                let u = g3->Ok_0;
                assert(u == ());
                assert(g3 == Ok::<(), AgeError>(u));
            }
        }
        post
    }
}

/// `e` is a failure to read `path`, for the reason `source`.
pub open spec fn read_error(e: AgeError, path: Seq<char>, source: Seq<char>) -> bool {
    e matches AgeError::FileError { operation, path: p, source: s } && operation@ == "read"@ && p@ == path
        && s@ == source
}

/// `r` answers the checks before an operation on `target`, in order: that
/// `target` exists (else `not_found`) and is of the right kind (else
/// `wrong_kind`), that `checked_path` passes the path checks of a validator
/// of strictness `strict`, that the passphrase holds no injection attempt,
/// and last the backend's health check, whose answer is the result.
pub open spec fn precondition_answer<A: AgeAdapter>(
    adapter: A,
    strict: bool,
    target: Seq<char>,
    checked_path: Seq<char>,
    passphrase: Seq<char>,
    exists: bool,
    kind_ok: bool,
    not_found: Seq<char>,
    wrong_kind: Seq<char>,
    r: AgeResult<()>,
) -> bool {
    if !exists {
        r matches Err(e) && read_error(e, target, not_found)
    } else if !kind_ok {
        r matches Err(e) && read_error(e, target, wrong_kind)
    } else {
        match path_refusal(strict, checked_path) {
            Some((kind, details)) => r matches Err(e) && validation_failure(e, kind, details),
            None => match passphrase_injection(passphrase) {
                Some((kind, pattern)) => r matches Err(e) && injection_failure(e, kind, pattern),
                None => adapter.checks_health(r),
            },
        }
    }
}

/// The checks before an operation on `target` (see `precondition_answer`);
/// whether `target` exists and is of the right kind is what was found on
/// disk.
pub fn check_preconditions<A: AgeAdapter>(
    adapter: &A,
    validator: &SecurityValidator,
    target: &str,
    checked_path: &str,
    passphrase: &str,
    exists: bool,
    kind_ok: bool,
    not_found: &str,
    wrong_kind: &str,
) -> (r: AgeResult<()>)
    ensures
        precondition_answer(
            *adapter,
            validator.spec_strict(),
            target@,
            checked_path@,
            passphrase@,
            exists,
            kind_ok,
            not_found@,
            wrong_kind@,
            r,
        ),
{
    if !exists {
        return Err(AgeError::FileError { operation: owned("read"), path: owned(target), source: owned(not_found) });
    }
    if !kind_ok {
        return Err(AgeError::FileError { operation: owned("read"), path: owned(target), source: owned(wrong_kind) });
    }
    match validator.validate_file_path(checked_path) {
        Ok(()) => {},
        Err(e) => {
            return Err(e);
        },
    }
    match validator.validate_passphrase_security(passphrase) {
        Ok(()) => {},
        Err(e) => {
            return Err(e);
        },
    }
    adapter.health_check()
}

/// The checks before encrypting the file `input` into `output`: the input
/// exists and is a file, the output path and the passphrase pass the
/// validator, the backend is healthy.
pub fn file_encrypt_preconditions<A: AgeAdapter>(
    adapter: &A,
    validator: &SecurityValidator,
    input: &str,
    output: &str,
    passphrase: &str,
    input_exists: bool,
    input_is_file: bool,
) -> (r: AgeResult<()>)
    ensures
        precondition_answer(
            *adapter,
            validator.spec_strict(),
            input@,
            output@,
            passphrase@,
            input_exists,
            input_is_file,
            "Input file not found"@,
            "Input path is not a file"@,
            r,
        ),
{
    check_preconditions(
        adapter,
        validator,
        input,
        output,
        passphrase,
        input_exists,
        input_is_file,
        "Input file not found",
        "Input path is not a file",
    )
}

/// The checks before decrypting the file `input` into `output`: the input
/// exists, the output path and the passphrase pass the validator, the
/// backend is healthy.  (An input without an age header is only warned of.)
pub fn file_decrypt_preconditions<A: AgeAdapter>(
    adapter: &A,
    validator: &SecurityValidator,
    input: &str,
    output: &str,
    passphrase: &str,
    input_exists: bool,
) -> (r: AgeResult<()>)
    ensures
        precondition_answer(
            *adapter,
            validator.spec_strict(),
            input@,
            output@,
            passphrase@,
            input_exists,
            true,
            "Input file not found"@,
            ""@,
            r,
        ),
{
    check_preconditions(adapter, validator, input, output, passphrase, input_exists, true, "Input file not found", "")
}

/// The checks before encrypting or decrypting the repository at `repo`: it
/// exists and is a directory, it and the passphrase pass the validator, the
/// backend is healthy.
pub fn repository_preconditions<A: AgeAdapter>(
    adapter: &A,
    validator: &SecurityValidator,
    repo: &str,
    passphrase: &str,
    exists: bool,
    is_dir: bool,
) -> (r: AgeResult<()>)
    ensures
        precondition_answer(
            *adapter,
            validator.spec_strict(),
            repo@,
            repo@,
            passphrase@,
            exists,
            is_dir,
            "Repository path not found"@,
            "Repository path is not a directory"@,
            r,
        ),
{
    check_preconditions(
        adapter,
        validator,
        repo,
        repo,
        passphrase,
        exists,
        is_dir,
        "Repository path not found",
        "Repository path is not a directory",
    )
}

/// `r` answers the check after encrypting (or, with `encrypting` false,
/// decrypting) `input` into `output` of size `output_len` on disk (`None`
/// when it does not exist): `Ok` for a non-empty output, else the failure
/// saying it was not created or is empty.
pub open spec fn output_check_answer(encrypting: bool, input: Seq<char>, output: Seq<char>, output_len: Option<u64>, r: AgeResult<()>) -> bool {
    match output_len {
        Some(n) if n > 0 => r is Ok,
        _ => {
            let reason = if output_len is None {
                "Output file was not created"@
            } else {
                "Output file is empty"@
            };
            if encrypting {
                r matches Err(AgeError::EncryptionFailed { input: i, output: o, reason: m }) && i@ == input
                    && o@ == output && m@ == reason
            } else {
                r matches Err(AgeError::DecryptionFailed { input: i, output: o, reason: m }) && i@ == input
                    && o@ == output && m@ == reason
            }
        },
    }
}

/// What the file system shows of a path, as the operations on files ask
/// it; what it answers is whatever is on disk at the time.
pub trait PathFacts {
    /// Whether `path` exists.
    fn path_exists(&self, path: &str) -> bool;

    /// Whether `path` is a regular file.
    fn is_file(&self, path: &str) -> bool;

    /// The size of the file at `path`, if there is one.
    fn size(&self, path: &str) -> Option<u64>;
}

/// The encryption of one file into another, with its checks before and
/// after: the operation the original runs through `perform`.
pub struct FileEncryptOperation<A: AgeAdapter, P: PathFacts> {
    adapter: A,
    facts: P,
    input: String,
    output: String,
    passphrase: String,
    format: OutputFormat,
    validator: SecurityValidator,
}

impl<A: AgeAdapter, P: PathFacts> FileEncryptOperation<A, P> {
    pub closed spec fn spec_adapter(&self) -> A {
        self.adapter
    }

    pub closed spec fn spec_input(&self) -> Seq<char> {
        self.input@
    }

    pub closed spec fn spec_output(&self) -> Seq<char> {
        self.output@
    }

    pub closed spec fn spec_passphrase(&self) -> Seq<char> {
        self.passphrase@
    }

    pub closed spec fn spec_format(&self) -> OutputFormat {
        self.format
    }

    pub closed spec fn spec_strict(&self) -> bool {
        self.validator.spec_strict()
    }

    /// The encryption of `input` into `output` with `passphrase` in
    /// `format`, through `adapter`, with a strict validator, asking `facts`
    /// about the files.
    pub fn new(adapter: A, facts: P, input: &str, output: &str, passphrase: &str, format: OutputFormat) -> (o: Self)
        ensures
            o.spec_adapter() == adapter,
            o.spec_input() == input@,
            o.spec_output() == output@,
            o.spec_passphrase() == passphrase@,
            o.spec_format() == format,
            o.spec_strict(),
    {
        FileEncryptOperation {
            adapter,
            facts,
            input: owned(input),
            output: owned(output),
            passphrase: owned(passphrase),
            format,
            validator: SecurityValidator::new(true),
        }
    }
}

impl<A: AgeAdapter, P: PathFacts> Operation for FileEncryptOperation<A, P> {
    /// The checks of `file_encrypt_preconditions`, for whatever the file
    /// system showed of the input.
    open spec fn checks_before(&self, r: AgeResult<()>) -> bool {
        exists|exists_now: bool, is_file: bool|
            precondition_answer(
                self.spec_adapter(),
                self.spec_strict(),
                self.spec_input(),
                self.spec_output(),
                self.spec_passphrase(),
                exists_now,
                is_file,
                "Input file not found"@,
                "Input path is not a file"@,
                r,
            )
    }

    /// The backend's answer to the encryption.
    open spec fn runs(&self, r: AgeResult<()>) -> bool {
        self.spec_adapter().encrypts(self.spec_input(), self.spec_output(), self.spec_passphrase(), self.spec_format(), r)
    }

    /// The output check, for whatever size the file system showed.
    open spec fn checks_after(&self, r: AgeResult<()>) -> bool {
        exists|len: Option<u64>| output_check_answer(true, self.spec_input(), self.spec_output(), len, r)
    }

    fn operation_name(&self) -> &'static str {
        "file_encrypt"
    }

    fn validate_preconditions(&self) -> (r: AgeResult<()>) {
        let exists_now = self.facts.path_exists(self.input.as_str());
        let is_file = self.facts.is_file(self.input.as_str());
        let r = file_encrypt_preconditions(
            &self.adapter,
            &self.validator,
            self.input.as_str(),
            self.output.as_str(),
            self.passphrase.as_str(),
            exists_now,
            is_file,
        );
        proof {
            assert(precondition_answer(
                self.spec_adapter(),
                self.spec_strict(),
                self.spec_input(),
                self.spec_output(),
                self.spec_passphrase(),
                exists_now,
                is_file,
                "Input file not found"@,
                "Input path is not a file"@,
                r,
            ));
        }
        r
    }

    fn execute(&self) -> (r: AgeResult<()>) {
        self.adapter.encrypt(self.input.as_str(), self.output.as_str(), self.passphrase.as_str(), self.format)
    }

    fn validate_postconditions(&self) -> (r: AgeResult<()>) {
        let len = self.facts.size(self.output.as_str());
        let r = file_output_check(true, self.input.as_str(), self.output.as_str(), len);
        proof {
            assert(output_check_answer(true, self.spec_input(), self.spec_output(), len, r));
        }
        r
    }
}

/// The decryption of one file into another, with its checks before and
/// after: the operation the original runs through `perform`.
pub struct FileDecryptOperation<A: AgeAdapter, P: PathFacts> {
    adapter: A,
    facts: P,
    input: String,
    output: String,
    passphrase: String,
    validator: SecurityValidator,
}

impl<A: AgeAdapter, P: PathFacts> FileDecryptOperation<A, P> {
    pub closed spec fn spec_adapter(&self) -> A {
        self.adapter
    }

    pub closed spec fn spec_input(&self) -> Seq<char> {
        self.input@
    }

    pub closed spec fn spec_output(&self) -> Seq<char> {
        self.output@
    }

    pub closed spec fn spec_passphrase(&self) -> Seq<char> {
        self.passphrase@
    }

    pub closed spec fn spec_strict(&self) -> bool {
        self.validator.spec_strict()
    }

    /// The decryption of `input` into `output` with `passphrase`, through
    /// `adapter`, with a strict validator, asking `facts` about the files.
    pub fn new(adapter: A, facts: P, input: &str, output: &str, passphrase: &str) -> (o: Self)
        ensures
            o.spec_adapter() == adapter,
            o.spec_input() == input@,
            o.spec_output() == output@,
            o.spec_passphrase() == passphrase@,
            o.spec_strict(),
    {
        FileDecryptOperation {
            adapter,
            facts,
            input: owned(input),
            output: owned(output),
            passphrase: owned(passphrase),
            validator: SecurityValidator::new(true),
        }
    }
}

impl<A: AgeAdapter, P: PathFacts> Operation for FileDecryptOperation<A, P> {
    /// The checks of `file_decrypt_preconditions`, for whatever the file
    /// system showed of the input.
    open spec fn checks_before(&self, r: AgeResult<()>) -> bool {
        exists|exists_now: bool|
            precondition_answer(
                self.spec_adapter(),
                self.spec_strict(),
                self.spec_input(),
                self.spec_output(),
                self.spec_passphrase(),
                exists_now,
                true,
                "Input file not found"@,
                ""@,
                r,
            )
    }

    /// The backend's answer to the decryption.
    open spec fn runs(&self, r: AgeResult<()>) -> bool {
        self.spec_adapter().decrypts(self.spec_input(), self.spec_output(), self.spec_passphrase(), r)
    }

    /// The output check, for whatever size the file system showed.
    open spec fn checks_after(&self, r: AgeResult<()>) -> bool {
        exists|len: Option<u64>| output_check_answer(false, self.spec_input(), self.spec_output(), len, r)
    }

    fn operation_name(&self) -> &'static str {
        "file_decrypt"
    }

    fn validate_preconditions(&self) -> (r: AgeResult<()>) {
        let exists_now = self.facts.path_exists(self.input.as_str());
        let r = file_decrypt_preconditions(
            &self.adapter,
            &self.validator,
            self.input.as_str(),
            self.output.as_str(),
            self.passphrase.as_str(),
            exists_now,
        );
        proof {
            assert(precondition_answer(
                self.spec_adapter(),
                self.spec_strict(),
                self.spec_input(),
                self.spec_output(),
                self.spec_passphrase(),
                exists_now,
                true,
                "Input file not found"@,
                ""@,
                r,
            ));
        }
        r
    }

    fn execute(&self) -> (r: AgeResult<()>) {
        self.adapter.decrypt(self.input.as_str(), self.output.as_str(), self.passphrase.as_str())
    }

    fn validate_postconditions(&self) -> (r: AgeResult<()>) {
        let len = self.facts.size(self.output.as_str());
        let r = file_output_check(false, self.input.as_str(), self.output.as_str(), len);
        proof {
            assert(output_check_answer(false, self.spec_input(), self.spec_output(), len, r));
        }
        r
    }
}

/// The check after encrypting (or, with `encrypting` false, decrypting)
/// `input` into `output`, whose size on disk is `output_len` (`None` when it
/// does not exist): refused when it was not created or is empty.
pub fn file_output_check(encrypting: bool, input: &str, output: &str, output_len: Option<u64>) -> (r: AgeResult<()>)
    ensures
        output_check_answer(encrypting, input@, output@, output_len, r),
{
    let reason = match output_len {
        Some(n) => {
            if n > 0 {
                return Ok(());
            }
            owned("Output file is empty")
        },
        None => owned("Output file was not created"),
    };
    if encrypting {
        Err(AgeError::EncryptionFailed { input: owned(input), output: owned(output), reason })
    } else {
        Err(AgeError::DecryptionFailed { input: owned(input), output: owned(output), reason })
    }
}

/// Encryption of single files.
pub trait FileEncryption {
    /// Encrypts `input` into `output` with `passphrase`.
    fn encrypt_file(&self, input: &str, output: &str, passphrase: &str, format: OutputFormat) -> AgeResult<()>;

    /// Decrypts `input` into `output` with `passphrase`.
    fn decrypt_file(&self, input: &str, output: &str, passphrase: &str) -> AgeResult<()>;

    /// Whether `path` holds an encrypted file.
    fn is_encrypted_file(&self, path: &str) -> AgeResult<bool>;
}

/// Encryption of every file of a repository.
pub trait RepositoryOperations {
    /// Encrypts every file under `repo_path`.
    fn encrypt_repository(&self, repo_path: &str, passphrase: &str, format: OutputFormat) -> AgeResult<()>;

    /// Decrypts every encrypted file under `repo_path`.
    fn decrypt_repository(&self, repo_path: &str, passphrase: &str) -> AgeResult<()>;

    /// The encryption status of the repository.
    fn repository_status(&self, repo_path: &str) -> AgeResult<RepositoryStatus>;
}

/// A directory that encryption of a repository skips: hidden ones and
/// `target`, `node_modules`, `.git`.
pub open spec fn skipped_directory(name: Seq<char>) -> bool {
    is_prefix("."@, name) || name == "target"@ || name == "node_modules"@ || name == ".git"@
}

/// Law: the directories a repository's encryption skips are exactly the
/// hidden ones (a leading `.`, which covers `.git`), `target` and
/// `node_modules`.
pub proof fn lemma_skipped_directories(name: Seq<char>)
    ensures
        skipped_directory(name) <==> (name.len() > 0 && name[0] == '.') || name == seq![
            't',
            'a',
            'r',
            'g',
            'e',
            't',
        ] || name == seq!['n', 'o', 'd', 'e', '_', 'm', 'o', 'd', 'u', 'l', 'e', 's'],
{
    reveal_strlit(".");
    reveal_strlit("target");
    reveal_strlit("node_modules");
    reveal_strlit(".git");
    assert("target"@ =~= seq!['t', 'a', 'r', 'g', 'e', 't']);
    assert("node_modules"@ =~= seq!['n', 'o', 'd', 'e', '_', 'm', 'o', 'd', 'u', 'l', 'e', 's']);
    assert(".git"@ =~= seq!['.', 'g', 'i', 't']);
    assert("."@ =~= seq!['.']);
    if name.len() > 0 && name[0] == '.' {
        assert(name.subrange(0, 1) =~= seq!['.']);
    }
    if is_prefix("."@, name) {
        assert(name.subrange(0, 1)[0] == name[0]);
    }
}

/// Whether encryption of a repository skips the directory named `name`.
pub fn skips_directory(name: &str) -> (r: bool)
    ensures
        r == skipped_directory(name@),
{
    starts_with(name, ".") || str_eq(name, "target") || str_eq(name, "node_modules") || str_eq(name, ".git")
}

/// Whether a repository's file is encrypted by name: its extension is
/// `age`.
pub fn has_age_extension(path: &str) -> (r: bool)
    ensures
        r == (path_extension(path@) == Some("age"@)),
{
    match extension(path) {
        Some(e) => str_eq(e.as_str(), "age"),
        None => false,
    }
}

/// Where a repository's file is encrypted to: its extension followed by
/// `.age` (the file's path with extension `<ext>.age`, or `.age` alone).
pub fn encrypted_output_path(path: &str) -> (r: String)
    ensures
        r@ == path_with_extension(
            path@,
            match path_extension(path@) {
                Some(e) => e,
                None => Seq::<char>::empty(),
            } + ".age"@,
        ),
{
    let mut ext = match extension(path) {
        Some(e) => e,
        None => String::new(),
    };
    let ghost e0 = ext@;
    ext.append(".age");
    proof {
        reveal_strlit(".age");
        assert forall|i: int| 0 <= i < ext@.len() implies ext@[i] != '/' by {
            if i < e0.len() {
                assert(ext@[i] == e0[i]);
                assert(e0.contains(e0[i]));
            }
        }
    }
    with_extension(path, ext.as_str())
}

/// Where a repository's encrypted file is decrypted to: its path without
/// extension.
pub fn decrypted_output_path(path: &str) -> (r: String)
    ensures
        r@ == path_with_extension(path@, Seq::<char>::empty()),
{
    proof {
        reveal_strlit("");
        assert(""@ =~= Seq::<char>::empty());
    }
    with_extension(path, "")
}

/// How a repository-wide `operation` ends after `processed` files succeeded
/// and `failed` failed: an error naming both counts if any failed.
pub fn repository_outcome(operation: &str, repository: &str, processed: usize, failed: usize) -> (r: AgeResult<()>)
    ensures
        failed == 0 ==> r is Ok,
        failed > 0 ==> (r matches Err(AgeError::RepositoryOperationFailed { operation: o, repository: p, reason })
            && o@ == operation@ && p@ == repository@ && reason@ == "Processed: "@ + dec_digits(processed as nat)
            + ", Failed: "@ + dec_digits(failed as nat)),
{
    if failed == 0 {
        return Ok(());
    }
    let mut reason = owned("Processed: ");
    reason.append(u64_to_string(processed as u64).as_str());
    reason.append(", Failed: ");
    reason.append(u64_to_string(failed as u64).as_str());
    Err(AgeError::RepositoryOperationFailed { operation: owned(operation), repository: owned(repository), reason })
}

/// How much of a repository is encrypted.
#[derive(Debug, Clone)]
pub struct RepositoryStatus {
    pub total_files: usize,
    pub encrypted_files: usize,
    pub unencrypted_files: usize,
    pub failed_files: Vec<String>,
}

impl RepositoryStatus {
    /// No files counted.
    pub fn new() -> (s: Self)
        ensures
            s.total_files == 0,
            s.encrypted_files == 0,
            s.unencrypted_files == 0,
            s.failed_files.len() == 0,
    {
        RepositoryStatus { total_files: 0, encrypted_files: 0, unencrypted_files: 0, failed_files: Vec::new() }
    }

    /// Some files, all encrypted, none failed.
    pub fn is_fully_encrypted(&self) -> (r: bool)
        ensures
            r == (self.total_files > 0 && self.encrypted_files == self.total_files
                && self.failed_files.len() == 0),
    {
        self.total_files > 0 && self.encrypted_files == self.total_files && self.failed_files.len() == 0
    }

    /// No file encrypted, none failed.
    pub fn is_fully_decrypted(&self) -> (r: bool)
        ensures
            r == (self.encrypted_files == 0 && self.failed_files.len() == 0),
    {
        self.encrypted_files == 0 && self.failed_files.len() == 0
    }

    /// The encrypted share in tenths of a percent, rounded down (zero without
    /// files).
    pub fn encryption_permille(&self) -> (r: u64)
        requires
            self.encrypted_files <= self.total_files,
        ensures
            self.total_files == 0 ==> r == 0,
            self.total_files > 0 ==> r == (self.encrypted_files as int * 1000) / (self.total_files as int),
    {
        if self.total_files == 0 {
            0
        } else {
            let ghost e = self.encrypted_files as int;
            let ghost t = self.total_files as int;
            assert(e * 1000 <= t * 1000) by (nonlinear_arith)
                requires
                    e <= t,
            ;
            assert((e * 1000) / t <= 1000) by (nonlinear_arith)
                requires
                    0 <= e <= t,
                    t > 0,
            ;
            ((self.encrypted_files as u128 * 1000) / self.total_files as u128) as u64
        }
    }
}

/// The files of `es` read and found encrypted.
pub open spec fn entries_encrypted(es: Seq<(String, AgeResult<Vec<u8>>)>) -> nat
    decreases es.len(),
{
    if es.len() == 0 {
        0
    } else {
        entries_encrypted(es.drop_last()) + match es.last().1 {
            Ok(c) => if crate::crud::is_age_bytes(c@) { 1nat } else { 0nat },
            Err(_) => 0nat,
        }
    }
}

/// The files of `es` read and found not encrypted.
pub open spec fn entries_plain(es: Seq<(String, AgeResult<Vec<u8>>)>) -> nat
    decreases es.len(),
{
    if es.len() == 0 {
        0
    } else {
        entries_plain(es.drop_last()) + match es.last().1 {
            Ok(c) => if crate::crud::is_age_bytes(c@) { 0nat } else { 1nat },
            Err(_) => 0nat,
        }
    }
}

/// The files of `es` that could not be read, in order.
pub open spec fn entries_unreadable(es: Seq<(String, AgeResult<Vec<u8>>)>) -> Seq<Seq<char>>
    decreases es.len(),
{
    if es.len() == 0 {
        Seq::empty()
    } else {
        let prev = entries_unreadable(es.drop_last());
        match es.last().1 {
            Ok(_) => prev,
            Err(_) => prev.push(es.last().0@),
        }
    }
}

/// The status of a repository from its files `entries`, each with what
/// reading it gave: a file read is encrypted when it carries an `age`
/// header; a file that could not be read is listed as failed.
pub fn repository_status_of(entries: &Vec<(String, AgeResult<Vec<u8>>)>) -> (s: RepositoryStatus)
    ensures
        s.total_files == entries.len(),
        s.encrypted_files == entries_encrypted(entries@),
        s.unencrypted_files == entries_plain(entries@),
        views(s.failed_files@) == entries_unreadable(entries@),
{
    let ghost es = entries@;
    let mut s = RepositoryStatus::new();
    proof {
        assert(views(s.failed_files@) =~= Seq::<Seq<char>>::empty());
    }
    let mut i: usize = 0;
    while i < entries.len()
        invariant
            i <= entries.len(),
            es == entries@,
            s.total_files == i,
            s.encrypted_files == entries_encrypted(es.take(i as int)),
            s.unencrypted_files == entries_plain(es.take(i as int)),
            s.encrypted_files + s.unencrypted_files + s.failed_files.len() == i,
            views(s.failed_files@) == entries_unreadable(es.take(i as int)),
        decreases entries.len() - i,
    {
        proof {
            assert(es.take(i + 1).drop_last() =~= es.take(i as int));
            assert(es.take(i + 1).last() == es[i as int]);
        }
        s.total_files = s.total_files + 1;
        match &entries[i].1 {
            Ok(c) => {
                if crate::crud::is_age_content(c.as_slice()) {
                    s.encrypted_files = s.encrypted_files + 1;
                } else {
                    s.unencrypted_files = s.unencrypted_files + 1;
                }
            },
            Err(_) => {
                let ghost before = s.failed_files@;
                s.failed_files.push(entries[i].0.clone());
                proof {
                    assert(views(s.failed_files@) =~= views(before).push(es[i as int].0@));
                }
            },
        }
        i = i + 1;
    }
    proof {
        assert(es.take(entries.len() as int) =~= es);
    }
    s
}

/// The tally of a batch of files.
#[derive(Debug)]
pub struct OperationResult {
    pub success: bool,
    pub processed_files: Vec<String>,
    pub failed_files: Vec<String>,
    pub total_processed: usize,
    pub execution_time_ms: u64,
}

impl OperationResult {
    /// Nothing processed, not a success.
    pub fn new() -> (r: Self)
        ensures
            !r.success,
            r.processed_files.len() == 0,
            r.failed_files.len() == 0,
            r.total_processed == 0,
            r.execution_time_ms == 0,
    {
        OperationResult {
            success: false,
            processed_files: Vec::new(),
            failed_files: Vec::new(),
            total_processed: 0,
            execution_time_ms: 0,
        }
    }

    /// Records a file processed.
    pub fn add_success(&mut self, file_path: String)
        requires
            old(self).total_processed < usize::MAX,
        ensures
            views(final(self).processed_files@) == views(old(self).processed_files@).push(file_path@),
            final(self).total_processed == old(self).total_processed + 1,
            final(self).failed_files == old(self).failed_files,
            final(self).success == old(self).success,
            final(self).execution_time_ms == old(self).execution_time_ms,
    {
        let ghost before = self.processed_files@;
        self.processed_files.push(file_path);
        assert(views(self.processed_files@) =~= views(before).push(self.processed_files@.last()@));
        self.total_processed = self.total_processed + 1;
    }

    /// Records a file that failed.
    pub fn add_failure(&mut self, file_path: String)
        ensures
            views(final(self).failed_files@) == views(old(self).failed_files@).push(file_path@),
            final(self).processed_files == old(self).processed_files,
            final(self).total_processed == old(self).total_processed,
            final(self).success == old(self).success,
            final(self).execution_time_ms == old(self).execution_time_ms,
    {
        let ghost before = self.failed_files@;
        self.failed_files.push(file_path);
        assert(views(self.failed_files@) =~= views(before).push(self.failed_files@.last()@));
    }

    /// Closes the tally after `elapsed_ms` milliseconds: a success when
    /// something was processed and nothing failed.
    pub fn finalize(&mut self, elapsed_ms: u64)
        ensures
            final(self).execution_time_ms == elapsed_ms,
            final(self).success == (old(self).failed_files.len() == 0 && old(self).total_processed > 0),
            final(self).processed_files == old(self).processed_files,
            final(self).failed_files == old(self).failed_files,
            final(self).total_processed == old(self).total_processed,
    {
        self.execution_time_ms = elapsed_ms;
        self.success = self.failed_files.len() == 0 && self.total_processed > 0;
    }
}

} // verus!
