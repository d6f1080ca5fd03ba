//! The lifecycle manager: lock, unlock, status, verification, authority and
//! emergency operations over files and repositories, with a history of what
//! was done.  The encryption backend is any `AgeAdapter`; what is on disk
//! (whether a path exists, which files a directory holds, what a file
//! contains) and the clock are handed in by the caller.
use vstd::prelude::*;
use crate::adapter::AgeAdapter;
use crate::config::{dotted, AgeConfig, OutputFormat};
use crate::crud::{
    ascii_header_ok, binary_header_ok, bytes_prefix, binary_header, is_age_bytes, is_age_content,
    passphrase_accepted, passphrase_refusal, validate_passphrase, verify_age_ascii_header,
    verify_age_binary_header,
};
use crate::error::{message_spec, AgeError, AgeResult};
use crate::lifecycle::{
    backup_after_lock, AuthorityResult, BackupAction, BackupStep, EmergencyResult, FileVerificationStatus, LockOptions, OperationRecord,
    UnlockOptions, VerificationResult,
};
use crate::operations::{OperationResult, RepositoryStatus};
use crate::paths::{file_name, path_extension, path_file_name, path_with_file_name, with_file_name};
use crate::security::validation_failure;
use crate::text::{
    chars_of, contains, contains_sub, dec_digits, ends_with, is_suffix, owned, str_eq,
    string_from_chars, u64_to_string, views,
};

verus! {

/// `e` refuses `operation` for `reason`.
pub open spec fn invalid_operation(e: AgeError, operation: Seq<char>, reason: Seq<char>) -> bool {
    e matches AgeError::InvalidOperation { operation: o, reason: m } && o@ == operation && m@ == reason
}

/// `e` reports that `path` was not found.
pub open spec fn path_not_found(e: AgeError, path: Seq<char>) -> bool {
    e matches AgeError::FileError { operation, path: p, source } && operation@ == "read"@ && p@ == path
        && source@ == "Path not found"@
}

/// What is on disk at a path.
#[derive(PartialEq, Eq, Structural, Clone, Copy, Debug)]
pub struct PathKind {
    pub exists: bool,
    pub is_file: bool,
    pub is_dir: bool,
}

/// `pattern` keeps file `f`: there is no pattern, `f` has no name, or its
/// name contains the pattern.
pub open spec fn pattern_keeps(f: Seq<char>, pattern: Option<Seq<char>>) -> bool {
    match pattern {
        None => true,
        Some(p) => match path_file_name(f) {
            None => true,
            Some(n) => contains_sub(n, p),
        },
    }
}

/// `f` has extension `ext`, when one is asked for.
pub open spec fn extension_keeps(f: Seq<char>, ext: Option<Seq<char>>) -> bool {
    match ext {
        None => true,
        Some(e) => path_extension(f) == Some(e),
    }
}

/// The files of `files` that `pattern` and `ext` keep, in order.
pub open spec fn selected(files: Seq<Seq<char>>, pattern: Option<Seq<char>>, ext: Option<Seq<char>>) -> Seq<Seq<char>>
    decreases files.len(),
{
    if files.len() == 0 {
        Seq::empty()
    } else if pattern_keeps(files.last(), pattern) && extension_keeps(files.last(), ext) {
        selected(files.drop_last(), pattern, ext).push(files.last())
    } else {
        selected(files.drop_last(), pattern, ext)
    }
}

/// Law: a file is selected exactly when it is among `files`, its name (its
/// last component) contains the pattern, when there is one (a path without
/// a name passes), and its extension is `ext`, when one is asked for; the
/// directory part of its path plays no part.
pub proof fn lemma_selected_members(files: Seq<Seq<char>>, pattern: Option<Seq<char>>, ext: Option<Seq<char>>)
    ensures
        forall|f: Seq<char>|
            #[trigger] selected(files, pattern, ext).contains(f) <==> files.contains(f) && (match pattern {
                None => true,
                Some(p) => match path_file_name(f) {
                    None => true,
                    Some(name) => contains_sub(name, p),
                },
            }) && (match ext {
                None => true,
                Some(e) => path_extension(f) == Some(e),
            }),
    decreases files.len(),
{
    if files.len() > 0 {
        let rest = files.drop_last();
        lemma_selected_members(rest, pattern, ext);
        assert(files =~= rest.push(files.last()));
        assert forall|f: Seq<char>| files.contains(f) <==> rest.contains(f) || f == files.last() by {
            if files.contains(f) {
                let k = choose|k: int| 0 <= k < files.len() && files[k] == f;
                if k < files.len() - 1 {
                    assert(rest[k] == f);
                }
            }
            if rest.contains(f) {
                let k = choose|k: int| 0 <= k < rest.len() && rest[k] == f;
                assert(files[k] == f);
            }
            if f == files.last() {
                assert(files[files.len() - 1] == f);
            }
        }
        let sel = selected(rest, pattern, ext);
        assert forall|f: Seq<char>| sel.push(files.last()).contains(f) <==> sel.contains(f) || f == files.last() by {
            if sel.push(files.last()).contains(f) {
                let k = choose|k: int| 0 <= k < sel.len() + 1 && sel.push(files.last())[k] == f;
                if k < sel.len() {
                    assert(sel[k] == f);
                }
            }
            if sel.contains(f) {
                let k = choose|k: int| 0 <= k < sel.len() && sel[k] == f;
                assert(sel.push(files.last())[k] == f);
            }
            if f == files.last() {
                assert(sel.push(files.last())[sel.len() as int] == f);
            }
        }
        let last = files.last();
        let cond = |f: Seq<char>| (match pattern {
            None => true,
            Some(p) => match path_file_name(f) {
                None => true,
                Some(name) => contains_sub(name, p),
            },
        }) && (match ext {
            None => true,
            Some(e) => path_extension(f) == Some(e),
        });
        assert(cond(last) == (pattern_keeps(last, pattern) && extension_keeps(last, ext)));
        assert forall|f: Seq<char>| #[trigger] selected(files, pattern, ext).contains(f) <==> files.contains(f) && cond(f) by {
            assert(sel.contains(f) == (rest.contains(f) && cond(f)));
            assert(files.contains(f) == (rest.contains(f) || f == last));
            assert(sel.push(last).contains(f) == (sel.contains(f) || f == last));
            if pattern_keeps(last, pattern) && extension_keeps(last, ext) {
                assert(selected(files, pattern, ext) == sel.push(last));
            } else {
                assert(selected(files, pattern, ext) == sel);
            }
        }
    } else {
        assert forall|f: Seq<char>| #[trigger] selected(files, pattern, ext).contains(f) implies false by {
            assert(selected(files, pattern, ext) == Seq::<Seq<char>>::empty());
        }
    }
}

/// The view of an optional string.
pub open spec fn opt_str(o: Option<&str>) -> Option<Seq<char>> {
    match o {
        Some(s) => Some(s@),
        None => None,
    }
}

/// The view of an optional owned string.
pub open spec fn opt_string(o: Option<String>) -> Option<Seq<char>> {
    match o {
        Some(s) => Some(s@),
        None => None,
    }
}

/// How many of `files` have extension `ext`.
pub open spec fn count_with_extension(files: Seq<Seq<char>>, ext: Seq<char>) -> nat
    decreases files.len(),
{
    if files.len() == 0 {
        0
    } else {
        count_with_extension(files.drop_last(), ext) + if path_extension(files.last()) == Some(ext) {
            1nat
        } else {
            0nat
        }
    }
}

/// Each file of `sel`, in order, went either to `done` or to `failed`.
pub open spec fn split(sel: Seq<Seq<char>>, done: Seq<Seq<char>>, failed: Seq<Seq<char>>) -> bool
    decreases sel.len(),
{
    if sel.len() == 0 {
        done.len() == 0 && failed.len() == 0
    } else {
        ||| done.len() > 0 && done.last() == sel.last() && split(sel.drop_last(), done.drop_last(), failed)
        ||| failed.len() > 0 && failed.last() == sel.last() && split(sel.drop_last(), done, failed.drop_last())
    }
}

/// One file of a tally went to `processed` (when `ok`) or to `failed`.
pub open spec fn tally_step(a: OperationResult, b: OperationResult, f: Seq<char>, ok: bool) -> bool {
    &&& ok ==> views(b.processed_files@) == views(a.processed_files@).push(f) && b.total_processed
        == a.total_processed + 1 && b.failed_files == a.failed_files
    &&& !ok ==> views(b.failed_files@) == views(a.failed_files@).push(f) && b.processed_files
        == a.processed_files && b.total_processed == a.total_processed
    &&& b.success == a.success
    &&& b.execution_time_ms == a.execution_time_ms
}

/// A tally not yet closed, whose files went as `split` says.
pub open spec fn open_tally(r: OperationResult, sel: Seq<Seq<char>>) -> bool {
    &&& split(sel, views(r.processed_files@), views(r.failed_files@))
    &&& r.total_processed == r.processed_files.len()
    &&& !r.success
    &&& r.execution_time_ms == 0
}

/// `rec` records `operation` on `target` at `now`, its success, and the
/// numbers of files processed and failed.
pub open spec fn records(
    rec: OperationRecord,
    operation: Seq<char>,
    target: Seq<char>,
    success: bool,
    processed: nat,
    failed: nat,
    now: u128,
) -> bool {
    &&& rec.operation_type@ == operation
    &&& rec.target_path@ == target
    &&& rec.success == success
    &&& rec.timestamp == now
    &&& rec.detail("processed_files"@) == Some(dec_digits(processed))
    &&& rec.detail("failed_files"@) == Some(dec_digits(failed))
}

/// What an unlock of `file` writes to, or why it refuses the file, when the
/// encrypted extension is `ext`: the file's name must end in the extension,
/// which is dropped.
pub open spec fn unlock_target_spec(file: Seq<char>, ext: Seq<char>) -> Result<Seq<char>, Seq<char>> {
    match path_file_name(file) {
        None => Err("Cannot extract filename from path: "@ + file),
        Some(n) => if is_suffix(dotted(ext), n) {
            Ok(path_with_file_name(file, n.subrange(0, n.len() - dotted(ext).len())))
        } else {
            Err("File does not have "@ + dotted(ext) + " extension: "@ + file)
        },
    }
}

/// Lemma: a split of `sel` with one more file gone to `done` or `failed`.
proof fn lemma_split_step(sel: Seq<Seq<char>>, i: int, done: Seq<Seq<char>>, failed: Seq<Seq<char>>, ok: bool)
    requires
        0 <= i < sel.len(),
        split(sel.take(i), done, failed),
    ensures
        ok ==> split(sel.take(i + 1), done.push(sel[i]), failed),
        !ok ==> split(sel.take(i + 1), done, failed.push(sel[i])),
{
    assert(sel.take(i + 1).drop_last() =~= sel.take(i));
    assert(sel.take(i + 1).last() == sel[i]);
    assert(done.push(sel[i]).drop_last() =~= done);
    assert(failed.push(sel[i]).drop_last() =~= failed);
}

/// Law: a split accounts for every file once: as many files went to
/// `done` and `failed` together as were selected.
pub proof fn lemma_split_counts(sel: Seq<Seq<char>>, done: Seq<Seq<char>>, failed: Seq<Seq<char>>)
    requires
        split(sel, done, failed),
    ensures
        done.len() + failed.len() == sel.len(),
    decreases sel.len(),
{
    if sel.len() > 0 {
        if done.len() > 0 && done.last() == sel.last() && split(sel.drop_last(), done.drop_last(), failed) {
            lemma_split_counts(sel.drop_last(), done.drop_last(), failed);
        } else {
            lemma_split_counts(sel.drop_last(), done, failed.drop_last());
        }
    }
}

/// The message of a file's failure in a batch: `Failed to {verb} {file}: `
/// and the error's message.
pub open spec fn batch_failure(verb: Seq<char>, file: Seq<char>, e: AgeError) -> Seq<char> {
    "Failed to "@ + verb + " "@ + file + ": "@ + message_spec(e)
}

/// Each file of `sel`, in order, went to `done`, or to `failed` followed by
/// the message of its failure.
pub open spec fn batch_split(sel: Seq<Seq<char>>, done: Seq<Seq<char>>, failed: Seq<Seq<char>>, verb: Seq<char>) -> bool
    decreases sel.len(),
{
    if sel.len() == 0 {
        done.len() == 0 && failed.len() == 0
    } else {
        ||| done.len() > 0 && done.last() == sel.last() && batch_split(sel.drop_last(), done.drop_last(), failed, verb)
        ||| failed.len() >= 2 && failed[failed.len() - 2] == sel.last() && (exists|e: AgeError|
            failed.last() == #[trigger] batch_failure(verb, sel.last(), e)) && batch_split(
            sel.drop_last(),
            done,
            failed.take(failed.len() - 2),
            verb,
        )
    }
}

/// Lemma: a batch split of `sel` with one more file gone to `done`, or to
/// `failed` with the message of error `e`.
proof fn lemma_batch_step(
    sel: Seq<Seq<char>>,
    i: int,
    done: Seq<Seq<char>>,
    failed: Seq<Seq<char>>,
    verb: Seq<char>,
    ok: bool,
    e: AgeError,
)
    requires
        0 <= i < sel.len(),
        batch_split(sel.take(i), done, failed, verb),
    ensures
        ok ==> batch_split(sel.take(i + 1), done.push(sel[i]), failed, verb),
        !ok ==> batch_split(sel.take(i + 1), done, failed.push(sel[i]).push(batch_failure(verb, sel[i], e)), verb),
{
    let f2 = failed.push(sel[i]).push(batch_failure(verb, sel[i], e));
    assert(sel.take(i + 1).drop_last() =~= sel.take(i));
    assert(sel.take(i + 1).last() == sel[i]);
    assert(done.push(sel[i]).drop_last() =~= done);
    assert(f2.take(f2.len() - 2) =~= failed);
    assert(f2[f2.len() - 2] == sel[i]);
    assert(f2.last() == batch_failure(verb, sel[i], e));
}

/// Law: a batch split accounts for every file once: each processed file
/// counts once, each failed one twice (the file and its message).
pub proof fn lemma_batch_split_counts(sel: Seq<Seq<char>>, done: Seq<Seq<char>>, failed: Seq<Seq<char>>, verb: Seq<char>)
    requires
        batch_split(sel, done, failed, verb),
    ensures
        failed.len() % 2 == 0,
        done.len() + failed.len() / 2 == sel.len(),
    decreases sel.len(),
{
    if sel.len() > 0 {
        if done.len() > 0 && done.last() == sel.last() && batch_split(sel.drop_last(), done.drop_last(), failed, verb) {
            lemma_batch_split_counts(sel.drop_last(), done.drop_last(), failed, verb);
        } else {
            lemma_batch_split_counts(sel.drop_last(), done, failed.take(failed.len() - 2), verb);
        }
    }
}

/// The files of `files` that `pattern` and `ext` keep, in order.
pub fn select_files(files: &Vec<String>, pattern: Option<&str>, ext: Option<&str>) -> (r: Vec<String>)
    ensures
        views(r@) == selected(views(files@), opt_str(pattern), opt_str(ext)),
        forall|f: Seq<char>|
            #[trigger] views(r@).contains(f) <==> views(files@).contains(f) && (match pattern {
                None => true,
                Some(p) => match path_file_name(f) {
                    None => true,
                    Some(name) => contains_sub(name, p@),
                },
            }) && (match ext {
                None => true,
                Some(e) => path_extension(f) == Some(e@),
            }),
{
    proof {
        lemma_selected_members(views(files@), opt_str(pattern), opt_str(ext));
    }
    let ghost fs = views(files@);
    let mut r: Vec<String> = Vec::new();
    let mut i: usize = 0;
    while i < files.len()
        invariant
            i <= files.len(),
            fs == views(files@),
            views(r@) == selected(fs.take(i as int), opt_str(pattern), opt_str(ext)),
        decreases files.len() - i,
    {
        let f = files[i].as_str();
        let keep_name = match pattern {
            None => true,
            Some(p) => match file_name(f) {
                None => true,
                Some(n) => contains(n.as_str(), p),
            },
        };
        let keep_ext = match ext {
            None => true,
            Some(e) => match crate::paths::extension(f) {
                Some(x) => str_eq(x.as_str(), e),
                None => false,
            },
        };
        proof {
            assert(fs.take(i + 1).drop_last() =~= fs.take(i as int));
            assert(fs.take(i + 1).last() == f@);
        }
        if keep_name && keep_ext {
            let ghost before = r@;
            r.push(files[i].clone());
            proof {
                assert(views(r@) =~= views(before).push(f@));
            }
        }
        i = i + 1;
    }
    proof {
        assert(fs.take(files.len() as int) =~= fs);
    }
    r
}

/// `true` or `false`.
pub open spec fn bool_text(b: bool) -> Seq<char> {
    if b {
        "true"@
    } else {
        "false"@
    }
}

/// The header of encrypted contents `c` passes its format's check.
pub open spec fn header_ok(c: Seq<u8>) -> bool {
    if bytes_prefix(binary_header(), c) {
        binary_header_ok(c)
    } else {
        ascii_header_ok(c)
    }
}

/// Contents that pass verification: encrypted, with a sound header, not
/// empty.
pub open spec fn content_valid(c: Seq<u8>) -> bool {
    is_age_bytes(c) && header_ok(c) && c.len() > 0
}

/// Why contents fail verification.
pub open spec fn content_failure(c: Seq<u8>) -> Seq<char> {
    if !is_age_bytes(c) {
        "File does not appear to be Age encrypted"@
    } else {
        "Verification failed: encrypted="@ + bool_text(true) + ", format="@ + bool_text(true)
            + ", header="@ + bool_text(header_ok(c)) + ", size="@ + bool_text(c.len() > 0)
    }
}

/// Why a file with status `s` fails verification: its error, or the
/// results of its checks.
pub open spec fn status_failure(s: FileVerificationStatus) -> Seq<char> {
    match s.error_message {
        Some(m) => m@,
        None => "Verification failed: encrypted="@ + bool_text(s.is_encrypted) + ", format="@ + bool_text(
            s.format_valid,
        ) + ", header="@ + bool_text(s.header_valid) + ", size="@ + bool_text(s.size_check),
    }
}

/// The files a verification reads: one file, or the files found under a
/// directory at any depth; each with what reading it gave.
pub enum VerifyInput {
    File(AgeResult<Vec<u8>>),
    Tree(Vec<(String, AgeResult<Vec<u8>>)>),
}

/// The first error in reading the files of `es`.
pub open spec fn tree_error(es: Seq<(String, AgeResult<Vec<u8>>)>) -> Option<AgeError>
    decreases es.len(),
{
    if es.len() == 0 {
        None
    } else {
        match tree_error(es.drop_last()) {
            Some(e) => Some(e),
            None => match es.last().1 {
                Err(e) => Some(e),
                Ok(_) => None,
            },
        }
    }
}

/// The files of `es` that are encrypted and pass verification.
pub open spec fn tree_verified(es: Seq<(String, AgeResult<Vec<u8>>)>) -> Seq<Seq<char>>
    decreases es.len(),
{
    if es.len() == 0 {
        Seq::empty()
    } else {
        let prev = tree_verified(es.drop_last());
        match es.last().1 {
            Ok(c) => if content_valid(c@) {
                prev.push(es.last().0@)
            } else {
                prev
            },
            Err(_) => prev,
        }
    }
}

/// The files of `es` that are encrypted and fail verification, each with
/// the reason.
pub open spec fn tree_failed(es: Seq<(String, AgeResult<Vec<u8>>)>) -> Seq<Seq<char>>
    decreases es.len(),
{
    if es.len() == 0 {
        Seq::empty()
    } else {
        let prev = tree_failed(es.drop_last());
        match es.last().1 {
            Ok(c) => if is_age_bytes(c@) && !content_valid(c@) {
                prev.push(es.last().0@ + ": "@ + content_failure(c@))
            } else {
                prev
            },
            Err(_) => prev,
        }
    }
}

/// Lemma: a read error in a prefix is the first error of the whole.
proof fn lemma_tree_error_prefix(es: Seq<(String, AgeResult<Vec<u8>>)>, k: int)
    requires
        0 <= k <= es.len(),
        tree_error(es.take(k)) is Some,
    ensures
        tree_error(es) == tree_error(es.take(k)),
    decreases es.len(),
{
    if k < es.len() {
        assert(es.drop_last().take(k) =~= es.take(k));
        lemma_tree_error_prefix(es.drop_last(), k);
    } else {
        assert(es.take(k) =~= es);
    }
}

/// `true` or `false`.
fn bool_string(b: bool) -> (r: String)
    ensures
        r@ == bool_text(b),
{
    if b {
        owned("true")
    } else {
        owned("false")
    }
}

/// Checks the contents `content` of `file`: encrypted (by header), of a
/// known format, with a sound header, not empty.
pub fn verify_file_integrity(file: &str, content: &[u8]) -> (s: FileVerificationStatus)
    ensures
        s.file_path@ == file@,
        s.is_encrypted == is_age_bytes(content@),
        s.format_valid == is_age_bytes(content@),
        s.header_valid == (is_age_bytes(content@) && header_ok(content@)),
        s.size_check == (!is_age_bytes(content@) || content@.len() > 0),
        !is_age_bytes(content@) ==> (s.error_message matches Some(m) && m@
            == "File does not appear to be Age encrypted"@),
        is_age_bytes(content@) ==> s.error_message is None,
        (s.is_encrypted && s.format_valid && s.header_valid && s.size_check && s.error_message is None)
            == content_valid(content@),
        status_failure(s) == content_failure(content@) || content_valid(content@),
{
    if !is_age_content(content) {
        return FileVerificationStatus {
            file_path: owned(file),
            is_encrypted: false,
            format_valid: false,
            header_valid: false,
            size_check: true,
            error_message: Some(owned("File does not appear to be Age encrypted")),
        };
    }
    let bin: Vec<u8> = vec![97u8, 103, 101, 45, 101, 110, 99, 114, 121, 112, 116, 105, 111, 110, 46, 111, 114, 103, 47, 118, 49];
    assert(bin@ =~= binary_header());
    let header_valid = if crate::crud::starts_with_bytes(content, &bin) {
        verify_age_binary_header(content)
    } else {
        verify_age_ascii_header(content)
    };
    FileVerificationStatus {
        file_path: owned(file),
        is_encrypted: true,
        format_valid: true,
        header_valid,
        size_check: content.len() > 0,
        error_message: None,
    }
}

/// Why a file with status `s` fails verification.
pub fn verification_failure(s: &FileVerificationStatus) -> (r: String)
    ensures
        r@ == status_failure(*s),
{
    match &s.error_message {
        Some(m) => m.clone(),
        None => {
            let mut r = owned("Verification failed: encrypted=");
            r.append(bool_string(s.is_encrypted).as_str());
            r.append(", format=");
            r.append(bool_string(s.format_valid).as_str());
            r.append(", header=");
            r.append(bool_string(s.header_valid).as_str());
            r.append(", size=");
            r.append(bool_string(s.size_check).as_str());
            r
        },
    }
}

/// `file: reason`.
fn failure_line(file: &str, reason: &str) -> (r: String)
    ensures
        r@ == file@ + ": "@ + reason@,
{
    let mut r = owned(file);
    r.append(": ");
    r.append(reason);
    r
}

/// Where the rotation of one file keeps its copies: the backup of the file
/// and the two decrypted forms, all in the backup directory.
#[derive(Debug)]
pub struct RotationPaths {
    pub backup: String,
    pub decrypted: String,
    pub verify: String,
}

/// The paths of the rotation of `file` under `backup_dir`: the file's name,
/// and that name with `.tmp_decrypted` and `.tmp_verify`; a file without a
/// name is refused.
pub fn rotation_paths(file: &str, backup_dir: &str) -> (r: AgeResult<RotationPaths>)
    ensures
        match path_file_name(file@) {
            None => r matches Err(AgeError::FileError { operation, path, source }) && operation@
                == "get_filename"@ && path@ == file@ && source@ == "Invalid filename"@,
            Some(n) => r matches Ok(p) && p.backup@ == crate::paths::path_join(backup_dir@, n)
                && p.decrypted@ == crate::paths::path_join(backup_dir@, n + ".tmp_decrypted"@)
                && p.verify@ == crate::paths::path_join(backup_dir@, n + ".tmp_verify"@),
        },
{
    let name = match file_name(file) {
        Some(n) => n,
        None => {
            return Err(AgeError::FileError {
                operation: owned("get_filename"),
                path: owned(file),
                source: owned("Invalid filename"),
            });
        },
    };
    let backup = crate::paths::join(backup_dir, name.as_str());
    let mut d = name.clone();
    d.append(".tmp_decrypted");
    let mut v = name.clone();
    v.append(".tmp_verify");
    Ok(RotationPaths {
        backup,
        decrypted: crate::paths::join(backup_dir, d.as_str()),
        verify: crate::paths::join(backup_dir, v.as_str()),
    })
}

/// Checks that a rotated file decrypts to what it held: the contents
/// decrypted with the old passphrase and with the new one are equal.
pub fn check_rotated_content(original: &[u8], verified: &[u8]) -> (r: AgeResult<()>)
    ensures
        original@ == verified@ ==> r is Ok,
        original@ != verified@ ==> (r matches Err(e) && validation_failure(
            e,
            "content_integrity"@,
            "Content mismatch after key rotation"@,
        )),
{
    let mut same = original.len() == verified.len();
    let mut i: usize = 0;
    while same && i < original.len()
        invariant
            i <= original@.len(),
            same ==> original@.len() == verified@.len(),
            same ==> forall|j: int| 0 <= j < i ==> original@[j] == verified@[j],
            !same ==> original@ != verified@,
        decreases original.len() - i,
    {
        if original[i] != verified[i] {
            same = false;
        }
        i = i + 1;
    }
    if same {
        assert(original@ =~= verified@);
        Ok(())
    } else {
        Err(AgeError::SecurityValidationFailed {
            validation_type: owned("content_integrity"),
            details: owned("Content mismatch after key rotation"),
        })
    }
}

/// `reason` is `prefix` followed by the message of some error.
pub open spec fn caused(prefix: Seq<char>, reason: Seq<char>) -> bool {
    exists|x: AgeError| reason == prefix + #[trigger] message_spec(x)
}

/// `e` is how re-encrypting `file` through `paths` failed: decrypting with
/// the old passphrase, encrypting with the new one, or decrypting the
/// result with the new one.
pub open spec fn rekey_failure(e: AgeError, file: Seq<char>, paths: RotationPaths) -> bool {
    ||| e matches AgeError::DecryptionFailed { input, output, reason } && input@ == file && output@
        == paths.decrypted@ && caused("Failed to decrypt with old passphrase: "@, reason@)
    ||| e matches AgeError::EncryptionFailed { input, output, reason } && input@ == paths.decrypted@
        && output@ == file && caused("Failed to encrypt with new passphrase: "@, reason@)
    ||| e matches AgeError::DecryptionFailed { input, output, reason } && input@ == file && output@
        == paths.verify@ && caused("Verification failed with new passphrase: "@, reason@)
}

/// `e` reports a failed step of a rotation: a decryption (or, with
/// `decrypting` false, an encryption) of `input` into `output`, for the
/// reason `prefix` followed by the message of the backend's error `cause`.
pub open spec fn step_error(e: AgeError, decrypting: bool, input: Seq<char>, output: Seq<char>, prefix: Seq<char>, cause: AgeError) -> bool {
    if decrypting {
        e matches AgeError::DecryptionFailed { input: i, output: o, reason } && i@ == input && o@ == output
            && reason@ == prefix + message_spec(cause)
    } else {
        e matches AgeError::EncryptionFailed { input: i, output: o, reason } && i@ == input && o@ == output
            && reason@ == prefix + message_spec(cause)
    }
}

/// `prefix` followed by the message of `e`.
fn with_cause(prefix: &str, e: &AgeError) -> (r: String)
    ensures
        r@ == prefix@ + message_spec(*e),
        caused(prefix@, r@),
{
    let mut r = owned(prefix);
    r.append(e.message().as_str());
    r
}

/// The tally of a rotation: the files rotated, and each failure with its
/// reason.
#[derive(Debug)]
pub struct RotationTally {
    result: OperationResult,
    failures: Vec<String>,
}

impl RotationTally {
    pub closed spec fn spec_processed(&self) -> Seq<Seq<char>> {
        views(self.result.processed_files@)
    }

    pub closed spec fn spec_failed(&self) -> Seq<Seq<char>> {
        views(self.result.failed_files@)
    }

    /// The failures, `file: reason` each.
    pub closed spec fn spec_failures(&self) -> Seq<Seq<char>> {
        views(self.failures@)
    }

    pub closed spec fn wf(&self) -> bool {
        &&& self.result.total_processed == self.result.processed_files.len()
        &&& !self.result.success
        &&& self.result.execution_time_ms == 0
        &&& self.failures.len() == self.result.failed_files.len()
    }

    /// Nothing rotated yet.
    pub fn new() -> (t: Self)
        ensures
            t.wf(),
            t.spec_processed().len() == 0,
            t.spec_failed().len() == 0,
            t.spec_failures().len() == 0,
    {
        let t = RotationTally { result: OperationResult::new(), failures: Vec::new() };
        assert(views(t.result.processed_files@) =~= Seq::<Seq<char>>::empty());
        assert(views(t.result.failed_files@) =~= Seq::<Seq<char>>::empty());
        assert(views(t.failures@) =~= Seq::<Seq<char>>::empty());
        t
    }

    /// Records the outcome of rotating `file`.
    pub fn record(&mut self, file: &str, outcome: &AgeResult<()>)
        requires
            old(self).wf(),
            old(self).spec_processed().len() < usize::MAX,
        ensures
            final(self).wf(),
            outcome is Ok ==> final(self).spec_processed() == old(self).spec_processed().push(file@)
                && final(self).spec_failed() == old(self).spec_failed() && final(self).spec_failures()
                == old(self).spec_failures(),
            *outcome matches Err(e) ==> final(self).spec_processed() == old(self).spec_processed()
                && final(self).spec_failed() == old(self).spec_failed().push(file@)
                && final(self).spec_failures() == old(self).spec_failures().push(
                file@ + ": "@ + message_spec(e),
            ),
    {
        match outcome {
            Ok(()) => {
                let ghost before = self.result.processed_files@;
                self.result.add_success(owned(file));
                assert(views(self.result.processed_files@).len() == self.result.processed_files@.len());
                assert(views(before).len() == before.len());
            },
            Err(e) => {
                let ghost before = self.failures@;
                let reason = e.message();
                self.failures.push(failure_line(file, reason.as_str()));
                assert(views(self.failures@) =~= views(before).push(file@ + ": "@ + message_spec(*e)));
                let ghost fb = self.result.failed_files@;
                self.result.add_failure(owned(file));
                assert(views(self.result.failed_files@).len() == self.result.failed_files@.len());
                assert(views(fb).len() == fb.len());
            },
        }
    }

    /// Whether some file failed, so that the rotated files are to be put
    /// back from their backups.
    pub fn needs_rollback(&self) -> (r: bool)
        requires
            self.wf(),
        ensures
            r == (self.spec_failures().len() > 0),
    {
        self.failures.len() > 0
    }

    /// How the rotation of `repository` ends: with the tally when every file
    /// was rotated; otherwise, when putting the backups back failed (with
    /// `rollback_error`), with that failure, else with the failures, none
    /// counted as rotated.
    pub fn finish(self, repository: &str, rollback_error: Option<AgeError>) -> (r: AgeResult<OperationResult>)
        requires
            self.wf(),
        ensures
            self.spec_failures().len() == 0 ==> (r matches Ok(res) && views(res.processed_files@)
                == self.spec_processed() && res.failed_files.len() == 0 && res.total_processed
                == res.processed_files.len() && !res.success && res.execution_time_ms == 0),
            self.spec_failures().len() > 0 ==> match rollback_error {
                Some(rb) => r matches Err(AgeError::RepositoryOperationFailed { operation, repository: repo, reason })
                    && operation@ == "rotate_rollback"@ && repo@ == repository@ && reason@
                    == "Rotation failed and rollback failed: "@ + message_spec(rb),
                None => r matches Err(AgeError::BatchOperationFailed { operation, successful_count, failed_count, failures })
                    && operation@ == "rotate"@ && successful_count == 0 && failed_count
                    == self.spec_failures().len() && views(failures@) == self.spec_failures(),
            },
    {
        if self.failures.len() == 0 {
            return Ok(self.result);
        }
        match rollback_error {
            Some(rb) => {
                let mut reason = owned("Rotation failed and rollback failed: ");
                reason.append(rb.message().as_str());
                Err(AgeError::RepositoryOperationFailed {
                    operation: owned("rotate_rollback"),
                    repository: owned(repository),
                    reason,
                })
            },
            None => match crate::crud::rotation_outcome(self.failures) {
                Ok(()) => Ok(self.result),
                Err(e) => Err(e),
            },
        }
    }
}

/// The manager of lock, unlock and the other lifecycle operations.
pub struct CrudManager<A: AgeAdapter> {
    adapter: A,
    config: AgeConfig,
    operation_history: Vec<OperationRecord>,
}

impl<A: AgeAdapter> CrudManager<A> {
    pub closed spec fn spec_config(&self) -> AgeConfig {
        self.config
    }

    /// The operations recorded, oldest first.
    pub closed spec fn spec_history(&self) -> Seq<OperationRecord> {
        self.operation_history@
    }

    /// The encrypted extension, dot excluded.
    pub open spec fn spec_ext(&self) -> Seq<char> {
        self.spec_config().encrypted_file_extension@
    }

    /// The encryption backend.
    pub closed spec fn spec_adapter(&self) -> A {
        self.adapter
    }

    /// `r` may answer the lock of `file`: a request to the backend to
    /// encrypt `file` into `file.<ext>` with `passphrase` in `format`.
    pub open spec fn lock_answer(&self, file: Seq<char>, passphrase: Seq<char>, format: OutputFormat, r: AgeResult<()>) -> bool {
        self.spec_adapter().encrypts(file, file + dotted(self.spec_ext()), passphrase, format, r)
    }

    /// `r` may answer the unlock of `file`: the refusal of a file without
    /// the extension, or else the backend's answer to a request to decrypt
    /// `file` into its unlocked path with `passphrase`.
    pub open spec fn unlock_answer(&self, file: Seq<char>, passphrase: Seq<char>, r: AgeResult<()>) -> bool {
        match unlock_target_spec(file, self.spec_ext()) {
            Ok(o) => self.spec_adapter().decrypts(file, o, passphrase, r),
            Err(m) => r matches Err(e) && invalid_operation(e, "unlock"@, m),
        }
    }

    /// Each file of `done` was locked with the backend's success, and each
    /// of `failed` with one of its errors.
    pub open spec fn lock_answers(&self, done: Seq<Seq<char>>, failed: Seq<Seq<char>>, passphrase: Seq<char>, format: OutputFormat) -> bool {
        &&& forall|i: int| 0 <= i < done.len() ==> #[trigger] self.lock_answer(done[i], passphrase, format, Ok(()))
        &&& forall|i: int| 0 <= i < failed.len() ==> #[trigger] self.lock_failed(failed[i], passphrase, format)
    }

    /// The lock of `file` may have met an error of the backend.
    pub open spec fn lock_failed(&self, file: Seq<char>, passphrase: Seq<char>, format: OutputFormat) -> bool {
        exists|e: AgeError| self.lock_answer(file, passphrase, format, Err(e))
    }

    /// Each file of `done` was unlocked with the backend's success, and
    /// each of `failed` was refused or met one of its errors.
    pub open spec fn unlock_answers(&self, done: Seq<Seq<char>>, failed: Seq<Seq<char>>, passphrase: Seq<char>) -> bool {
        &&& forall|i: int| 0 <= i < done.len() ==> #[trigger] self.unlock_answer(done[i], passphrase, Ok(()))
        &&& forall|i: int| 0 <= i < failed.len() ==> #[trigger] self.unlock_failed(failed[i], passphrase)
    }

    /// The unlock of `file` may have been refused or met an error of the
    /// backend.
    pub open spec fn unlock_failed(&self, file: Seq<char>, passphrase: Seq<char>) -> bool {
        exists|e: AgeError| self.unlock_answer(file, passphrase, Err(e))
    }

    /// The three requests of a rekey of `file` all succeeded: decrypt it to
    /// `paths.decrypted` with `old_passphrase`, encrypt that back over it
    /// with `new_passphrase` in the configured format, decrypt it to
    /// `paths.verify` with `new_passphrase`.
    pub open spec fn rekey_done(&self, file: Seq<char>, paths: RotationPaths, old_passphrase: Seq<char>, new_passphrase: Seq<char>) -> bool {
        let a = self.spec_adapter();
        &&& a.decrypts(file, paths.decrypted@, old_passphrase, Ok(()))
        &&& a.encrypts(paths.decrypted@, file, new_passphrase, self.spec_config().output_format, Ok(()))
        &&& a.decrypts(file, paths.verify@, new_passphrase, Ok(()))
    }

    /// `e` is how a rekey of `file` reports that the backend answered the
    /// first of those requests that failed with `cause`, the earlier ones
    /// having succeeded.
    pub open spec fn rekey_cause(&self, file: Seq<char>, paths: RotationPaths, old_passphrase: Seq<char>, new_passphrase: Seq<char>, e: AgeError, cause: AgeError) -> bool {
        let a = self.spec_adapter();
        let d = paths.decrypted@;
        let fmt = self.spec_config().output_format;
        ||| a.decrypts(file, d, old_passphrase, Err(cause))
            && step_error(e, true, file, d, "Failed to decrypt with old passphrase: "@, cause)
        ||| a.decrypts(file, d, old_passphrase, Ok(())) && a.encrypts(d, file, new_passphrase, fmt, Err(cause))
            && step_error(e, false, d, file, "Failed to encrypt with new passphrase: "@, cause)
        ||| a.decrypts(file, d, old_passphrase, Ok(())) && a.encrypts(d, file, new_passphrase, fmt, Ok(()))
            && a.decrypts(file, paths.verify@, new_passphrase, Err(cause))
            && step_error(e, true, file, paths.verify@, "Verification failed with new passphrase: "@, cause)
    }

    /// A manager over `adapter` with `config`, with no history.
    pub fn new(adapter: A, config: AgeConfig) -> (m: Self)
        ensures
            m.spec_config() == config,
            m.spec_adapter() == adapter,
            m.spec_history().len() == 0,
    {
        CrudManager { adapter, config, operation_history: Vec::new() }
    }

    /// The operations recorded, oldest first.
    pub fn get_operation_history(&self) -> (r: &Vec<OperationRecord>)
        ensures
            r@ == self.spec_history(),
    {
        &self.operation_history
    }

    /// Records `operation_type` on `target_path` at `now`, with its success
    /// and the numbers of files processed and failed in `result`.
    fn record_operation(&mut self, operation_type: &str, target_path: &str, success: bool, result: &OperationResult, now: u128)
        ensures
            final(self).spec_config() == old(self).spec_config(),
            final(self).spec_adapter() == old(self).spec_adapter(),
            final(self).spec_history().drop_last() == old(self).spec_history(),
            final(self).spec_history().len() == old(self).spec_history().len() + 1,
            records(
                final(self).spec_history().last(),
                operation_type@,
                target_path@,
                success,
                result.processed_files.len() as nat,
                result.failed_files.len() as nat,
                now,
            ),
    {
        let processed = u64_to_string(result.processed_files.len() as u64);
        let failed = u64_to_string(result.failed_files.len() as u64);
        let details = vec![(owned("processed_files"), processed), (owned("failed_files"), failed)];
        proof {
            reveal_strlit("processed_files");
            reveal_strlit("failed_files");
            reveal_with_fuel(crate::text::kv_get, 3);
            assert(details@.drop_first()[0] == details@[1]);
            assert(details@[0].0@ != "failed_files"@) by {
                assert(details@[0].0@.len() != "failed_files"@.len());
            }
        }
        let record = OperationRecord {
            operation_type: owned(operation_type),
            target_path: owned(target_path),
            timestamp: now,
            success,
            details,
        };
        let ghost before = self.operation_history@;
        self.operation_history.push(record);
        proof {
            assert(self.operation_history@.drop_last() =~= before);
        }
    }

    /// An authority change (`allow` or `revoke`) for `recipient`.
    fn authority_change(operation: &str, recipient: &str) -> (r: AgeResult<AuthorityResult>)
        ensures
            recipient@.len() == 0 ==> (r matches Err(e) && invalid_operation(
                e,
                operation@,
                "Recipient cannot be empty"@,
            )),
            recipient@.len() > 0 ==> (r matches Ok(a) && a.operation@ == operation@ && a.recipient@
                == recipient@ && a.success && a.authority_chain_status@ == "Authority integration pending"@),
    {
        if recipient.is_empty() {
            return Err(AgeError::InvalidOperation {
                operation: owned(operation),
                reason: owned("Recipient cannot be empty"),
            });
        }
        Ok(AuthorityResult {
            operation: owned(operation),
            recipient: owned(recipient),
            success: true,
            authority_chain_status: owned("Authority integration pending"),
        })
    }

    /// Adds `recipient` to the authority chain; an empty one is refused.
    pub fn allow(&mut self, recipient: &str) -> (r: AgeResult<AuthorityResult>)
        ensures
            *final(self) == *old(self),
            recipient@.len() == 0 ==> (r matches Err(e) && invalid_operation(
                e,
                "allow"@,
                "Recipient cannot be empty"@,
            )),
            recipient@.len() > 0 ==> (r matches Ok(a) && a.operation@ == "allow"@ && a.recipient@
                == recipient@ && a.success && a.authority_chain_status@ == "Authority integration pending"@),
    {
        Self::authority_change("allow", recipient)
    }

    /// Removes `recipient` from the authority chain; an empty one is refused.
    pub fn revoke(&mut self, recipient: &str) -> (r: AgeResult<AuthorityResult>)
        ensures
            *final(self) == *old(self),
            recipient@.len() == 0 ==> (r matches Err(e) && invalid_operation(
                e,
                "revoke"@,
                "Recipient cannot be empty"@,
            )),
            recipient@.len() > 0 ==> (r matches Ok(a) && a.operation@ == "revoke"@ && a.recipient@
                == recipient@ && a.success && a.authority_chain_status@ == "Authority integration pending"@),
    {
        Self::authority_change("revoke", recipient)
    }

    /// An emergency result for `operation` on `repository`.
    fn emergency(operation: &str, repository: &str, action: &str, event: &str) -> (r: EmergencyResult)
        ensures
            r.operation@ == operation@,
            views(r.affected_files@) == seq![repository@],
            views(r.recovery_actions@) == seq![action@],
            views(r.security_events@) == seq![event@],
    {
        let affected = vec![owned(repository)];
        let actions = vec![owned(action)];
        let events = vec![owned(event)];
        proof {
            assert(views(affected@) =~= seq![repository@]);
            assert(views(actions@) =~= seq![action@]);
            assert(views(events@) =~= seq![event@]);
        }
        EmergencyResult {
            operation: owned(operation),
            affected_files: affected,
            recovery_actions: actions,
            security_events: events,
        }
    }

    /// Resets a repository in an emergency: only with the confirmation
    /// `CONFIRM_RESET` and on an existing directory.
    pub fn reset(&mut self, repository: &str, kind: PathKind, confirmation: &str) -> (r: AgeResult<EmergencyResult>)
        ensures
            *final(self) == *old(self),
            confirmation@ != "CONFIRM_RESET"@ ==> (r matches Err(e) && invalid_operation(
                e,
                "reset"@,
                "Reset requires explicit confirmation"@,
            )),
            confirmation@ == "CONFIRM_RESET"@ && !(kind.exists && kind.is_dir) ==> (r matches Err(e)
                && invalid_operation(e, "reset"@, "Repository path required"@)),
            confirmation@ == "CONFIRM_RESET"@ && kind.exists && kind.is_dir ==> (r matches Ok(er)
                && er.operation@ == "reset"@ && views(er.affected_files@) == seq![repository@]
                && views(er.recovery_actions@) == seq!["Emergency reset completed"@]
                && views(er.security_events@) == seq!["Emergency reset authorized"@]),
    {
        if !str_eq(confirmation, "CONFIRM_RESET") {
            return Err(AgeError::InvalidOperation {
                operation: owned("reset"),
                reason: owned("Reset requires explicit confirmation"),
            });
        }
        if !kind.exists || !kind.is_dir {
            return Err(AgeError::InvalidOperation { operation: owned("reset"), reason: owned("Repository path required") });
        }
        Ok(Self::emergency("reset", repository, "Emergency reset completed", "Emergency reset authorized"))
    }

    /// Unlocks a repository by emergency procedure: an existing directory and
    /// an accepted passphrase are required.
    pub fn emergency_unlock(&mut self, repository: &str, kind: PathKind, emergency_passphrase: &str) -> (r: AgeResult<EmergencyResult>)
        ensures
            *final(self) == *old(self),
            !(kind.exists && kind.is_dir) ==> (r matches Err(e) && invalid_operation(
                e,
                "emergency_unlock"@,
                "Repository path required"@,
            )),
            kind.exists && kind.is_dir && !passphrase_accepted(emergency_passphrase) ==> (r matches Err(e)
                && passphrase_refusal(emergency_passphrase, e)),
            kind.exists && kind.is_dir && passphrase_accepted(emergency_passphrase) ==> (r matches Ok(er)
                && er.operation@ == "emergency_unlock"@ && views(er.affected_files@) == seq![repository@]
                && views(er.recovery_actions@) == seq!["Emergency unlock procedures initiated"@]
                && views(er.security_events@) == seq!["Emergency access authorized"@]),
    {
        if !kind.exists || !kind.is_dir {
            return Err(AgeError::InvalidOperation {
                operation: owned("emergency_unlock"),
                reason: owned("Repository path required"),
            });
        }
        match validate_passphrase(emergency_passphrase) {
            Ok(()) => {},
            Err(e) => {
                return Err(e);
            },
        }
        Ok(
            Self::emergency(
                "emergency_unlock",
                repository,
                "Emergency unlock procedures initiated",
                "Emergency access authorized",
            ),
        )
    }

    /// How many files a status of `path` counts as encrypted.
    pub open spec fn status_encrypted(&self, path: Seq<char>, kind: PathKind, dir_files: Seq<Seq<char>>) -> nat {
        if kind.is_file {
            if path_extension(path) == Some(self.spec_ext()) { 1 } else { 0 }
        } else {
            count_with_extension(dir_files, self.spec_ext())
        }
    }

    /// How much of `path` is encrypted, by extension: the file itself, or
    /// the files `dir_files` of the directory.
    pub fn status(&self, path: &str, kind: PathKind, dir_files: &Vec<String>) -> (r: AgeResult<RepositoryStatus>)
        ensures
            !kind.exists ==> (r matches Err(e) && path_not_found(e, path@)),
            kind.exists ==> (r matches Ok(s) && s.failed_files.len() == 0 && s.total_files == (if kind.is_file {
                1
            } else {
                dir_files.len()
            }) && s.encrypted_files == self.status_encrypted(path@, kind, views(dir_files@))
                && s.unencrypted_files + s.encrypted_files == s.total_files),
    {
        if !kind.exists {
            return Err(AgeError::FileError { operation: owned("read"), path: owned(path), source: owned("Path not found") });
        }
        let mut status = RepositoryStatus::new();
        if kind.is_file {
            status.total_files = 1;
            if self.config.is_encrypted_file(path) {
                status.encrypted_files = 1;
            } else {
                status.unencrypted_files = 1;
            }
            return Ok(status);
        }
        let ghost fs = views(dir_files@);
        let mut i: usize = 0;
        while i < dir_files.len()
            invariant
                i <= dir_files.len(),
                fs == views(dir_files@),
                status.failed_files.len() == 0,
                status.total_files == i,
                status.encrypted_files == count_with_extension(fs.take(i as int), self.spec_ext()),
                status.encrypted_files + status.unencrypted_files == i,
            decreases dir_files.len() - i,
        {
            proof {
                assert(fs.take(i + 1).drop_last() =~= fs.take(i as int));
                assert(fs.take(i + 1).last() == dir_files@[i as int]@);
            }
            status.total_files = status.total_files + 1;
            if self.config.is_encrypted_file(dir_files[i].as_str()) {
                status.encrypted_files = status.encrypted_files + 1;
            } else {
                status.unencrypted_files = status.unencrypted_files + 1;
            }
            i = i + 1;
        }
        proof {
            assert(fs.take(dir_files.len() as int) =~= fs);
        }
        Ok(status)
    }

    /// Encrypts `file` to its locked path with `passphrase`, tallying it as
    /// processed when the backend succeeds and as failed otherwise.  A backup
    /// before the lock is the caller's to make and to restore.
    fn lock_single_file(&self, file: &str, passphrase: &str, options: &LockOptions, result: &mut OperationResult) -> (r: AgeResult<()>)
        requires
            old(result).total_processed < usize::MAX,
        ensures
            tally_step(*old(result), *final(result), file@, r is Ok),
            self.lock_answer(file@, passphrase@, options.format, r),
    {
        let output = crate::crud::locked_path(file, &self.config);
        let answer = self.adapter.encrypt(file, output.as_str(), passphrase, options.format);
        if answer.is_ok() {
            result.add_success(owned(file));
        } else {
            result.add_failure(owned(file));
        }
        answer
    }

    /// Locks `file` after its backup step `backup`: a failed backup fails
    /// the file before any request to the backend, tallying it as failed;
    /// otherwise the file is locked as by `lock`, and the backup's fate
    /// follows from whether it was made, whether the lock succeeded, and
    /// `cleanup_on_success` (see `backup_after_lock`).
    pub fn lock_backed_file(
        &self,
        file: &str,
        passphrase: &str,
        options: &LockOptions,
        backup: BackupStep,
        cleanup_on_success: bool,
        result: &mut OperationResult,
    ) -> (r: (AgeResult<()>, BackupAction))
        requires
            old(result).total_processed < usize::MAX,
        ensures
            tally_step(*old(result), *final(result), file@, r.0 is Ok),
            backup matches BackupStep::Failed(e) ==> r.0 == Err::<(), AgeError>(e) && r.1 == BackupAction::Keep,
            !(backup is Failed) ==> self.lock_answer(file@, passphrase@, options.format, r.0) && r.1
                == (if backup is Made && r.0 is Ok && cleanup_on_success {
                BackupAction::Cleanup
            } else if backup is Made && r.0 is Err {
                BackupAction::Restore
            } else {
                BackupAction::Keep
            }),
    {
        let made = match backup {
            BackupStep::Failed(e) => {
                result.add_failure(owned(file));
                return (Err(e), BackupAction::Keep);
            },
            BackupStep::Made => true,
            BackupStep::NotAsked => false,
        };
        let answer = self.lock_single_file(file, passphrase, options, result);
        let locked = answer.is_ok();
        let action = backup_after_lock(made, locked, cleanup_on_success);
        (answer, action)
    }

    /// The files a lock of `path` would lock, once its checks pass: the file
    /// itself, or, recursively asked, the files `dir_files` of the directory
    /// that the pattern keeps (none for other paths).  The checks and their
    /// errors are those of `lock`.
    pub fn lock_targets(&self, path: &str, kind: PathKind, dir_files: &Vec<String>, passphrase: &str, options: &LockOptions) -> (r: AgeResult<Vec<String>>)
        ensures
            !kind.exists ==> (r matches Err(e) && path_not_found(e, path@)),
            kind.exists && !passphrase_accepted(passphrase) ==> (r matches Err(e) && passphrase_refusal(
                passphrase,
                e,
            )),
            kind.exists && passphrase_accepted(passphrase) && !kind.is_file && kind.is_dir && !options.recursive
                ==> (r matches Err(e) && invalid_operation(e, "lock"@, "Directory requires --recursive flag"@)),
            kind.exists && passphrase_accepted(passphrase) && kind.is_file ==> (r matches Ok(v) && views(v@)
                == seq![path@]),
            kind.exists && passphrase_accepted(passphrase) && !kind.is_file && kind.is_dir && options.recursive
                ==> (r matches Ok(v) && views(v@) == selected(views(dir_files@), opt_string(options.pattern_filter), None)),
            kind.exists && passphrase_accepted(passphrase) && !kind.is_file && !kind.is_dir ==> (r matches Ok(v)
                && v@.len() == 0),
    {
        if !kind.exists {
            return Err(AgeError::FileError { operation: owned("read"), path: owned(path), source: owned("Path not found") });
        }
        match validate_passphrase(passphrase) {
            Ok(()) => {},
            Err(e) => {
                return Err(e);
            },
        }
        if kind.is_file {
            let mut v: Vec<String> = Vec::new();
            v.push(owned(path));
            assert(views(v@) =~= seq![path@]);
            Ok(v)
        } else if kind.is_dir {
            if options.recursive {
                Ok(select_files(dir_files, Self::pattern_of(&options.pattern_filter), None))
            } else {
                Err(AgeError::InvalidOperation { operation: owned("lock"), reason: owned("Directory requires --recursive flag") })
            }
        } else {
            Ok(Vec::new())
        }
    }

    /// Records a lock of `path` carried out file by file, with its tally,
    /// at `now`.
    pub fn record_lock(&mut self, path: &str, result: &OperationResult, now: u128)
        ensures
            final(self).spec_config() == old(self).spec_config(),
            final(self).spec_adapter() == old(self).spec_adapter(),
            final(self).spec_history().drop_last() == old(self).spec_history(),
            final(self).spec_history().len() == old(self).spec_history().len() + 1,
            records(
                final(self).spec_history().last(),
                "lock"@,
                path@,
                true,
                result.processed_files.len() as nat,
                result.failed_files.len() as nat,
                now,
            ),
    {
        self.record_operation("lock", path, true, result, now);
    }

    /// Locks each of `files`, going on past failures.
    fn lock_files(&self, files: &Vec<String>, passphrase: &str, options: &LockOptions) -> (r: OperationResult)
        ensures
            open_tally(r, views(files@)),
            self.lock_answers(views(r.processed_files@), views(r.failed_files@), passphrase@, options.format),
    {
        let ghost fs = views(files@);
        let mut result = OperationResult::new();
        let mut i: usize = 0;
        while i < files.len()
            invariant
                i <= files.len(),
                fs == views(files@),
                open_tally(result, fs.take(i as int)),
                self.lock_answers(views(result.processed_files@), views(result.failed_files@), passphrase@, options.format),
            decreases files.len() - i,
        {
            proof {
                lemma_split_counts(fs.take(i as int), views(result.processed_files@), views(result.failed_files@));
            }
            let ghost before = result;
            let r = self.lock_single_file(files[i].as_str(), passphrase, options, &mut result);
            proof {
                lemma_split_step(fs, i as int, views(before.processed_files@), views(before.failed_files@), r is Ok);
                let f = files@[i as int]@;
                let d0 = views(before.processed_files@);
                let f0 = views(before.failed_files@);
                let dd = views(result.processed_files@);
                let ff = views(result.failed_files@);
                if r is Ok {
                    let u = r->Ok_0;
                    assert(u == ());
                    assert(r == Ok::<(), AgeError>(u));
                    assert(ff == f0);
                    assert forall|k: int| 0 <= k < dd.len() implies #[trigger] self.lock_answer(dd[k], passphrase@, options.format, Ok(())) by {
                        if k < d0.len() {
                            assert(dd[k] == d0[k]);
                        }
                    }
                } else {
                    assert(dd == d0);
                    assert forall|k: int| 0 <= k < ff.len() implies #[trigger] self.lock_failed(ff[k], passphrase@, options.format) by {
                        if k < f0.len() {
                            assert(ff[k] == f0[k]);
                        } else {
                            assert(ff[k] == f);
                            let e = r->Err_0;
                            assert(self.lock_answer(f, passphrase@, options.format, Err(e)));
                        }
                    }
                }
            }
            i = i + 1;
        }
        proof {
            assert(fs.take(files.len() as int) =~= fs);
        }
        result
    }

    /// Where an unlock of `file` writes: the file's name without the
    /// encrypted extension; a file without a name or without the extension
    /// is refused.
    pub fn unlock_target(&self, file: &str) -> (r: AgeResult<String>)
        ensures
            match unlock_target_spec(file@, self.spec_ext()) {
                Ok(o) => r matches Ok(s) && s@ == o,
                Err(m) => r matches Err(e) && invalid_operation(e, "unlock"@, m),
            },
    {
        let name = match file_name(file) {
            Some(n) => n,
            None => {
                let mut reason = owned("Cannot extract filename from path: ");
                reason.append(file);
                return Err(AgeError::InvalidOperation { operation: owned("unlock"), reason });
            },
        };
        let suffix = self.config.extension_with_dot();
        if !ends_with(name.as_str(), suffix.as_str()) {
            let mut reason = owned("File does not have ");
            reason.append(suffix.as_str());
            reason.append(" extension: ");
            reason.append(file);
            return Err(AgeError::InvalidOperation { operation: owned("unlock"), reason });
        }
        let cs = chars_of(name.as_str());
        let sl = chars_of(suffix.as_str()).len();
        let stem = string_from_chars(&cs, 0, cs.len() - sl);
        Ok(with_file_name(file, stem.as_str()))
    }

    /// Decrypts `file` next to itself, without the encrypted extension,
    /// tallying it as processed when the backend succeeds and as failed
    /// otherwise (a file refused by `unlock_target` fails too).
    fn unlock_single_file(&self, file: &str, passphrase: &str, result: &mut OperationResult) -> (r: AgeResult<()>)
        requires
            old(result).total_processed < usize::MAX,
        ensures
            tally_step(*old(result), *final(result), file@, r is Ok),
            unlock_target_spec(file@, self.spec_ext()) matches Err(m) ==> (r matches Err(e)
                && invalid_operation(e, "unlock"@, m)),
            self.unlock_answer(file@, passphrase@, r),
    {
        let output = match self.unlock_target(file) {
            Ok(o) => o,
            Err(e) => {
                result.add_failure(owned(file));
                return Err(e);
            },
        };
        let answer = self.adapter.decrypt(file, output.as_str(), passphrase);
        if answer.is_ok() {
            result.add_success(owned(file));
        } else {
            result.add_failure(owned(file));
        }
        answer
    }

    /// Unlocks each of `files`, going on past failures.
    fn unlock_files(&self, files: &Vec<String>, passphrase: &str) -> (r: OperationResult)
        ensures
            open_tally(r, views(files@)),
            self.unlock_answers(views(r.processed_files@), views(r.failed_files@), passphrase@),
    {
        let ghost fs = views(files@);
        let mut result = OperationResult::new();
        let mut i: usize = 0;
        while i < files.len()
            invariant
                i <= files.len(),
                fs == views(files@),
                open_tally(result, fs.take(i as int)),
                self.unlock_answers(views(result.processed_files@), views(result.failed_files@), passphrase@),
            decreases files.len() - i,
        {
            proof {
                lemma_split_counts(fs.take(i as int), views(result.processed_files@), views(result.failed_files@));
            }
            let ghost before = result;
            let r = self.unlock_single_file(files[i].as_str(), passphrase, &mut result);
            proof {
                lemma_split_step(fs, i as int, views(before.processed_files@), views(before.failed_files@), r is Ok);
                let f = files@[i as int]@;
                let d0 = views(before.processed_files@);
                let f0 = views(before.failed_files@);
                let dd = views(result.processed_files@);
                let ff = views(result.failed_files@);
                if r is Ok {
                    let u = r->Ok_0;
                    assert(u == ());
                    assert(r == Ok::<(), AgeError>(u));
                    assert(ff == f0);
                    assert forall|k: int| 0 <= k < dd.len() implies #[trigger] self.unlock_answer(dd[k], passphrase@, Ok(())) by {
                        if k < d0.len() {
                            assert(dd[k] == d0[k]);
                        }
                    }
                } else {
                    assert(dd == d0);
                    assert forall|k: int| 0 <= k < ff.len() implies #[trigger] self.unlock_failed(ff[k], passphrase@) by {
                        if k < f0.len() {
                            assert(ff[k] == f0[k]);
                        } else {
                            assert(ff[k] == f);
                            let e = r->Err_0;
                            assert(self.unlock_answer(f, passphrase@, Err(e)));
                        }
                    }
                }
            }
            i = i + 1;
        }
        proof {
            assert(fs.take(files.len() as int) =~= fs);
        }
        result
    }

    /// The pattern of an optional owned string, borrowed.
    fn pattern_of(o: &Option<String>) -> (r: Option<&str>)
        ensures
            opt_str(r) == opt_string(*o),
    {
        match o {
            Some(p) => Some(p.as_str()),
            None => None,
        }
    }

    /// Locks `path`: the file itself, or, recursively asked, the files
    /// `dir_files` of the directory that the pattern keeps.  A missing path, a
    /// refused passphrase and a directory without `recursive` are refused;
    /// a file's failure ends the lock with the backend's error.  The lock is
    /// recorded at `now`; the tally is returned open, for the caller to
    /// close with the time taken.
    pub fn lock(
        &mut self,
        path: &str,
        kind: PathKind,
        dir_files: &Vec<String>,
        passphrase: &str,
        options: LockOptions,
        now: u128,
    ) -> (r: AgeResult<OperationResult>)
        ensures
            final(self).spec_config() == old(self).spec_config(),
            r is Err ==> final(self).spec_history() == old(self).spec_history(),
            !kind.exists ==> (r matches Err(e) && path_not_found(e, path@)),
            kind.exists && !passphrase_accepted(passphrase) ==> (r matches Err(e) && passphrase_refusal(
                passphrase,
                e,
            )),
            kind.exists && passphrase_accepted(passphrase) && !kind.is_file && kind.is_dir && !options.recursive
                ==> (r matches Err(e) && invalid_operation(e, "lock"@, "Directory requires --recursive flag"@)),
            kind.exists && passphrase_accepted(passphrase) && kind.is_file ==> (r matches Ok(res) ==> open_tally(
                res,
                seq![path@],
            ) && res.failed_files.len() == 0),
            kind.exists && passphrase_accepted(passphrase) && !kind.is_file && kind.is_dir && options.recursive
                ==> (r matches Ok(res) && open_tally(
                res,
                selected(views(dir_files@), opt_string(options.pattern_filter), None),
            )),
            kind.exists && passphrase_accepted(passphrase) && !kind.is_file && !kind.is_dir ==> (r matches Ok(
                res,
            ) && open_tally(res, Seq::empty())),
            kind.exists && passphrase_accepted(passphrase) && kind.is_file ==> (r matches Err(e) ==> old(
                self,
            ).lock_answer(path@, passphrase@, options.format, Err(e))),
            r matches Ok(res) ==> old(self).lock_answers(
                views(res.processed_files@),
                views(res.failed_files@),
                passphrase@,
                options.format,
            ),
            final(self).spec_adapter() == old(self).spec_adapter(),
            r matches Ok(res) ==> final(self).spec_history().drop_last() == old(self).spec_history()
                && final(self).spec_history().len() == old(self).spec_history().len() + 1 && records(
                final(self).spec_history().last(),
                "lock"@,
                path@,
                true,
                res.processed_files.len() as nat,
                res.failed_files.len() as nat,
                now,
            ),
    {
        if !kind.exists {
            return Err(AgeError::FileError { operation: owned("read"), path: owned(path), source: owned("Path not found") });
        }
        match validate_passphrase(passphrase) {
            Ok(()) => {},
            Err(e) => {
                return Err(e);
            },
        }
        let mut result = OperationResult::new();
        if kind.is_file {
            let ghost before = result;
            let step = self.lock_single_file(path, passphrase, &options, &mut result);
            match step {
                Ok(()) => {},
                Err(e) => {
                    return Err(e);
                },
            }
            proof {
                let u = step->Ok_0;
                assert(u == ());
                assert(step == Ok::<(), AgeError>(u));
                assert(views(result.processed_files@)[0] == path@);
                assert(views(before.processed_files@) =~= Seq::<Seq<char>>::empty());
                assert(views(before.failed_files@) =~= Seq::<Seq<char>>::empty());
                lemma_split_step(seq![path@], 0, Seq::empty(), Seq::empty(), true);
                assert(seq![path@].take(1) =~= seq![path@]);
                assert(seq![path@].take(0) =~= Seq::<Seq<char>>::empty());
                assert(Seq::<Seq<char>>::empty().push(path@) =~= seq![path@]);
            }
        } else if kind.is_dir {
            if options.recursive {
                let files = select_files(dir_files, Self::pattern_of(&options.pattern_filter), None);
                result = self.lock_files(&files, passphrase, &options);
            } else {
                return Err(AgeError::InvalidOperation {
                    operation: owned("lock"),
                    reason: owned("Directory requires --recursive flag"),
                });
            }
        }
        self.record_operation("lock", path, true, &result, now);
        Ok(result)
    }

    /// Unlocks `path`: the file itself, or the files `dir_files` of the
    /// directory that carry the encrypted extension and that the pattern
    /// keeps.  A missing path and a refused passphrase are refused; asked to
    /// verify first, a path with nothing encrypted is refused; a file's
    /// failure ends the unlock with its error.  The unlock is recorded at
    /// `now`; the tally is returned open.
    pub fn unlock(
        &mut self,
        path: &str,
        kind: PathKind,
        dir_files: &Vec<String>,
        passphrase: &str,
        options: UnlockOptions,
        now: u128,
    ) -> (r: AgeResult<OperationResult>)
        ensures
            final(self).spec_config() == old(self).spec_config(),
            r is Err ==> final(self).spec_history() == old(self).spec_history(),
            !kind.exists ==> (r matches Err(e) && path_not_found(e, path@)),
            kind.exists && !passphrase_accepted(passphrase) ==> (r matches Err(e) && passphrase_refusal(
                passphrase,
                e,
            )),
            kind.exists && passphrase_accepted(passphrase) && options.verify_before_unlock
                && old(self).status_encrypted(path@, kind, views(dir_files@)) == 0 ==> (r matches Err(e)
                && invalid_operation(e, "unlock"@, "No encrypted files found"@)),
            kind.exists && passphrase_accepted(passphrase) && kind.is_file ==> (r matches Ok(res) ==> open_tally(
                res,
                seq![path@],
            ) && res.failed_files.len() == 0),
            kind.exists && passphrase_accepted(passphrase) && kind.is_file && (!options.verify_before_unlock
                || path_extension(path@) == Some(old(self).spec_ext())) ==> (unlock_target_spec(
                path@,
                old(self).spec_ext(),
            ) matches Err(m) ==> (r matches Err(e) && invalid_operation(e, "unlock"@, m))),
            kind.exists && passphrase_accepted(passphrase) && !kind.is_file && (!options.verify_before_unlock
                || old(self).status_encrypted(path@, kind, views(dir_files@)) > 0) ==> (r matches Ok(res)
                && open_tally(
                res,
                if kind.is_dir {
                    selected(
                        views(dir_files@),
                        opt_string(options.pattern_filter),
                        Some(old(self).spec_ext()),
                    )
                } else {
                    Seq::empty()
                },
            )),
            kind.exists && passphrase_accepted(passphrase) && kind.is_file && (!options.verify_before_unlock
                || old(self).status_encrypted(path@, kind, views(dir_files@)) > 0) ==> (r matches Err(e)
                ==> old(self).unlock_answer(path@, passphrase@, Err(e))),
            r matches Ok(res) ==> old(self).unlock_answers(
                views(res.processed_files@),
                views(res.failed_files@),
                passphrase@,
            ),
            final(self).spec_adapter() == old(self).spec_adapter(),
            r matches Ok(res) ==> final(self).spec_history().drop_last() == old(self).spec_history()
                && final(self).spec_history().len() == old(self).spec_history().len() + 1 && records(
                final(self).spec_history().last(),
                "unlock"@,
                path@,
                true,
                res.processed_files.len() as nat,
                res.failed_files.len() as nat,
                now,
            ),
    {
        if !kind.exists {
            return Err(AgeError::FileError { operation: owned("read"), path: owned(path), source: owned("Path not found") });
        }
        match validate_passphrase(passphrase) {
            Ok(()) => {},
            Err(e) => {
                return Err(e);
            },
        }
        if options.verify_before_unlock {
            match self.status(path, kind, dir_files) {
                Ok(status) => {
                    if status.encrypted_files == 0 {
                        return Err(AgeError::InvalidOperation {
                            operation: owned("unlock"),
                            reason: owned("No encrypted files found"),
                        });
                    }
                },
                Err(e) => {
                    return Err(e);
                },
            }
        }
        let mut result = OperationResult::new();
        if kind.is_file {
            let ghost before = result;
            let step = self.unlock_single_file(path, passphrase, &mut result);
            match step {
                Ok(()) => {},
                Err(e) => {
                    return Err(e);
                },
            }
            proof {
                let u = step->Ok_0;
                assert(u == ());
                assert(step == Ok::<(), AgeError>(u));
                assert(views(result.processed_files@)[0] == path@);
                assert(views(before.processed_files@) =~= Seq::<Seq<char>>::empty());
                assert(views(before.failed_files@) =~= Seq::<Seq<char>>::empty());
                lemma_split_step(seq![path@], 0, Seq::empty(), Seq::empty(), true);
                assert(seq![path@].take(1) =~= seq![path@]);
                assert(seq![path@].take(0) =~= Seq::<Seq<char>>::empty());
                assert(Seq::<Seq<char>>::empty().push(path@) =~= seq![path@]);
            }
        } else if kind.is_dir {
            let ext = self.config.encrypted_file_extension.as_str();
            let files = select_files(dir_files, Self::pattern_of(&options.pattern_filter), Some(ext));
            result = self.unlock_files(&files, passphrase);
        }
        self.record_operation("unlock", path, true, &result, now);
        Ok(result)
    }

    /// Runs `operation` (`lock` or `unlock`) on each file of the directory
    /// `directory` (its files are `dir_files`) that `pattern` keeps, going on
    /// past failures: a failed file is tallied, followed by the message of
    /// its failure.  Another operation is refused at the first file.  The
    /// batch is recorded at `now` as `batch_{operation}`; the tally is
    /// returned open.
    pub fn batch_process(
        &mut self,
        directory: &str,
        kind: PathKind,
        dir_files: &Vec<String>,
        pattern: Option<&str>,
        operation: &str,
        passphrase: &str,
        now: u128,
    ) -> (r: AgeResult<OperationResult>)
        ensures
            final(self).spec_config() == old(self).spec_config(),
            r is Err ==> final(self).spec_history() == old(self).spec_history(),
            !(kind.exists && kind.is_dir) ==> (r matches Err(e) && invalid_operation(
                e,
                "batch"@,
                "Directory path required"@,
            )),
            kind.exists && kind.is_dir && (operation@ == "lock"@ || operation@ == "unlock"@) ==> (r matches Ok(res)
                && batch_split(
                selected(views(dir_files@), opt_str(pattern), None),
                views(res.processed_files@),
                views(res.failed_files@),
                operation@,
            ) && res.total_processed == res.processed_files.len() && !res.success && res.execution_time_ms == 0),
            kind.exists && kind.is_dir && operation@ != "lock"@ && operation@ != "unlock"@ ==> (if selected(
                views(dir_files@),
                opt_str(pattern),
                None,
            ).len() > 0 {
                r matches Err(e) && invalid_operation(e, "batch"@, "Unsupported batch operation: "@ + operation@)
            } else {
                r matches Ok(res) && res.processed_files.len() == 0 && res.failed_files.len() == 0
                    && res.total_processed == 0 && !res.success && res.execution_time_ms == 0
            }),
            operation@ == "lock"@ ==> (r matches Ok(res) ==> forall|k: int|
                0 <= k < res.processed_files@.len() ==> old(self).lock_answer(
                    #[trigger] res.processed_files@[k]@,
                    passphrase@,
                    OutputFormat::Binary,
                    Ok(()),
                )),
            operation@ == "unlock"@ ==> (r matches Ok(res) ==> forall|k: int|
                0 <= k < res.processed_files@.len() ==> old(self).unlock_answer(
                    #[trigger] res.processed_files@[k]@,
                    passphrase@,
                    Ok(()),
                )),
            final(self).spec_adapter() == old(self).spec_adapter(),
            r matches Ok(res) ==> final(self).spec_history().drop_last() == old(self).spec_history()
                && final(self).spec_history().len() == old(self).spec_history().len() + 1 && records(
                final(self).spec_history().last(),
                "batch_"@ + operation@,
                directory@,
                res.success,
                res.processed_files.len() as nat,
                res.failed_files.len() as nat,
                now,
            ),
    {
        if !kind.exists || !kind.is_dir {
            return Err(AgeError::InvalidOperation { operation: owned("batch"), reason: owned("Directory path required") });
        }
        let files = select_files(dir_files, pattern, None);
        let ghost fs = views(files@);
        let is_lock = str_eq(operation, "lock");
        let is_unlock = str_eq(operation, "unlock");
        let lock_options = LockOptions::default();
        let mut result = OperationResult::new();
        if !is_lock && !is_unlock {
            if files.len() > 0 {
                let mut reason = owned("Unsupported batch operation: ");
                reason.append(operation);
                return Err(AgeError::InvalidOperation { operation: owned("batch"), reason });
            }
            let mut op_name = owned("batch_");
            op_name.append(operation);
            self.record_operation(op_name.as_str(), directory, result.success, &result, now);
            return Ok(result);
        }
        proof {
            assert(views(result.processed_files@) =~= Seq::<Seq<char>>::empty());
            assert(views(result.failed_files@) =~= Seq::<Seq<char>>::empty());
            assert(fs.take(0) =~= Seq::<Seq<char>>::empty());
        }
        let mut i: usize = 0;
        while i < files.len()
            invariant
                i <= files.len(),
                fs == views(files@),
                is_lock == (operation@ == "lock"@),
                is_unlock == (operation@ == "unlock"@),
                is_lock || is_unlock,
                batch_split(fs.take(i as int), views(result.processed_files@), views(result.failed_files@), operation@),
                result.total_processed == result.processed_files.len(),
                !result.success,
                result.execution_time_ms == 0,
                self.spec_config() == old(self).spec_config(),
                self.spec_history() == old(self).spec_history(),
                self.spec_adapter() == old(self).spec_adapter(),
                lock_options.format == OutputFormat::Binary,
                is_lock ==> forall|k: int|
                    0 <= k < result.processed_files@.len() ==> self.lock_answer(
                        #[trigger] result.processed_files@[k]@,
                        passphrase@,
                        OutputFormat::Binary,
                        Ok(()),
                    ),
                is_unlock ==> forall|k: int|
                    0 <= k < result.processed_files@.len() ==> self.unlock_answer(
                        #[trigger] result.processed_files@[k]@,
                        passphrase@,
                        Ok(()),
                    ),
            decreases files.len() - i,
        {
            proof {
                lemma_batch_split_counts(
                    fs.take(i as int),
                    views(result.processed_files@),
                    views(result.failed_files@),
                    operation@,
                );
            }
            let f = files[i].as_str();
            let ghost before = result;
            let step = if is_lock {
                self.lock_single_file(f, passphrase, &lock_options, &mut result)
            } else {
                self.unlock_single_file(f, passphrase, &mut result)
            };
            let ghost gstep = step;
            proof {
                if gstep is Ok {
                    let u = gstep->Ok_0;
                    assert(u == ());
                    assert(gstep == Ok::<(), AgeError>(u));
                    let d0 = views(before.processed_files@);
                    let dd = views(result.processed_files@);
                    reveal_strlit("lock");
                    reveal_strlit("unlock");
                    assert("lock"@.len() != "unlock"@.len());
                    assert(!(is_lock && is_unlock));
                    assert(dd == d0.push(f@));
                    assert(d0.len() == before.processed_files@.len());
                    assert(dd.len() == result.processed_files@.len());
                    assert forall|k: int| 0 <= k < result.processed_files@.len() implies
                        (is_lock ==> self.lock_answer(#[trigger] result.processed_files@[k]@, passphrase@, OutputFormat::Binary, Ok(())))
                        && (is_unlock ==> self.unlock_answer(result.processed_files@[k]@, passphrase@, Ok(()))) by {
                        assert(dd[k] == result.processed_files@[k]@);
                        if k < before.processed_files@.len() {
                            assert(dd[k] == d0[k]);
                            assert(d0[k] == before.processed_files@[k]@);
                        } else {
                            assert(k == d0.len());
                            assert(dd[k] == f@);
                        }
                    }
                } else {
                    assert(result.processed_files == before.processed_files);
                }
            }
            match step {
                Ok(()) => {
                    proof {
                        lemma_batch_step(
                            fs,
                            i as int,
                            views(before.processed_files@),
                            views(before.failed_files@),
                            operation@,
                            true,
                            vstd::pervasive::arbitrary::<AgeError>(),
                        );
                    }
                },
                Err(e) => {
                    let mut m = owned("Failed to ");
                    m.append(operation);
                    m.append(" ");
                    m.append(f);
                    m.append(": ");
                    m.append(e.message().as_str());
                    result.add_failure(m);
                    proof {
                        lemma_batch_step(
                            fs,
                            i as int,
                            views(before.processed_files@),
                            views(before.failed_files@),
                            operation@,
                            false,
                            e,
                        );
                    }
                },
            }
            i = i + 1;
        }
        proof {
            assert(fs.take(files.len() as int) =~= fs);
        }
        let mut op_name = owned("batch_");
        op_name.append(operation);
        self.record_operation(op_name.as_str(), directory, result.success, &result, now);
        Ok(result)
    }

    /// Verifies `path`: the file itself, whatever it holds, or the encrypted
    /// files found under the directory.  A file is verified when it passes
    /// every check, and fails with the reason otherwise; a file that could
    /// not be read fails with the error's message, except in a directory,
    /// where the first read error ends the verification.
    pub fn verify(&self, path: &str, exists: bool, input: VerifyInput) -> (r: AgeResult<VerificationResult>)
        ensures
            !exists ==> (r matches Err(e) && path_not_found(e, path@)),
            exists ==> match input {
                VerifyInput::File(Ok(c)) => r matches Ok(v) && (if content_valid(c@) {
                    views(v.verified_files@) == seq![path@] && v.failed_files.len() == 0
                } else {
                    v.verified_files.len() == 0 && views(v.failed_files@) == seq![
                        path@ + ": "@ + content_failure(c@),
                    ]
                }),
                VerifyInput::File(Err(e)) => r matches Ok(v) && v.verified_files.len() == 0 && views(
                    v.failed_files@,
                ) == seq![path@ + ": "@ + message_spec(e)],
                VerifyInput::Tree(es) => match tree_error(es@) {
                    Some(e) => r == Err::<VerificationResult, AgeError>(e),
                    None => r matches Ok(v) && views(v.verified_files@) == tree_verified(es@) && views(
                        v.failed_files@,
                    ) == tree_failed(es@),
                },
            },
            r matches Ok(v) ==> v.authority_status@ == "Authority verification pending"@
                && v.overall_status@ == "Verification completed"@,
    {
        if !exists {
            return Err(AgeError::FileError { operation: owned("read"), path: owned(path), source: owned("Path not found") });
        }
        let mut verified: Vec<String> = Vec::new();
        let mut failed: Vec<String> = Vec::new();
        match input {
            VerifyInput::File(read) => {
                match read {
                    Ok(c) => {
                        let status = verify_file_integrity(path, c.as_slice());
                        if status.is_valid() {
                            verified.push(owned(path));
                        } else {
                            let reason = verification_failure(&status);
                            failed.push(failure_line(path, reason.as_str()));
                        }
                    },
                    Err(e) => {
                        let reason = e.message();
                        failed.push(failure_line(path, reason.as_str()));
                    },
                }
                proof {
                    assert(views(verified@) =~= verified@.map_values(|s: String| s@));
                    assert(views(failed@) =~= failed@.map_values(|s: String| s@));
                }
            },
            VerifyInput::Tree(entries) => {
                let mut entries = entries;
                let ghost es = entries@;
                let mut i: usize = 0;
                while i < entries.len()
                    invariant
                        i <= entries.len(),
                        entries@ == es,
                        exists,
                        input matches VerifyInput::Tree(v) && v@ == es,
                        tree_error(es.take(i as int)) is None,
                        views(verified@) == tree_verified(es.take(i as int)),
                        views(failed@) == tree_failed(es.take(i as int)),
                    decreases entries.len() - i,
                {
                    proof {
                        assert(es.take(i + 1).drop_last() =~= es.take(i as int));
                        assert(es.take(i + 1).last() == es[i as int]);
                    }
                    let is_err = entries[i].1.is_err();
                    if is_err {
                        let item = entries.remove(i);
                        match item.1 {
                            Err(e) => {
                                proof {
                                    lemma_tree_error_prefix(es, i as int + 1);
                                }
                                return Err(e);
                            },
                            Ok(_) => {
                                proof {
                                    assert(false);
                                }
                                return Err(AgeError::FileError {
                                    operation: owned("read"),
                                    path: owned(path),
                                    source: owned("Path not found"),
                                });
                            },
                        }
                    }
                    match &entries[i].1 {
                        Ok(c) => {
                            if is_age_content(c.as_slice()) {
                                let status = verify_file_integrity(entries[i].0.as_str(), c.as_slice());
                                let ghost vb = verified@;
                                let ghost fb = failed@;
                                if status.is_valid() {
                                    verified.push(entries[i].0.clone());
                                    proof {
                                        assert(views(verified@) =~= views(vb).push(es[i as int].0@));
                                    }
                                } else {
                                    let reason = verification_failure(&status);
                                    failed.push(failure_line(entries[i].0.as_str(), reason.as_str()));
                                    proof {
                                        assert(views(failed@) =~= views(fb).push(
                                            es[i as int].0@ + ": "@ + content_failure(c@),
                                        ));
                                    }
                                }
                            }
                        },
                        Err(_) => {},
                    }
                    i = i + 1;
                }
                proof {
                    assert(es.take(es.len() as int) =~= es);
                }
            },
        }
        Ok(VerificationResult {
            verified_files: verified,
            failed_files: failed,
            authority_status: owned("Authority verification pending"),
            overall_status: owned("Verification completed"),
        })
    }

    /// Checks a rotation of `repository` (its files are `dir_files`) from
    /// `old_passphrase` to `new_passphrase`: an existing directory, two
    /// accepted passphrases that differ, and some file with the encrypted
    /// extension.
    pub fn rotation_check(
        &self,
        repository: &str,
        kind: PathKind,
        dir_files: &Vec<String>,
        old_passphrase: &str,
        new_passphrase: &str,
    ) -> (r: AgeResult<()>)
        ensures
            !(kind.exists && kind.is_dir) ==> (r matches Err(e) && invalid_operation(
                e,
                "rotate"@,
                "Repository path required"@,
            )),
            kind.exists && kind.is_dir && !passphrase_accepted(old_passphrase) ==> (r matches Err(e)
                && passphrase_refusal(old_passphrase, e)),
            kind.exists && kind.is_dir && passphrase_accepted(old_passphrase) && !passphrase_accepted(
                new_passphrase,
            ) ==> (r matches Err(e) && passphrase_refusal(new_passphrase, e)),
            kind.exists && kind.is_dir && passphrase_accepted(old_passphrase) && passphrase_accepted(
                new_passphrase,
            ) ==> (if old_passphrase@ == new_passphrase@ {
                r matches Err(e) && invalid_operation(
                    e,
                    "rotate"@,
                    "New passphrase must be different from old passphrase"@,
                )
            } else if self.status_encrypted(repository@, kind, views(dir_files@)) == 0 {
                r matches Err(e) && invalid_operation(e, "rotate"@, "No encrypted files found to rotate"@)
            } else {
                r is Ok
            }),
    {
        match crate::crud::check_rotation(kind.exists && kind.is_dir, old_passphrase, new_passphrase) {
            Ok(()) => {},
            Err(e) => {
                return Err(e);
            },
        }
        match self.status(repository, kind, dir_files) {
            Ok(status) => crate::crud::check_rotation_targets(status.encrypted_files),
            Err(e) => Err(e),
        }
    }

    /// Re-encrypts `file` from `old_passphrase` to `new_passphrase` through
    /// the backend: decrypts it to `paths.decrypted`, encrypts that back over
    /// the file in the configured format, and decrypts the result to
    /// `paths.verify`.  The backup before, and the comparison and removal of
    /// the two decrypted copies after, are the caller's.
    pub fn rekey_file(&self, file: &str, paths: &RotationPaths, old_passphrase: &str, new_passphrase: &str) -> (r: AgeResult<()>)
        ensures
            r is Ok ==> self.rekey_done(file@, *paths, old_passphrase@, new_passphrase@),
            r matches Err(e) ==> exists|cause: AgeError|
                #[trigger] self.rekey_cause(file@, *paths, old_passphrase@, new_passphrase@, e, cause),
            r matches Err(e) ==> rekey_failure(e, file@, *paths),
    {
        let first = self.adapter.decrypt(file, paths.decrypted.as_str(), old_passphrase);
        let ghost g1 = first;
        match first {
            Ok(()) => {},
            Err(e) => {
                let reason = with_cause("Failed to decrypt with old passphrase: ", &e);
                let err = AgeError::DecryptionFailed { input: owned(file), output: paths.decrypted.clone(), reason };
                assert(self.rekey_cause(file@, *paths, old_passphrase@, new_passphrase@, err, e));
                return Err(err);
            },
        }
        proof {
            let u = g1->Ok_0;
            assert(u == ());
            assert(g1 == Ok::<(), AgeError>(u));
        }
        let second = self.adapter.encrypt(paths.decrypted.as_str(), file, new_passphrase, self.config.output_format);
        let ghost g2 = second;
        match second {
            Ok(()) => {},
            Err(e) => {
                let reason = with_cause("Failed to encrypt with new passphrase: ", &e);
                let err = AgeError::EncryptionFailed { input: paths.decrypted.clone(), output: owned(file), reason };
                assert(self.rekey_cause(file@, *paths, old_passphrase@, new_passphrase@, err, e));
                return Err(err);
            },
        }
        proof {
            let u = g2->Ok_0;
            assert(u == ());
            assert(g2 == Ok::<(), AgeError>(u));
        }
        let third = self.adapter.decrypt(file, paths.verify.as_str(), new_passphrase);
        let ghost g3 = third;
        match third {
            Ok(()) => {
                proof {
                    let u = g3->Ok_0;
                    assert(u == ());
                    assert(g3 == Ok::<(), AgeError>(u));
                }
                Ok(())
            },
            Err(e) => {
                let reason = with_cause("Verification failed with new passphrase: ", &e);
                let err = AgeError::DecryptionFailed { input: owned(file), output: paths.verify.clone(), reason };
                assert(self.rekey_cause(file@, *paths, old_passphrase@, new_passphrase@, err, e));
                Err(err)
            },
        }
    }

    /// Records a finished rotation of `repository` at `now`.
    pub fn record_rotation(&mut self, repository: &str, result: &OperationResult, now: u128)
        ensures
            final(self).spec_config() == old(self).spec_config(),
            final(self).spec_history().drop_last() == old(self).spec_history(),
            final(self).spec_history().len() == old(self).spec_history().len() + 1,
            records(
                final(self).spec_history().last(),
                "rotate"@,
                repository@,
                true,
                result.processed_files.len() as nat,
                result.failed_files.len() as nat,
                now,
            ),
    {
        self.record_operation("rotate", repository, true, result, now);
    }

    /// Encrypts `input` to `output` with `passphrase` in `format` through the
    /// backend.
    pub fn encrypt_to_path(&self, input: &str, output: &str, passphrase: &str, format: OutputFormat) -> (r: AgeResult<()>)
        ensures
            self.spec_adapter().encrypts(input@, output@, passphrase@, format, r),
    {
        self.adapter.encrypt(input, output, passphrase, format)
    }
}

} // verus!
