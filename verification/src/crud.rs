//! The rules of the lock, unlock and rotate lifecycle: which passphrases are
//! accepted, where an encrypted file goes, what a path's kind asks for,
//! which contents are encrypted, and how a rotation ends.  Encrypting,
//! copying and walking directories are the caller's.
use vstd::prelude::*;
use crate::config::{dotted, AgeConfig};
use crate::error::{AgeError, AgeResult};
use crate::text::{contains, contains_sub, dec_digits, is_prefix, owned, str_eq, u64_to_string, views};
use crate::security::validation_failure;

verus! {

/// The longest passphrase accepted, in bytes.
pub const MAX_PASSPHRASE_BYTES: usize = 1024;

/// Accepts a passphrase that is not empty and at most 1024 bytes long.
pub fn validate_passphrase(passphrase: &str) -> (r: AgeResult<()>)
    ensures
        passphrase.len() == 0 ==> (r matches Err(e) && validation_failure(
            e,
            "passphrase_validation"@,
            "Empty passphrase not allowed"@,
        )),
        passphrase.len() > MAX_PASSPHRASE_BYTES ==> (r matches Err(e) && validation_failure(
            e,
            "passphrase_validation"@,
            "Passphrase exceeds maximum length"@,
        )),
        0 < passphrase.len() <= MAX_PASSPHRASE_BYTES ==> r is Ok,
        r is Ok <==> 1 <= passphrase.len() <= 1024,
{
    let n = passphrase.len();
    if n == 0 {
        return Err(AgeError::SecurityValidationFailed {
            validation_type: owned("passphrase_validation"),
            details: owned("Empty passphrase not allowed"),
        });
    }
    if n > MAX_PASSPHRASE_BYTES {
        return Err(AgeError::SecurityValidationFailed {
            validation_type: owned("passphrase_validation"),
            details: owned("Passphrase exceeds maximum length"),
        });
    }
    Ok(())
}

/// `e` is a passphrase validation error with `reason` and `guidance`.
pub open spec fn passphrase_invalid(e: AgeError, reason: Seq<char>, guidance: Seq<char>) -> bool {
    e matches AgeError::PassphraseValidation { reason: r, guidance: g } && r@ == reason && g@ == guidance
}

/// The checks the encryption engine makes of a passphrase: not empty, at most
/// `max_length` bytes, no null character.
pub fn validate_engine_passphrase(passphrase: &str, max_length: usize) -> (r: AgeResult<()>)
    ensures
        passphrase.len() == 0 ==> (r matches Err(e) && passphrase_invalid(
            e,
            "Empty passphrase"@,
            "Provide a non-empty passphrase"@,
        )),
        0 < passphrase.len() && passphrase.len() > max_length ==> (r matches Err(e) && passphrase_invalid(
            e,
            "Passphrase too long ("@ + dec_digits(passphrase.len() as nat) + " chars)"@,
            "Use passphrase with max "@ + dec_digits(max_length as nat) + " characters"@,
        )),
        0 < passphrase.len() <= max_length ==> (if contains_sub(passphrase@, "\0"@) {
            r matches Err(AgeError::InjectionAttemptBlocked { attack_type, detected_pattern })
                && attack_type@ == "null_byte"@ && detected_pattern@ == "\\0"@
        } else {
            r is Ok
        }),
{
    let n = passphrase.len();
    if n == 0 {
        return Err(AgeError::passphrase_validation("Empty passphrase", "Provide a non-empty passphrase"));
    }
    if n > max_length {
        let mut reason = owned("Passphrase too long (");
        reason.append(u64_to_string(n as u64).as_str());
        reason.append(" chars)");
        let mut guidance = owned("Use passphrase with max ");
        guidance.append(u64_to_string(max_length as u64).as_str());
        guidance.append(" characters");
        return Err(AgeError::PassphraseValidation { reason, guidance });
    }
    if contains(passphrase, "\0") {
        return Err(AgeError::InjectionAttemptBlocked {
            attack_type: owned("null_byte"),
            detected_pattern: owned("\\0"),
        });
    }
    Ok(())
}

/// Where the encrypted form of `file` goes: the file's path with the
/// configured extension appended, dot included.
pub fn locked_path(file: &str, config: &AgeConfig) -> (r: String)
    ensures
        r@ == file@ + dotted(config.encrypted_file_extension@),
{
    let mut s = owned(file);
    let ext = config.extension_with_dot();
    s.append(ext.as_str());
    s
}

/// What a lock or unlock does with a path.
#[derive(PartialEq, Eq, Structural, Clone, Copy, Debug)]
pub enum PathScope {
    /// One file.
    File,
    /// Every file of the directory.
    Repository,
}

/// What a lock does with a path: a file alone, a directory only when
/// recursive; a missing path is refused.
pub fn lock_scope(path: &str, exists: bool, is_file: bool, is_dir: bool, recursive: bool) -> (r: AgeResult<Option<PathScope>>)
    ensures
        !exists ==> (r matches Err(AgeError::FileError { operation, path: p, source }) && operation@ == "read"@
            && p@ == path@ && source@ == "Path not found"@),
        exists && is_file ==> r == Ok::<Option<PathScope>, AgeError>(Some(PathScope::File)),
        exists && !is_file && is_dir && recursive ==> r == Ok::<Option<PathScope>, AgeError>(
            Some(PathScope::Repository),
        ),
        exists && !is_file && is_dir && !recursive ==> (r matches Err(AgeError::InvalidOperation { operation, reason })
            && operation@ == "lock"@ && reason@ == "Directory requires --recursive flag"@),
        exists && !is_file && !is_dir ==> r == Ok::<Option<PathScope>, AgeError>(None),
{
    if !exists {
        return Err(AgeError::FileError { operation: owned("read"), path: owned(path), source: owned("Path not found") });
    }
    if is_file {
        Ok(Some(PathScope::File))
    } else if is_dir {
        if recursive {
            Ok(Some(PathScope::Repository))
        } else {
            Err(AgeError::InvalidOperation {
                operation: owned("lock"),
                reason: owned("Directory requires --recursive flag"),
            })
        }
    } else {
        Ok(None)
    }
}

/// The header of binary `age` files.
pub open spec fn binary_header() -> Seq<u8> {
    seq![97u8, 103, 101, 45, 101, 110, 99, 114, 121, 112, 116, 105, 111, 110, 46, 111, 114, 103, 47, 118, 49]
}

/// The header of armored `age` files.
pub open spec fn armor_header() -> Seq<u8> {
    "-----BEGIN AGE ENCRYPTED FILE-----"@.map_values(|c: char| c as u8)
}

/// `p` begins `s`.
pub open spec fn bytes_prefix(p: Seq<u8>, s: Seq<u8>) -> bool {
    p.len() <= s.len() && s.subrange(0, p.len() as int) == p
}

/// Whether `s` begins with `p`.
pub(crate) fn starts_with_bytes(s: &[u8], p: &Vec<u8>) -> (r: bool)
    ensures
        r == bytes_prefix(p@, s@),
{
    if p.len() > s.len() {
        return false;
    }
    let mut i: usize = 0;
    while i < p.len()
        invariant
            i <= p.len() <= s@.len(),
            forall|j: int| 0 <= j < i ==> s@[j] == p@[j],
        decreases p.len() - i,
    {
        if s[i] != p[i] {
            return false;
        }
        i = i + 1;
    }
    assert(s@.subrange(0, p@.len() as int) =~= p@);
    true
}

/// The bytes of `t`, one per character (for ASCII text, its encoding).
fn text_bytes(t: &str) -> (v: Vec<u8>)
    ensures
        v@ == t@.map_values(|c: char| c as u8),
{
    let mut v: Vec<u8> = Vec::new();
    let n = t.unicode_len();
    let mut i: usize = 0;
    while i < n
        invariant
            i <= n,
            n == t@.len(),
            v@ == t@.take(i as int).map_values(|c: char| c as u8),
        decreases n - i,
    {
        let c = t.get_char(i);
        v.push(c as u8);
        i = i + 1;
        assert(v@ =~= t@.take(i as int).map_values(|c: char| c as u8));
    }
    assert(t@.take(n as int) =~= t@);
    v
}

/// Whether file contents are `age` output: they begin with the binary
/// header `age-encryption.org/v1` or the armor header.
pub fn is_age_content(content: &[u8]) -> (r: bool)
    ensures
        r == is_age_bytes(content@),
{
    let bin: Vec<u8> = vec![97u8, 103, 101, 45, 101, 110, 99, 114, 121, 112, 116, 105, 111, 110, 46, 111, 114, 103, 47, 118, 49];
    assert(bin@ =~= binary_header());
    let armor = text_bytes("-----BEGIN AGE ENCRYPTED FILE-----");
    starts_with_bytes(content, &bin) || starts_with_bytes(content, &armor)
}

/// The contents begin with one of the two `age` headers.
pub open spec fn is_age_bytes(c: Seq<u8>) -> bool {
    bytes_prefix(binary_header(), c) || bytes_prefix(armor_header(), c)
}

/// The closing line of armored `age` files.
pub open spec fn armor_footer() -> Seq<u8> {
    "-----END AGE ENCRYPTED FILE-----"@.map_values(|c: char| c as u8)
}

/// Law: the two armor lines, as bytes: `-----BEGIN AGE ENCRYPTED FILE-----`
/// and `-----END AGE ENCRYPTED FILE-----`.
pub proof fn lemma_armor_lines()
    ensures
        armor_header() == seq![45u8, 45, 45, 45, 45, 66, 69, 71, 73, 78, 32, 65, 71, 69, 32, 69, 78, 67, 82, 89, 80, 84, 69, 68, 32, 70, 73, 76, 69, 45, 45, 45, 45, 45],
        armor_footer() == seq![45u8, 45, 45, 45, 45, 69, 78, 68, 32, 65, 71, 69, 32, 69, 78, 67, 82, 89, 80, 84, 69, 68, 32, 70, 73, 76, 69, 45, 45, 45, 45, 45],
{
    reveal_strlit("-----BEGIN AGE ENCRYPTED FILE-----");
    reveal_strlit("-----END AGE ENCRYPTED FILE-----");
    assert(armor_header() =~= seq![45u8, 45, 45, 45, 45, 66, 69, 71, 73, 78, 32, 65, 71, 69, 32, 69, 78, 67, 82, 89, 80, 84, 69, 68, 32, 70, 73, 76, 69, 45, 45, 45, 45, 45]);
    assert(armor_footer() =~= seq![45u8, 45, 45, 45, 45, 69, 78, 68, 32, 65, 71, 69, 32, 69, 78, 67, 82, 89, 80, 84, 69, 68, 32, 70, 73, 76, 69, 45, 45, 45, 45, 45]);
}

/// The first line feed of `c` is at `p`.
pub open spec fn first_newline_at(c: Seq<u8>, p: int) -> bool {
    0 <= p < c.len() && c[p] == 10 && forall|q: int| 0 <= q < p ==> c[q] != 10
}

/// A binary header of a plausible length: at least 22 bytes, the first line
/// ending at byte 21 to 99.
pub open spec fn binary_header_ok(c: Seq<u8>) -> bool {
    c.len() >= 22 && exists|p: int| 21 <= p < 100 && #[trigger] first_newline_at(c, p)
}

/// A line of `c` begins at `a`.
pub open spec fn line_start(c: Seq<u8>, a: int) -> bool {
    0 <= a < c.len() && (a == 0 || c[a - 1] == 10)
}

/// The line beginning at `a` reads `m` (`m` holding no line feed): `m` is
/// followed by the end of the contents, a line feed, or a carriage return
/// and a line feed.
pub open spec fn line_is(c: Seq<u8>, a: int, m: Seq<u8>) -> bool {
    let e = a + m.len();
    &&& 0 <= a
    &&& e <= c.len()
    &&& c.subrange(a, e) == m
    &&& (e == c.len() || c[e] == 10 || (e + 1 < c.len() && c[e] == 13 && c[e + 1] == 10))
}

/// An armored file's frame: the first line is the armor header and some line
/// is the footer.
pub open spec fn ascii_header_ok(c: Seq<u8>) -> bool {
    line_is(c, 0, armor_header()) && exists|a: int| line_start(c, a) && #[trigger] line_is(c, a, armor_footer())
}

/// Whether `c` has a binary header of plausible length: at least 22 bytes,
/// and the first line feed at byte 21 to 99.
pub fn verify_age_binary_header(content: &[u8]) -> (r: bool)
    ensures
        r == binary_header_ok(content@),
{
    if content.len() < 22 {
        return false;
    }
    let mut i: usize = 0;
    while i < content.len()
        invariant
            i <= content@.len(),
            forall|q: int| 0 <= q < i ==> content@[q] != 10,
        decreases content.len() - i,
    {
        if content[i] == 10 {
            assert(first_newline_at(content@, i as int));
            if 21 <= i && i < 100 {
                return true;
            }
            assert forall|p: int| 21 <= p < 100 implies !#[trigger] first_newline_at(content@, p) by {
                if first_newline_at(content@, p) && p != i {
                    if p < i {
                        assert(content@[p] != 10);
                    } else {
                        assert(content@[i as int] != 10);
                    }
                }
            }
            return false;
        }
        i = i + 1;
    }
    false
}

/// Whether the line of `c` beginning at `a` reads `m`.
fn line_matches(c: &[u8], a: usize, m: &Vec<u8>) -> (r: bool)
    ensures
        r == line_is(c@, a as int, m@),
{
    if m.len() > c.len() || a > c.len() - m.len() {
        return false;
    }
    let e = a + m.len();
    let mut i: usize = 0;
    while i < m.len()
        invariant
            i <= m@.len(),
            e == a + m@.len(),
            e <= c@.len(),
            forall|j: int| 0 <= j < i ==> c@[a + j] == m@[j],
        decreases m.len() - i,
    {
        if c[a + i] != m[i] {
            assert(c@.subrange(a as int, e as int)[i as int] != m@[i as int]);
            return false;
        }
        i = i + 1;
    }
    assert(c@.subrange(a as int, e as int) =~= m@);
    e == c.len() || c[e] == 10 || (e + 1 < c.len() && c[e] == 13 && c[e + 1] == 10)
}

/// Whether `c` is framed as an armored file: its first line is the armor
/// header and some line is the armor footer (lines end at a line feed, a
/// carriage return before it dropped).
pub fn verify_age_ascii_header(content: &[u8]) -> (r: bool)
    ensures
        r == ascii_header_ok(content@),
{
    let header = text_bytes("-----BEGIN AGE ENCRYPTED FILE-----");
    let footer = text_bytes("-----END AGE ENCRYPTED FILE-----");
    if !line_matches(content, 0, &header) {
        return false;
    }
    let mut a: usize = 0;
    while a < content.len()
        invariant
            a <= content@.len(),
            footer@ == armor_footer(),
            line_is(content@, 0, armor_header()),
            forall|b: int| 0 <= b < a && line_start(content@, b) ==> !#[trigger] line_is(content@, b, armor_footer()),
        decreases content.len() - a,
    {
        if a == 0 || content[a - 1] == 10 {
            if line_matches(content, a, &footer) {
                assert(line_start(content@, a as int) && line_is(content@, a as int, armor_footer()));
                return true;
            }
        }
        a = a + 1;
    }
    assert forall|b: int| line_start(content@, b) implies !#[trigger] line_is(content@, b, armor_footer()) by {}
    false
}

/// The passphrase checks pass: not empty, at most 1024 bytes.
pub open spec fn passphrase_accepted(p: &str) -> bool {
    0 < p.len() <= MAX_PASSPHRASE_BYTES
}

/// `e` is the refusal of passphrase `p`.
pub open spec fn passphrase_refusal(p: &str, e: AgeError) -> bool {
    ||| p.len() == 0 && validation_failure(e, "passphrase_validation"@, "Empty passphrase not allowed"@)
    ||| p.len() > MAX_PASSPHRASE_BYTES && validation_failure(
        e,
        "passphrase_validation"@,
        "Passphrase exceeds maximum length"@,
    )
}

/// Checks the inputs of a key rotation: an existing directory, two accepted
/// passphrases that differ.
pub fn check_rotation(repository_is_dir: bool, old_passphrase: &str, new_passphrase: &str) -> (r: AgeResult<()>)
    ensures
        !repository_is_dir ==> (r matches Err(AgeError::InvalidOperation { operation, reason })
            && operation@ == "rotate"@ && reason@ == "Repository path required"@),
        repository_is_dir && !passphrase_accepted(old_passphrase) ==> (r matches Err(e) && passphrase_refusal(
            old_passphrase,
            e,
        )),
        repository_is_dir && passphrase_accepted(old_passphrase) && !passphrase_accepted(new_passphrase)
            ==> (r matches Err(e) && passphrase_refusal(new_passphrase, e)),
        repository_is_dir && passphrase_accepted(old_passphrase) && passphrase_accepted(new_passphrase) ==> (
        if old_passphrase@ == new_passphrase@ {
            r matches Err(AgeError::InvalidOperation { operation, reason }) && operation@ == "rotate"@
                && reason@ == "New passphrase must be different from old passphrase"@
        } else {
            r is Ok
        }),
{
    if !repository_is_dir {
        return Err(AgeError::InvalidOperation { operation: owned("rotate"), reason: owned("Repository path required") });
    }
    match validate_passphrase(old_passphrase) {
        Ok(()) => {},
        Err(e) => {
            return Err(e);
        },
    }
    match validate_passphrase(new_passphrase) {
        Ok(()) => {},
        Err(e) => {
            return Err(e);
        },
    }
    if str_eq(old_passphrase, new_passphrase) {
        return Err(AgeError::InvalidOperation {
            operation: owned("rotate"),
            reason: owned("New passphrase must be different from old passphrase"),
        });
    }
    Ok(())
}

/// How a rotation of `encrypted_files` files that found some encrypted
/// ends: refused when none were found.
pub fn check_rotation_targets(encrypted_files: usize) -> (r: AgeResult<()>)
    ensures
        encrypted_files == 0 ==> (r matches Err(AgeError::InvalidOperation { operation, reason })
            && operation@ == "rotate"@ && reason@ == "No encrypted files found to rotate"@),
        encrypted_files > 0 ==> r is Ok,
{
    if encrypted_files == 0 {
        Err(AgeError::InvalidOperation { operation: owned("rotate"), reason: owned("No encrypted files found to rotate") })
    } else {
        Ok(())
    }
}

/// The end of a rotation whose failures are `failures` (one message per
/// file): success without failures; otherwise everything is rolled back and
/// the rotation fails with no file rotated.
pub fn rotation_outcome(failures: Vec<String>) -> (r: AgeResult<()>)
    ensures
        failures.len() == 0 ==> r is Ok,
        failures.len() > 0 ==> (r matches Err(AgeError::BatchOperationFailed { operation, successful_count, failed_count, failures: f })
            && operation@ == "rotate"@ && successful_count == 0 && failed_count == failures.len()
            && views(f@) == views(failures@)),
{
    if failures.len() == 0 {
        Ok(())
    } else {
        let n = failures.len();
        Err(AgeError::BatchOperationFailed {
            operation: owned("rotate"),
            successful_count: 0,
            failed_count: n,
            failures,
        })
    }
}

} // verus!
