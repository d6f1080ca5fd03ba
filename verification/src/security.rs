//! Validation of inputs before an operation: path traversal and sensitive
//! locations in paths, shell metacharacters and null bytes in passphrases.
use vstd::prelude::*;
use crate::error::{AgeError, AgeResult};
use crate::text::{contains, contains_sub, is_prefix, owned, starts_with};

verus! {

/// Locations refused in strict mode.
pub open spec fn sensitive_prefixes() -> Seq<Seq<char>> {
    seq!["/etc"@, "/proc"@, "/sys"@, "/dev"@]
}

/// The sequences refused in a passphrase, in the order they are looked for.
pub open spec fn injection_patterns() -> Seq<Seq<char>> {
    seq!["$("@, "`"@, ";"@, "&"@, "|"@, "\n"@, "\r"@]
}

/// The first injection pattern at or after `i` that `p` contains.
pub open spec fn first_pattern_from(p: Seq<char>, i: int) -> Option<Seq<char>>
    decreases injection_patterns().len() - i,
{
    if i < 0 || i >= injection_patterns().len() {
        None
    } else if contains_sub(p, injection_patterns()[i]) {
        Some(injection_patterns()[i])
    } else {
        first_pattern_from(p, i + 1)
    }
}

/// A passphrase holds a shell metacharacter: `$(`, a backtick, `;`, `&`,
/// `|`, a line feed or a carriage return.
pub open spec fn has_shell_metachar(p: Seq<char>) -> bool {
    ||| contains_sub(p, seq!['$', '('])
    ||| p.contains('`')
    ||| p.contains(';')
    ||| p.contains('&')
    ||| p.contains('|')
    ||| p.contains('\n')
    ||| p.contains('\r')
}

/// Law: a passphrase is refused as a command injection exactly when it holds
/// one of the shell metacharacters `$(`, backtick, `;`, `&`, `|`, line feed,
/// carriage return; the pattern reported is one of them, and it is found in
/// the passphrase.
pub proof fn lemma_injection_refuses_metachars(p: Seq<char>)
    ensures
        first_pattern_from(p, 0) is Some <==> has_shell_metachar(p),
        first_pattern_from(p, 0) matches Some(x) ==> contains_sub(p, x) && (x == seq!['$', '('] || x == seq!['`']
            || x == seq![';'] || x == seq!['&'] || x == seq!['|'] || x == seq!['\n'] || x == seq!['\r']),
{
    reveal_strlit("$(");
    reveal_strlit("`");
    reveal_strlit(";");
    reveal_strlit("&");
    reveal_strlit("|");
    reveal_strlit("\n");
    reveal_strlit("\r");
    assert("$("@ =~= seq!['$', '(']);
    assert("`"@ =~= seq!['`']);
    assert(";"@ =~= seq![';']);
    assert("&"@ =~= seq!['&']);
    assert("|"@ =~= seq!['|']);
    assert("\n"@ =~= seq!['\n']);
    assert("\r"@ =~= seq!['\r']);
    crate::text::lemma_contains_char(p, '`');
    crate::text::lemma_contains_char(p, ';');
    crate::text::lemma_contains_char(p, '&');
    crate::text::lemma_contains_char(p, '|');
    crate::text::lemma_contains_char(p, '\n');
    crate::text::lemma_contains_char(p, '\r');
    assert(injection_patterns()[0] == seq!['$', '(']);
    assert(injection_patterns()[1] == seq!['`']);
    assert(injection_patterns()[2] == seq![';']);
    assert(injection_patterns()[3] == seq!['&']);
    assert(injection_patterns()[4] == seq!['|']);
    assert(injection_patterns()[5] == seq!['\n']);
    assert(injection_patterns()[6] == seq!['\r']);
    assert(first_pattern_from(p, 7) is None);
    reveal_with_fuel(first_pattern_from, 8);
}

/// `path` starts with one of the sensitive locations.
pub open spec fn is_sensitive(path: Seq<char>) -> bool {
    exists|i: int| 0 <= i < sensitive_prefixes().len() && is_prefix(#[trigger] sensitive_prefixes()[i], path)
}

/// Law: the sensitive locations are exactly the paths beginning with
/// `/etc`, `/proc`, `/sys` or `/dev`.
pub proof fn lemma_sensitive_locations(path: Seq<char>)
    ensures
        is_sensitive(path) <==> (is_prefix(seq!['/', 'e', 't', 'c'], path) || is_prefix(seq!['/', 'p', 'r', 'o', 'c'], path)
            || is_prefix(seq!['/', 's', 'y', 's'], path) || is_prefix(seq!['/', 'd', 'e', 'v'], path)),
{
    reveal_strlit("/etc");
    reveal_strlit("/proc");
    reveal_strlit("/sys");
    reveal_strlit("/dev");
    assert("/etc"@ =~= seq!['/', 'e', 't', 'c']);
    assert("/proc"@ =~= seq!['/', 'p', 'r', 'o', 'c']);
    assert("/sys"@ =~= seq!['/', 's', 'y', 's']);
    assert("/dev"@ =~= seq!['/', 'd', 'e', 'v']);
    assert(sensitive_prefixes()[0] == seq!['/', 'e', 't', 'c']);
    assert(sensitive_prefixes()[1] == seq!['/', 'p', 'r', 'o', 'c']);
    assert(sensitive_prefixes()[2] == seq!['/', 's', 'y', 's']);
    assert(sensitive_prefixes()[3] == seq!['/', 'd', 'e', 'v']);
    if is_sensitive(path) {
        let i = choose|i: int| 0 <= i < sensitive_prefixes().len() && is_prefix(#[trigger] sensitive_prefixes()[i], path);
        assert(i == 0 || i == 1 || i == 2 || i == 3);
    }
}

/// A security validation failure of kind `kind` with `details`.
pub open spec fn validation_failure(e: AgeError, kind: Seq<char>, details: Seq<char>) -> bool {
    e matches AgeError::SecurityValidationFailed { validation_type, details: d }
        && validation_type@ == kind && d@ == details
}

/// A blocked injection of kind `kind` with the pattern found.
pub open spec fn injection_failure(e: AgeError, kind: Seq<char>, pattern: Seq<char>) -> bool {
    e matches AgeError::InjectionAttemptBlocked { attack_type, detected_pattern }
        && attack_type@ == kind && detected_pattern@ == pattern
}

/// Why a validator with strictness `strict` refuses `path`, if it does: the
/// kind of refusal and its details.
pub open spec fn path_refusal(strict: bool, path: Seq<char>) -> Option<(Seq<char>, Seq<char>)> {
    if contains_sub(path, ".."@) {
        Some(("path_traversal"@, "Path contains '..' traversal: "@ + path))
    } else if strict && is_sensitive(path) {
        Some(("sensitive_path"@, "Access to sensitive path: "@ + path))
    } else {
        None
    }
}

/// Why a passphrase is refused as an injection attempt, if it is: the kind
/// of attempt and the pattern found.
pub open spec fn passphrase_injection(p: Seq<char>) -> Option<(Seq<char>, Seq<char>)> {
    match first_pattern_from(p, 0) {
        Some(x) => Some(("command_injection"@, x)),
        None => if p.contains('\0') {
            Some(("null_byte"@, "\\0"@))
        } else {
            None
        },
    }
}

/// Checks paths and passphrases; strict mode also refuses system locations.
#[derive(Debug)]
pub struct SecurityValidator {
    strict_mode: bool,
}

impl SecurityValidator {
    pub closed spec fn spec_strict(&self) -> bool {
        self.strict_mode
    }

    /// A validator, strict or not.
    pub fn new(strict_mode: bool) -> (v: Self)
        ensures
            v.spec_strict() == strict_mode,
    {
        SecurityValidator { strict_mode }
    }

    /// Refuses a path with `..` in it and, in strict mode, one under `/etc`,
    /// `/proc`, `/sys` or `/dev`.
    pub fn validate_file_path(&self, path: &str) -> (r: AgeResult<()>)
        ensures
            contains_sub(path@, ".."@) ==> (r matches Err(e) && validation_failure(
                e,
                "path_traversal"@,
                "Path contains '..' traversal: "@ + path@,
            )),
            !contains_sub(path@, ".."@) && self.spec_strict() && is_sensitive(path@) ==> (r matches Err(e)
                && validation_failure(e, "sensitive_path"@, "Access to sensitive path: "@ + path@)),
            !contains_sub(path@, ".."@) && !(self.spec_strict() && is_sensitive(path@)) ==> r is Ok,
            contains_sub(path@, seq!['.', '.']) ==> r is Err,
            self.spec_strict() && (is_prefix(seq!['/', 'e', 't', 'c'], path@) || is_prefix(
                seq!['/', 'p', 'r', 'o', 'c'],
                path@,
            ) || is_prefix(seq!['/', 's', 'y', 's'], path@) || is_prefix(seq!['/', 'd', 'e', 'v'], path@)) ==> r is Err,
            !contains_sub(path@, seq!['.', '.']) && !(self.spec_strict() && (is_prefix(seq!['/', 'e', 't', 'c'], path@)
                || is_prefix(seq!['/', 'p', 'r', 'o', 'c'], path@) || is_prefix(seq!['/', 's', 'y', 's'], path@)
                || is_prefix(seq!['/', 'd', 'e', 'v'], path@))) ==> r is Ok,
    {
        proof {
            lemma_sensitive_locations(path@);
            reveal_strlit("..");
            assert(".."@ =~= seq!['.', '.']);
        }
        if contains(path, "..") {
            let mut d = owned("Path contains '..' traversal: ");
            d.append(path);
            return Err(AgeError::SecurityValidationFailed { validation_type: owned("path_traversal"), details: d });
        }
        if self.strict_mode {
            let sensitive = starts_with(path, "/etc") || starts_with(path, "/proc") || starts_with(path, "/sys")
                || starts_with(path, "/dev");
            proof {
                if is_prefix("/etc"@, path@) {
                    assert(is_prefix(sensitive_prefixes()[0], path@));
                }
                if is_prefix("/proc"@, path@) {
                    assert(is_prefix(sensitive_prefixes()[1], path@));
                }
                if is_prefix("/sys"@, path@) {
                    assert(is_prefix(sensitive_prefixes()[2], path@));
                }
                if is_prefix("/dev"@, path@) {
                    assert(is_prefix(sensitive_prefixes()[3], path@));
                }
                if is_sensitive(path@) {
                    let i = choose|i: int| 0 <= i < sensitive_prefixes().len() && is_prefix(
                        #[trigger] sensitive_prefixes()[i],
                        path@,
                    );
                    assert(i == 0 || i == 1 || i == 2 || i == 3);
                }
            }
            if sensitive {
                let mut d = owned("Access to sensitive path: ");
                d.append(path);
                return Err(AgeError::SecurityValidationFailed { validation_type: owned("sensitive_path"), details: d });
            }
        }
        Ok(())
    }

    /// Refuses a passphrase holding `$(`, a backtick, `;`, `&`, `|`, a line
    /// feed or a carriage return (the first found, in that order), or a null
    /// byte.
    pub fn validate_passphrase_security(&self, passphrase: &str) -> (r: AgeResult<()>)
        ensures
            first_pattern_from(passphrase@, 0) matches Some(p) ==> (r matches Err(e) && injection_failure(
                e,
                "command_injection"@,
                p,
            )),
            first_pattern_from(passphrase@, 0) is None && passphrase@.contains('\0') ==> (r matches Err(e)
                && injection_failure(e, "null_byte"@, "\\0"@)),
            first_pattern_from(passphrase@, 0) is None && !passphrase@.contains('\0') ==> r is Ok,
            has_shell_metachar(passphrase@) ==> (r matches Err(AgeError::InjectionAttemptBlocked {
                attack_type,
                ..
            }) && attack_type@ == "command_injection"@),
            !has_shell_metachar(passphrase@) && !passphrase@.contains('\0') ==> r is Ok,
    {
        proof {
            lemma_injection_refuses_metachars(passphrase@);
        }
        let patterns: [&str; 7] = ["$(", "`", ";", "&", "|", "\n", "\r"];
        proof {
            assert(injection_patterns().len() == 7);
        }
        let mut i: usize = 0;
        while i < 7
            invariant
                i <= 7,
                patterns@.map_values(|t: &str| t@) == injection_patterns(),
                first_pattern_from(passphrase@, 0) == first_pattern_from(passphrase@, i as int),
            decreases 7 - i,
        {
            assert(patterns@[i as int]@ == injection_patterns()[i as int]);
            if contains(passphrase, patterns[i]) {
                proof {
                    lemma_injection_refuses_metachars(passphrase@);
                }
                return Err(AgeError::InjectionAttemptBlocked {
                    attack_type: owned("command_injection"),
                    detected_pattern: owned(patterns[i]),
                });
            }
            i = i + 1;
        }
        if contains(passphrase, "\0") {
            proof {
                reveal_strlit("\0");
                if contains_sub(passphrase@, "\0"@) {
                    let k = choose|k: int| crate::text::occurs_at(passphrase@, "\0"@, k);
                    assert(passphrase@.subrange(k, k + 1) == "\0"@);
                    assert(passphrase@[k] == "\0"@[0]);
                }
            }
            return Err(AgeError::InjectionAttemptBlocked {
                attack_type: owned("null_byte"),
                detected_pattern: owned("\\0"),
            });
        }
        proof {
            reveal_strlit("\0");
            if passphrase@.contains('\0') {
                let k = choose|k: int| 0 <= k < passphrase@.len() && passphrase@[k] == '\0';
                assert(passphrase@.subrange(k, k + 1) =~= "\0"@);
                assert(crate::text::occurs_at(passphrase@, "\0"@, k));
            }
        }
        Ok(())
    }
}

} // verus!
