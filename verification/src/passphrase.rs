//! Passphrase handling: which input mode to use, what is accepted from an
//! interactive prompt or from standard input, advice on weak passphrases, and
//! the detection of a passphrase given on the command line.  Reading the
//! terminal, standard input and the environment is the caller's.
use vstd::prelude::*;
use crate::error::{AgeError, AgeResult};
use crate::text::{
    chars_of, is_prefix, lowercase, owned, starts_with, str_eq, string_from_chars, to_lowercase,
    trim_chars, trim_spec,
};

verus! {

/// Where a passphrase comes from.
#[derive(Debug, Clone, PartialEq, Eq)]
pub enum PassphraseMode {
    /// A hidden prompt on the terminal.
    Interactive,
    /// A line of standard input.
    Stdin,
    /// The environment variable named.
    Environment(String),
    /// Given on the command line (insecure).
    CommandLine(String),
}

/// What to do to obtain a passphrase.
#[derive(Debug, Clone, PartialEq, Eq)]
pub enum PassphraseStep {
    /// Prompt on the terminal with this text, asking twice when `confirm`.
    Prompt { text: String, confirm: bool },
    /// Read a line of standard input.
    ReadStdin,
    /// Read the environment variable named.
    ReadEnvironment(String),
    /// Use the passphrase given on the command line, after warning that this
    /// is insecure.
    UseInsecure(String),
}

/// The environment variable that holds a passphrase.
pub const PASSPHRASE_ENV_VAR: &'static str = "CAGE_PASSPHRASE";

/// The environment variable that asks for the passphrase on standard input.
pub const STDIN_PASSPHRASE_ENV_VAR: &'static str = "CAGE_STDIN_PASSPHRASE";

/// An error about passphrase input carrying `message`.
pub open spec fn passphrase_error(e: AgeError, message: Seq<char>) -> bool {
    e matches AgeError::PassphraseError { message: m } && m@ == message
}

/// Builds a passphrase input error.
fn passphrase_error_of(message: &str) -> (e: AgeError)
    ensures
        passphrase_error(e, message@),
{
    AgeError::PassphraseError { message: owned(message) }
}

/// Chooses and checks passphrase input for the terminal it runs on.
#[derive(Debug)]
pub struct PassphraseManager {
    tty_available: bool,
    stdin_is_tty: bool,
}

impl PassphraseManager {
    pub closed spec fn spec_tty_available(&self) -> bool {
        self.tty_available
    }

    pub closed spec fn spec_stdin_is_tty(&self) -> bool {
        self.stdin_is_tty
    }

    /// A manager for a process that has (or has not) a terminal to prompt on
    /// and whose standard input is (or is not) a terminal.
    pub fn new(tty_available: bool, stdin_is_tty: bool) -> (m: Self)
        ensures
            m.spec_tty_available() == tty_available,
            m.spec_stdin_is_tty() == stdin_is_tty,
    {
        PassphraseManager { tty_available, stdin_is_tty }
    }

    /// Whether a terminal is there to prompt on.
    pub fn tty_available(&self) -> (r: bool)
        ensures
            r == self.spec_tty_available(),
    {
        self.tty_available
    }

    /// Whether standard input is a terminal.
    pub fn stdin_is_tty(&self) -> (r: bool)
        ensures
            r == self.spec_stdin_is_tty(),
    {
        self.stdin_is_tty
    }

    /// The input mode to use: the passphrase variable when it is set, standard
    /// input when asked for, otherwise the terminal, and an error without one.
    pub fn select_mode(&self, passphrase_var_set: bool, stdin_requested: bool) -> (r: AgeResult<PassphraseMode>)
        ensures
            passphrase_var_set ==> (r matches Ok(PassphraseMode::Environment(v)) && v@
                == PASSPHRASE_ENV_VAR@),
            !passphrase_var_set && stdin_requested ==> r matches Ok(PassphraseMode::Stdin),
            !passphrase_var_set && !stdin_requested && self.spec_tty_available() ==> r matches Ok(
                PassphraseMode::Interactive,
            ),
            !passphrase_var_set && !stdin_requested && !self.spec_tty_available() ==> (r matches Err(e)
                && passphrase_error(
                e,
                "No TTY available for interactive input. Use CAGE_PASSPHRASE env var or --stdin-passphrase"@,
            )),
    {
        if passphrase_var_set {
            return Ok(PassphraseMode::Environment(owned(PASSPHRASE_ENV_VAR)));
        }
        if stdin_requested {
            return Ok(PassphraseMode::Stdin);
        }
        if self.tty_available {
            Ok(PassphraseMode::Interactive)
        } else {
            Err(
                passphrase_error_of(
                    "No TTY available for interactive input. Use CAGE_PASSPHRASE env var or --stdin-passphrase",
                ),
            )
        }
    }

    /// What obtaining a passphrase in `mode` takes.
    pub fn get_passphrase_with_mode(&self, prompt: &str, confirm: bool, mode: PassphraseMode) -> (r: PassphraseStep)
        ensures
            match mode {
                PassphraseMode::Interactive => r matches PassphraseStep::Prompt { text, confirm: c } && text@ == prompt@
                    && c == confirm,
                PassphraseMode::Stdin => r == PassphraseStep::ReadStdin,
                PassphraseMode::Environment(v) => r matches PassphraseStep::ReadEnvironment(w) && w@ == v@,
                PassphraseMode::CommandLine(p) => r matches PassphraseStep::UseInsecure(q) && q@ == p@,
            },
    {
        match mode {
            PassphraseMode::Interactive => PassphraseStep::Prompt { text: owned(prompt), confirm },
            PassphraseMode::Stdin => PassphraseStep::ReadStdin,
            PassphraseMode::Environment(v) => PassphraseStep::ReadEnvironment(v),
            PassphraseMode::CommandLine(p) => PassphraseStep::UseInsecure(p),
        }
    }

    /// What obtaining a passphrase takes, the mode chosen from the
    /// environment (`select_mode`).
    pub fn get_passphrase(&self, prompt: &str, confirm: bool, passphrase_var_set: bool, stdin_requested: bool) -> (r: AgeResult<PassphraseStep>)
        ensures
            passphrase_var_set ==> (r matches Ok(PassphraseStep::ReadEnvironment(v)) && v@ == PASSPHRASE_ENV_VAR@),
            !passphrase_var_set && stdin_requested ==> r == Ok::<PassphraseStep, AgeError>(PassphraseStep::ReadStdin),
            !passphrase_var_set && !stdin_requested && self.spec_tty_available() ==> (r matches Ok(
                PassphraseStep::Prompt { text, confirm: c },
            ) && text@ == prompt@ && c == confirm),
            !passphrase_var_set && !stdin_requested && !self.spec_tty_available() ==> (r matches Err(e)
                && passphrase_error(
                e,
                "No TTY available for interactive input. Use CAGE_PASSPHRASE env var or --stdin-passphrase"@,
            )),
    {
        match self.select_mode(passphrase_var_set, stdin_requested) {
            Ok(mode) => Ok(self.get_passphrase_with_mode(prompt, confirm, mode)),
            Err(e) => Err(e),
        }
    }

    /// What an interactive prompt yields: the passphrase typed, unless there
    /// is no terminal, it is empty, or its confirmation (when one was asked
    /// for) differs.
    pub fn check_interactive(&self, passphrase: String, confirmation: Option<String>) -> (r: AgeResult<String>)
        ensures
            !self.spec_tty_available() ==> (r matches Err(e) && passphrase_error(
                e,
                "TTY not available for interactive prompt"@,
            )),
            self.spec_tty_available() && passphrase@.len() == 0 ==> (r matches Err(e)
                && passphrase_error(e, "Empty passphrase not allowed"@)),
            self.spec_tty_available() && passphrase@.len() > 0 ==> match confirmation {
                Some(c) => if c@ == passphrase@ {
                    r matches Ok(p) && p@ == passphrase@
                } else {
                    r matches Err(e) && passphrase_error(e, "Passphrases do not match"@)
                },
                None => r matches Ok(p) && p@ == passphrase@,
            },
    {
        if !self.tty_available {
            return Err(passphrase_error_of("TTY not available for interactive prompt"));
        }
        if passphrase.as_str().unicode_len() == 0 {
            return Err(passphrase_error_of("Empty passphrase not allowed"));
        }
        match confirmation {
            Some(c) => {
                if str_eq(c.as_str(), passphrase.as_str()) {
                    Ok(passphrase)
                } else {
                    Err(passphrase_error_of("Passphrases do not match"))
                }
            },
            None => Ok(passphrase),
        }
    }

    /// The passphrase on a line of standard input: the line trimmed, which
    /// must not be empty.
    pub fn passphrase_from_line(line: &str) -> (r: AgeResult<String>)
        ensures
            trim_spec(line@).len() > 0 ==> (r matches Ok(p) && p@ == trim_spec(line@)),
            trim_spec(line@).len() == 0 ==> (r matches Err(e) && passphrase_error(
                e,
                "Empty passphrase from stdin"@,
            )),
    {
        let chars = chars_of(line);
        let t = trim_chars(&chars);
        if t.len() == 0 {
            return Err(passphrase_error_of("Empty passphrase from stdin"));
        }
        Ok(string_from_chars(&t, 0, t.len()))
    }

    /// The error for an environment variable that is not set.
    pub fn missing_variable(var_name: &str) -> (e: AgeError)
        ensures
            passphrase_error(e, "Environment variable "@ + var_name@ + " not found"@),
    {
        let mut m = owned("Environment variable ");
        m.append(var_name);
        m.append(" not found");
        AgeError::PassphraseError { message: m }
    }

    /// Advice on a passphrase that is accepted but weak: shorter than eight
    /// bytes; shorter than twelve bytes without ASCII punctuation; no
    /// uppercase letters.
    pub fn strength_advice(passphrase: &str) -> (r: Vec<&'static str>)
        ensures
            r@.map_values(|t: &str| t@) == advice_texts(
                passphrase.len() as nat,
                has_ascii_punctuation(passphrase@),
                lowercase(passphrase@) == passphrase@,
            ),
    {
        let mut r: Vec<&'static str> = Vec::new();
        let n = passphrase.len();
        let ghost bytes = n as nat;
        let ghost punct = has_ascii_punctuation(passphrase@);
        let ghost a = if bytes < 8 { seq![ADVICE_SHORT@] } else { Seq::<Seq<char>>::empty() };
        if n < 8 {
            r.push(ADVICE_SHORT);
        }
        assert(r@.map_values(|t: &str| t@) =~= a);
        let ghost b = if bytes < 12 && !punct { a.push(ADVICE_SPECIAL@) } else { a };
        if n < 12 && !contains_ascii_punctuation(passphrase) {
            r.push(ADVICE_SPECIAL);
        }
        assert(r@.map_values(|t: &str| t@) =~= b);
        let lower = to_lowercase(passphrase);
        if str_eq(lower.as_str(), passphrase) {
            r.push(ADVICE_CASE);
        }
        assert(r@.map_values(|t: &str| t@) =~= advice_texts(
            passphrase.len() as nat,
            has_ascii_punctuation(passphrase@),
            lowercase(passphrase@) == passphrase@,
        ));
        r
    }

    /// The passphrase given on a command line, if any: the argument after the
    /// first `--passphrase` or `-p` that has one, or the value of a
    /// `--passphrase=` argument up to the next `=`, whichever comes first.
    pub fn detect_insecure_usage(args: &Vec<String>) -> (r: Option<String>)
        ensures
            opt_chars(r) == insecure_from(args@.map_values(|a: String| a@), 0),
    {
        let ghost vs = args@.map_values(|a: String| a@);
        let mut i: usize = 0;
        while i < args.len()
            invariant
                i <= args.len(),
                vs == args@.map_values(|a: String| a@),
                insecure_from(vs, 0) == insecure_from(vs, i as int),
            decreases args.len() - i,
        {
            let arg = args[i].as_str();
            assert(vs[i as int] == arg@);
            if (str_eq(arg, "--passphrase") || str_eq(arg, "-p")) && i + 1 < args.len() {
                proof {
                    reveal_strlit("--passphrase");
                    reveal_strlit("-p");
                }
                let next = args[i + 1].clone();
                assert(vs[i + 1] == next@);
                return Some(next);
            }
            if starts_with(arg, "--passphrase=") {
                proof {
                    reveal_strlit("--passphrase=");
                }
                let v = chars_of(arg);
                let end = first_eq_at(&v, 13);
                return Some(string_from_chars(&v, 13, end));
            }
            proof {
                reveal_strlit("--passphrase");
                reveal_strlit("-p");
                reveal_strlit("--passphrase=");
            }
            i = i + 1;
        }
        None
    }
}

/// Advice on a short passphrase.
pub const ADVICE_SHORT: &'static str =
    "Passphrase is less than 8 characters. Consider using a longer passphrase for better security.";

/// Advice on a passphrase without special characters.
pub const ADVICE_SPECIAL: &'static str = "Tip: Consider adding special characters for stronger security.";

/// Advice on a passphrase in one case.
pub const ADVICE_CASE: &'static str = "Tip: Mix of uppercase and lowercase letters improves security.";

/// The advice given for a passphrase of `bytes` bytes, with or without ASCII
/// punctuation, all in lowercase or not.
pub open spec fn advice_texts(bytes: nat, punctuation: bool, lowercase_only: bool) -> Seq<Seq<char>> {
    let a = if bytes < 8 {
        seq![ADVICE_SHORT@]
    } else {
        Seq::<Seq<char>>::empty()
    };
    let b = if bytes < 12 && !punctuation {
        a.push(ADVICE_SPECIAL@)
    } else {
        a
    };
    if lowercase_only {
        b.push(ADVICE_CASE@)
    } else {
        b
    }
}

/// Law: the advice counts one item for a passphrase of at most seven
/// bytes, one for one of at most eleven bytes without punctuation and one
/// for one without uppercase letters, in that order; a passphrase of
/// twelve bytes or more that mixes cases gets none.
pub proof fn lemma_advice_thresholds(bytes: nat, punctuation: bool, lowercase_only: bool)
    ensures
        advice_texts(bytes, punctuation, lowercase_only).len() == (if bytes <= 7 { 1int } else { 0int }) + (if bytes
            <= 11 && !punctuation { 1int } else { 0int }) + (if lowercase_only { 1int } else { 0int }),
        bytes <= 7 ==> advice_texts(bytes, punctuation, lowercase_only)[0] == ADVICE_SHORT@,
        8 <= bytes <= 11 && !punctuation ==> advice_texts(bytes, punctuation, lowercase_only)[0] == ADVICE_SPECIAL@,
        lowercase_only ==> advice_texts(bytes, punctuation, lowercase_only).last() == ADVICE_CASE@,
        bytes >= 12 && !lowercase_only ==> advice_texts(bytes, punctuation, lowercase_only).len() == 0,
{
}

/// The characters of an optional string.
pub open spec fn opt_chars(o: Option<String>) -> Option<Seq<char>> {
    match o {
        Some(s) => Some(s@),
        None => None,
    }
}

/// `c` is an ASCII punctuation character.
pub open spec fn is_ascii_punct(c: char) -> bool {
    ('!' <= c && c <= '/') || (':' <= c && c <= '@') || ('[' <= c && c <= '`') || ('{' <= c && c <= '~')
}

/// Some character of `s` is ASCII punctuation.
pub open spec fn has_ascii_punctuation(s: Seq<char>) -> bool {
    exists|i: int| 0 <= i < s.len() && is_ascii_punct(#[trigger] s[i])
}

/// Whether `s` holds an ASCII punctuation character.
fn contains_ascii_punctuation(s: &str) -> (r: bool)
    ensures
        r == has_ascii_punctuation(s@),
{
    let v = chars_of(s);
    let mut i: usize = 0;
    while i < v.len()
        invariant
            i <= v.len(),
            v@ == s@,
            forall|j: int| 0 <= j < i ==> !is_ascii_punct(#[trigger] v@[j]),
        decreases v.len() - i,
    {
        let c = v[i];
        if ('!' <= c && c <= '/') || (':' <= c && c <= '@') || ('[' <= c && c <= '`') || ('{' <= c
            && c <= '~') {
            assert(is_ascii_punct(s@[i as int]));
            return true;
        }
        i = i + 1;
    }
    false
}

/// The index of the first `=` in `s` at or after `i`, or the length of `s`.
pub open spec fn first_eq_from(s: Seq<char>, i: int) -> int
    decreases s.len() - i,
{
    if i >= s.len() || i < 0 {
        s.len() as int
    } else if s[i] == '=' {
        i
    } else {
        first_eq_from(s, i + 1)
    }
}

/// Where the first `=` at or after `from` is.
fn first_eq_at(v: &Vec<char>, from: usize) -> (r: usize)
    requires
        from <= v.len(),
    ensures
        r as int == first_eq_from(v@, from as int),
        from <= r <= v.len(),
{
    let mut j = from;
    while j < v.len() && v[j] != '='
        invariant
            from <= j <= v.len(),
            first_eq_from(v@, from as int) == first_eq_from(v@, j as int),
        decreases v.len() - j,
    {
        j = j + 1;
    }
    j
}

/// The passphrase found in `args` from position `i` on.
pub open spec fn insecure_from(args: Seq<Seq<char>>, i: int) -> Option<Seq<char>>
    decreases args.len() - i,
{
    if i < 0 || i >= args.len() {
        None
    } else if (args[i] == "--passphrase"@ || args[i] == "-p"@) && i + 1 < args.len() {
        Some(args[i + 1])
    } else if is_prefix("--passphrase="@, args[i]) {
        Some(args[i].subrange(13, first_eq_from(args[i], 13)))
    } else {
        insecure_from(args, i + 1)
    }
}

/// Law: reading arguments from position `i`, `-p` or `--passphrase`
/// followed by another argument yields that argument; an argument beginning
/// `--passphrase=` yields what follows the sign (up to any further `=`);
/// any other argument is passed over.
pub proof fn lemma_passphrase_argument_forms(args: Seq<Seq<char>>, i: int)
    requires
        0 <= i < args.len(),
    ensures
        ({
            let short = seq!['-', 'p'];
            let long = seq!['-', '-', 'p', 'a', 's', 's', 'p', 'h', 'r', 'a', 's', 'e'];
            let with_value = long.push('=');
            &&& (args[i] == short || args[i] == long) && i + 1 < args.len() ==> insecure_from(args, i) == Some(
                args[i + 1],
            )
            &&& args[i] != short && args[i] != long && is_prefix(with_value, args[i]) ==> insecure_from(args, i)
                == Some(args[i].subrange(13, first_eq_from(args[i], 13)))
            &&& !(args[i] == short || args[i] == long) && !is_prefix(with_value, args[i]) ==> insecure_from(
                args,
                i,
            ) == insecure_from(args, i + 1)
        }),
{
    reveal_strlit("-p");
    reveal_strlit("--passphrase");
    reveal_strlit("--passphrase=");
    assert("-p"@ =~= seq!['-', 'p']);
    assert("--passphrase"@ =~= seq!['-', '-', 'p', 'a', 's', 's', 'p', 'h', 'r', 'a', 's', 'e']);
    assert("--passphrase="@ =~= seq!['-', '-', 'p', 'a', 's', 's', 'p', 'h', 'r', 'a', 's', 'e', '=']);
    assert(seq!['-', '-', 'p', 'a', 's', 's', 'p', 'h', 'r', 'a', 's', 'e'].push('=') =~= seq![
        '-',
        '-',
        'p',
        'a',
        's',
        's',
        'p',
        'h',
        'r',
        'a',
        's',
        'e',
        '=',
    ]);
}

/// The text of a recovery hint for `file_path` after `operation`, made at
/// `timestamp`.
pub open spec fn recovery_hint_text(file_path: Seq<char>, operation: Seq<char>, timestamp: Seq<char>) -> Seq<char> {
    "# Cage Recovery Information\n# File: "@ + file_path + "\n# Operation: "@ + operation + " at "@
        + timestamp + "\n# To recover: cage unlock "@ + file_path
        + " <passphrase>\n# Delete this file once you've verified successful operation\n"@
}

impl PassphraseManager {
    /// A hint on how to recover `file_path` after `operation`; `timestamp` is
    /// the time of the operation as the caller writes it
    /// (`YYYY-MM-DD HH:MM:SS UTC`).  The hint holds no passphrase.
    pub fn create_recovery_hint(&self, file_path: &str, operation: &str, timestamp: &str) -> (r: String)
        ensures
            r@ == recovery_hint_text(file_path@, operation@, timestamp@),
    {
        let mut s = owned("# Cage Recovery Information\n# File: ");
        s.append(file_path);
        s.append("\n# Operation: ");
        s.append(operation);
        s.append(" at ");
        s.append(timestamp);
        s.append("\n# To recover: cage unlock ");
        s.append(file_path);
        s.append(" <passphrase>\n# Delete this file once you've verified successful operation\n");
        s
    }
}

} // verus!
