//! Driving `age` through a pseudo-terminal: what each piece of output from
//! the terminal asks for (typing the passphrase at a prompt, waiting, ending,
//! failing on a timeout or a read error), how a failure to start `age` is
//! reported, and how a finished run is judged.  Opening the terminal,
//! reading, writing, sleeping and waiting for `age` are the caller's.
use vstd::prelude::*;
use crate::config::OutputFormat;
use crate::error::AgeError;
use crate::error::AgeResult;
use crate::text::{contains, contains_sub, dec_digits, owned, u64_to_string};

verus! {

/// How long a run may take before it is given up, in seconds.
pub const DEFAULT_PTY_TIMEOUT_SECS: u64 = 30;

/// What reading the terminal gave.
pub enum PtyEvent {
    /// Some output (already decoded as text).
    Output(String),
    /// Nothing yet: the read would block or timed out.
    WouldBlock,
    /// The read failed, with the error's message.
    ReadError(String),
    /// The terminal closed: `age` is done.
    Eof,
}

/// What to do next.
pub enum PtyAction {
    /// Type this text into the terminal.
    Write(String),
    /// Pause briefly and read again.
    Wait,
    /// Stop reading: the interaction is over.
    Finish,
    /// Give up with this error.
    Fail(AgeError),
}

/// A passphrase prompt: `Enter passphrase` or `passphrase:` seen.
pub open spec fn asks_passphrase(b: Seq<char>) -> bool {
    contains_sub(b, "Enter passphrase"@) || contains_sub(b, "passphrase:"@)
}

/// A confirmation prompt: `Confirm passphrase` or `confirm:` seen.
pub open spec fn asks_confirmation(b: Seq<char>) -> bool {
    contains_sub(b, "Confirm passphrase"@) || contains_sub(b, "confirm:"@)
}

/// `e` is the failure of a run that took longer than `secs` seconds.
pub open spec fn timeout_error(e: AgeError, secs: u64) -> bool {
    e matches AgeError::ProcessExecutionFailed { command, exit_code, stderr } && command@
        == "pty_automation_timeout"@ && exit_code is None && stderr@ == "PTY automation timed out after "@
        + dec_digits(secs as nat) + "s"@
}

/// `e` is the failure of a read of the terminal with message `m`.
pub open spec fn read_error(e: AgeError, m: Seq<char>) -> bool {
    e matches AgeError::ProcessExecutionFailed { command, exit_code, stderr } && command@ == "pty_read"@
        && exit_code is None && stderr@ == "PTY read error: "@ + m
}

/// The texts typed and the buffer left when output `text` arrives on
/// `buffer`: the passphrase and a line feed at a passphrase prompt (the
/// buffer then cleared), and, where confirmation is expected, again at a
/// confirmation prompt.
pub open spec fn on_output(buffer: Seq<char>, text: Seq<char>, passphrase: Seq<char>, confirm: bool) -> (Seq<Seq<char>>, Seq<char>) {
    let b1 = buffer + text;
    let line = passphrase + "\n"@;
    let (w1, b2) = if asks_passphrase(b1) {
        (seq![line], Seq::<char>::empty())
    } else {
        (Seq::<Seq<char>>::empty(), b1)
    };
    if confirm && asks_confirmation(b2) {
        (w1.push(line), Seq::<char>::empty())
    } else {
        (w1, b2)
    }
}

/// Law: output that shows `Enter passphrase` or `passphrase:` is answered
/// with the passphrase and a line feed, and the buffer is cleared; output
/// that shows neither (nor, when confirming, a confirmation prompt) is
/// answered with nothing and kept.
pub proof fn lemma_prompt_answered(buffer: Seq<char>, text: Seq<char>, passphrase: Seq<char>, confirm: bool)
    ensures
        ({
            let b = buffer + text;
            let enter = seq!['E', 'n', 't', 'e', 'r', ' ', 'p', 'a', 's', 's', 'p', 'h', 'r', 'a', 's', 'e'];
            let colon = seq!['p', 'a', 's', 's', 'p', 'h', 'r', 'a', 's', 'e', ':'];
            let again = seq!['C', 'o', 'n', 'f', 'i', 'r', 'm', ' ', 'p', 'a', 's', 's', 'p', 'h', 'r', 'a', 's', 'e'];
            let again_colon = seq!['c', 'o', 'n', 'f', 'i', 'r', 'm', ':'];
            let (writes, left) = on_output(buffer, text, passphrase, confirm);
            &&& (contains_sub(b, enter) || contains_sub(b, colon)) ==> writes.len() >= 1 && writes[0]
                == passphrase + seq!['\n'] && left.len() == 0
            &&& (!contains_sub(b, enter) && !contains_sub(b, colon) && !(confirm && (contains_sub(b, again)
                || contains_sub(b, again_colon)))) ==> writes.len() == 0 && left == b
        }),
{
    reveal_strlit("Enter passphrase");
    reveal_strlit("passphrase:");
    reveal_strlit("Confirm passphrase");
    reveal_strlit("confirm:");
    reveal_strlit("\n");
    assert("Enter passphrase"@ =~= seq!['E', 'n', 't', 'e', 'r', ' ', 'p', 'a', 's', 's', 'p', 'h', 'r', 'a', 's', 'e']);
    assert("passphrase:"@ =~= seq!['p', 'a', 's', 's', 'p', 'h', 'r', 'a', 's', 'e', ':']);
    assert("Confirm passphrase"@ =~= seq!['C', 'o', 'n', 'f', 'i', 'r', 'm', ' ', 'p', 'a', 's', 's', 'p', 'h', 'r', 'a', 's', 'e']);
    assert("confirm:"@ =~= seq!['c', 'o', 'n', 'f', 'i', 'r', 'm', ':']);
    assert("\n"@ =~= seq!['\n']);
}

/// Law: a failure to start `age` counts as `age` missing exactly when its
/// message mentions `No viable candidates found in PATH`, `No such file or
/// directory` or `not found`.
pub proof fn lemma_missing_messages(msg: Seq<char>)
    ensures
        means_missing(msg) <==> (contains_sub(
            msg,
            seq![
                'N', 'o', ' ', 'v', 'i', 'a', 'b', 'l', 'e', ' ', 'c', 'a', 'n', 'd', 'i', 'd', 'a', 't', 'e', 's', ' ',
                'f', 'o', 'u', 'n', 'd', ' ', 'i', 'n', ' ', 'P', 'A', 'T', 'H'
            ],
        ) || contains_sub(
            msg,
            seq!['N', 'o', ' ', 's', 'u', 'c', 'h', ' ', 'f', 'i', 'l', 'e', ' ', 'o', 'r', ' ', 'd', 'i', 'r', 'e', 'c', 't', 'o', 'r', 'y'],
        ) || contains_sub(msg, seq!['n', 'o', 't', ' ', 'f', 'o', 'u', 'n', 'd'])),
{
    reveal_strlit("No viable candidates found in PATH");
    reveal_strlit("No such file or directory");
    reveal_strlit("not found");
    assert("No viable candidates found in PATH"@ =~= seq![
        'N', 'o', ' ', 'v', 'i', 'a', 'b', 'l', 'e', ' ', 'c', 'a', 'n', 'd', 'i', 'd', 'a', 't', 'e', 's', ' ',
        'f', 'o', 'u', 'n', 'd', ' ', 'i', 'n', ' ', 'P', 'A', 'T', 'H'
    ]);
    assert("No such file or directory"@ =~= seq![
        'N', 'o', ' ', 's', 'u', 'c', 'h', ' ', 'f', 'i', 'l', 'e', ' ', 'o', 'r', ' ', 'd', 'i', 'r', 'e', 'c', 't', 'o', 'r', 'y'
    ]);
    assert("not found"@ =~= seq!['n', 'o', 't', ' ', 'f', 'o', 'u', 'n', 'd']);
}

/// The state of one run: the output not yet answered, the passphrase, when
/// the run started (milliseconds on the caller's clock), how long it may
/// take, and whether a confirmation prompt is expected (when encrypting).
pub struct PtySession {
    buffer: String,
    passphrase: String,
    start_ms: u64,
    timeout_secs: u64,
    confirm: bool,
}

impl PtySession {
    pub closed spec fn spec_buffer(&self) -> Seq<char> {
        self.buffer@
    }

    pub closed spec fn spec_passphrase(&self) -> Seq<char> {
        self.passphrase@
    }

    pub closed spec fn spec_start(&self) -> u64 {
        self.start_ms
    }

    pub closed spec fn spec_timeout(&self) -> u64 {
        self.timeout_secs
    }

    pub closed spec fn spec_confirm(&self) -> bool {
        self.confirm
    }

    /// The run has taken longer than its timeout at `now_ms`.
    pub open spec fn timed_out(&self, now_ms: u64) -> bool {
        now_ms > self.spec_start() && now_ms - self.spec_start() > self.spec_timeout() * 1000
    }

    /// A run started at `start_ms`, with nothing read yet.
    pub fn new(passphrase: &str, start_ms: u64, timeout_secs: u64, confirm: bool) -> (s: Self)
        ensures
            s.spec_buffer() == Seq::<char>::empty(),
            s.spec_passphrase() == passphrase@,
            s.spec_start() == start_ms,
            s.spec_timeout() == timeout_secs,
            s.spec_confirm() == confirm,
    {
        PtySession { buffer: String::new(), passphrase: owned(passphrase), start_ms, timeout_secs, confirm }
    }

    /// The output not yet answered.
    pub fn buffer(&self) -> (r: &str)
        ensures
            r@ == self.spec_buffer(),
    {
        self.buffer.as_str()
    }
}

/// What to do after reading `ev` at `now_ms`: past the timeout, fail with
/// the timeout error; at the end of output, finish; with nothing to read,
/// wait; on a read error, fail with it; on output, type the passphrase at
/// each prompt (see `on_output`) and wait.  Only output changes the session,
/// and only its buffer.
pub fn pty_step(s: &mut PtySession, ev: PtyEvent, now_ms: u64) -> (a: Vec<PtyAction>)
    ensures
        final(s).spec_passphrase() == old(s).spec_passphrase(),
        final(s).spec_start() == old(s).spec_start(),
        final(s).spec_timeout() == old(s).spec_timeout(),
        final(s).spec_confirm() == old(s).spec_confirm(),
        old(s).timed_out(now_ms) ==> a@.len() == 1 && (a@[0] matches PtyAction::Fail(e) && timeout_error(
            e,
            old(s).spec_timeout(),
        )) && final(s).spec_buffer() == old(s).spec_buffer(),
        !old(s).timed_out(now_ms) ==> match ev {
            PtyEvent::Eof => a@.len() == 1 && a@[0] is Finish && final(s).spec_buffer() == old(s).spec_buffer(),
            PtyEvent::WouldBlock => a@.len() == 1 && a@[0] is Wait && final(s).spec_buffer() == old(
                s,
            ).spec_buffer(),
            PtyEvent::ReadError(m) => a@.len() == 1 && (a@[0] matches PtyAction::Fail(e) && read_error(e, m@))
                && final(s).spec_buffer() == old(s).spec_buffer(),
            PtyEvent::Output(t) => {
                let (w, b) = on_output(
                    old(s).spec_buffer(),
                    t@,
                    old(s).spec_passphrase(),
                    old(s).spec_confirm(),
                );
                &&& a@.len() == w.len() + 1
                &&& forall|i: int| 0 <= i < w.len() ==> (#[trigger] a@[i] matches PtyAction::Write(x) && x@ == w[i])
                &&& a@[w.len() as int] is Wait
                &&& final(s).spec_buffer() == b
            },
        },
{
    let mut actions: Vec<PtyAction> = Vec::new();
    if now_ms > s.start_ms && (now_ms - s.start_ms) as u128 > (s.timeout_secs as u128) * 1000 {
        let mut m = owned("PTY automation timed out after ");
        m.append(u64_to_string(s.timeout_secs).as_str());
        m.append("s");
        actions.push(
            PtyAction::Fail(
                AgeError::ProcessExecutionFailed { command: owned("pty_automation_timeout"), exit_code: None, stderr: m },
            ),
        );
        return actions;
    }
    match ev {
        PtyEvent::Eof => {
            actions.push(PtyAction::Finish);
        },
        PtyEvent::WouldBlock => {
            actions.push(PtyAction::Wait);
        },
        PtyEvent::ReadError(m) => {
            let mut d = owned("PTY read error: ");
            d.append(m.as_str());
            actions.push(
                PtyAction::Fail(AgeError::ProcessExecutionFailed { command: owned("pty_read"), exit_code: None, stderr: d }),
            );
        },
        PtyEvent::Output(t) => {
            let ghost b0 = s.buffer@;
            let ghost pass = s.passphrase@;
            let ghost (w, b) = on_output(b0, t@, pass, s.confirm);
            s.buffer.append(t.as_str());
            let ghost line = pass + "\n"@;
            if contains(s.buffer.as_str(), "Enter passphrase") || contains(s.buffer.as_str(), "passphrase:") {
                let mut x = s.passphrase.clone();
                x.append("\n");
                actions.push(PtyAction::Write(x));
                s.buffer = String::new();
            }
            if s.confirm && (contains(s.buffer.as_str(), "Confirm passphrase") || contains(s.buffer.as_str(), "confirm:")) {
                let mut x = s.passphrase.clone();
                x.append("\n");
                actions.push(PtyAction::Write(x));
                s.buffer = String::new();
            }
            proof {
                assert(s.buffer@ == b);
                assert(actions@.len() == w.len());
                assert forall|i: int| 0 <= i < w.len() implies (#[trigger] actions@[i] matches PtyAction::Write(x) && x@ == w[i]) by {
                    assert(w[i] == line);
                }
            }
            actions.push(PtyAction::Wait);
            proof {
                assert forall|i: int| 0 <= i < w.len() implies (#[trigger] actions@[i] matches PtyAction::Write(x) && x@ == w[i]) by {
                    assert(w[i] == line);
                }
            }
        },
    }
    actions
}

/// Whether a failure to start `age` means that it is not installed: its
/// message names no viable candidate in the path, a missing file or
/// something not found.
pub open spec fn means_missing(msg: Seq<char>) -> bool {
    ||| contains_sub(msg, "No viable candidates found in PATH"@)
    ||| contains_sub(msg, "No such file or directory"@)
    ||| contains_sub(msg, "not found"@)
}

/// The error for a failure to start `age` with message `msg`: `age` missing,
/// or else a failure to spawn it.
pub fn pty_spawn_error(msg: &str) -> (e: AgeError)
    ensures
        means_missing(msg@) ==> (e matches AgeError::AgeBinaryNotFound(d) && d@ == "age command not found: "@
            + msg@),
        !means_missing(msg@) ==> (e matches AgeError::ProcessExecutionFailed { command, exit_code, stderr }
            && command@ == "age"@ && exit_code is None && stderr@ == "Failed to spawn age: "@ + msg@),
{
    if contains(msg, "No viable candidates found in PATH") || contains(msg, "No such file or directory") || contains(
        msg,
        "not found",
    ) {
        let mut d = owned("age command not found: ");
        d.append(msg);
        AgeError::AgeBinaryNotFound(d)
    } else {
        let mut d = owned("Failed to spawn age: ");
        d.append(msg);
        AgeError::ProcessExecutionFailed { command: owned("age"), exit_code: None, stderr: d }
    }
}

/// How a finished run ends: the interaction's own failure first; then
/// success when `age` exited successfully and the output file exists;
/// otherwise an encryption (or, with `encrypting` false, decryption)
/// failure naming the input, the output and the exit status `status`.
pub fn pty_outcome(
    encrypting: bool,
    input: &str,
    output: &str,
    interaction: AgeResult<()>,
    exit_ok: bool,
    output_exists: bool,
    status: &str,
) -> (r: AgeResult<()>)
    ensures
        interaction is Err ==> r == interaction,
        interaction is Ok ==> (r is Ok <==> exit_ok && output_exists),
        interaction is Ok && !(exit_ok && output_exists) ==> if encrypting {
            r matches Err(AgeError::EncryptionFailed { input: i, output: o, reason }) && i@ == input@ && o@
                == output@ && reason@ == "Age encryption failed with exit status: "@ + status@
        } else {
            r matches Err(AgeError::DecryptionFailed { input: i, output: o, reason }) && i@ == input@ && o@
                == output@ && reason@ == "Age decryption failed with exit status: "@ + status@
        },
{
    match interaction {
        Err(e) => {
            return Err(e);
        },
        Ok(()) => {},
    }
    if exit_ok && output_exists {
        return Ok(());
    }
    if encrypting {
        let mut reason = owned("Age encryption failed with exit status: ");
        reason.append(status);
        Err(AgeError::EncryptionFailed { input: owned(input), output: owned(output), reason })
    } else {
        let mut reason = owned("Age decryption failed with exit status: ");
        reason.append(status);
        Err(AgeError::DecryptionFailed { input: owned(input), output: owned(output), reason })
    }
}

/// The arguments of `age` to encrypt `input` into `output` with a
/// passphrase: `-p`, `-a` for ASCII armour, `-o`, the output, the input.
pub fn pty_encrypt_args(input: &str, output: &str, format: OutputFormat) -> (r: Vec<String>)
    ensures
        crate::text::views(r@) == seq!["-p"@] + (if format == OutputFormat::AsciiArmor {
            seq!["-a"@]
        } else {
            Seq::<Seq<char>>::empty()
        }) + seq!["-o"@, output@, input@],
{
    let mut r: Vec<String> = Vec::new();
    r.push(owned("-p"));
    if let Some(flag) = format.age_flag() {
        r.push(owned(flag));
    }
    r.push(owned("-o"));
    r.push(owned(output));
    r.push(owned(input));
    proof {
        let v = crate::text::views(r@);
        if format == OutputFormat::AsciiArmor {
            assert(v =~= seq!["-p"@] + seq!["-a"@] + seq!["-o"@, output@, input@]);
        } else {
            assert(v =~= seq!["-p"@] + Seq::<Seq<char>>::empty() + seq!["-o"@, output@, input@]);
        }
    }
    r
}

/// The arguments of `age` to decrypt `input` into `output`: `-d`, `-o`, the
/// output, the input.
pub fn pty_decrypt_args(input: &str, output: &str) -> (r: Vec<String>)
    ensures
        crate::text::views(r@) == seq!["-d"@, "-o"@, output@, input@],
{
    let mut r: Vec<String> = Vec::new();
    r.push(owned("-d"));
    r.push(owned("-o"));
    r.push(owned(output));
    r.push(owned(input));
    assert(crate::text::views(r@) =~= seq!["-d"@, "-o"@, output@, input@]);
    r
}

} // verus!
