//! Driving `age`'s passphrase prompt through `script` or `expect`: the
//! commands and scripts, the methods available, and the error when every
//! method failed.  Running the commands is the caller's.
use vstd::prelude::*;
use crate::config::OutputFormat;
use crate::error::{AgeError, AgeResult};
use crate::text::{chars_of, join, join_spec, owned, push_char, views};

verus! {

/// The words of an `age` passphrase encryption of `input` into `output`.
pub open spec fn encrypt_words(input: Seq<char>, output: Seq<char>, format: OutputFormat) -> Seq<Seq<char>> {
    (if format == OutputFormat::AsciiArmor {
        seq!["age"@, "-p"@, "-a"@]
    } else {
        seq!["age"@, "-p"@]
    }) + seq!["-o"@, output, input]
}

/// The `age` command line of a passphrase encryption.
pub open spec fn encrypt_command_line(input: Seq<char>, output: Seq<char>, format: OutputFormat) -> Seq<char> {
    join_spec(encrypt_words(input, output, format), " "@)
}

/// `s` with each double quote escaped by a backslash.
pub open spec fn escape_quotes(s: Seq<char>) -> Seq<char>
    decreases s.len(),
{
    if s.len() == 0 {
        Seq::empty()
    } else if s.last() == '"' {
        escape_quotes(s.drop_last()) + seq!['\\', '"']
    } else {
        escape_quotes(s.drop_last()).push(s.last())
    }
}

/// Law: escaping works character by character: a double quote becomes a
/// backslash and the quote, any other character stays, and the escape of a
/// concatenation is the concatenation of the escapes.
pub proof fn lemma_escape_by_character(a: Seq<char>, b: Seq<char>, c: char)
    ensures
        escape_quotes(a + b) == escape_quotes(a) + escape_quotes(b),
        escape_quotes(seq![c]) == (if c == '"' { seq!['\\', c] } else { seq![c] }),
    decreases b.len(),
{
    assert(seq![c].drop_last() =~= Seq::<char>::empty());
    assert(escape_quotes(Seq::<char>::empty()) =~= Seq::<char>::empty());
    assert(escape_quotes(seq![c]) =~= (if c == '"' { seq!['\\', c] } else { seq![c] }));
    if b.len() == 0 {
        assert(a + b =~= a);
        assert(escape_quotes(b) =~= Seq::<char>::empty());
        assert(escape_quotes(a) + escape_quotes(b) =~= escape_quotes(a));
    } else {
        lemma_escape_by_character(a, b.drop_last(), c);
        assert((a + b).drop_last() =~= a + b.drop_last());
        assert((a + b).last() == b.last());
        if b.last() == '"' {
            assert(escape_quotes(a) + escape_quotes(b.drop_last()) + seq!['\\', '"'] =~= escape_quotes(a) + (
            escape_quotes(b.drop_last()) + seq!['\\', '"']));
        } else {
            assert((escape_quotes(a) + escape_quotes(b.drop_last())).push(b.last()) =~= escape_quotes(a) + escape_quotes(
                b.drop_last(),
            ).push(b.last()));
        }
    }
}

/// Law: a passphrase encryption runs `age -p`, with `-a` for armored
/// output, then `-o`, the output and the input.
pub proof fn lemma_encrypt_words(input: Seq<char>, output: Seq<char>, format: OutputFormat)
    ensures
        format == OutputFormat::AsciiArmor ==> encrypt_words(input, output, format) == seq![
            seq!['a', 'g', 'e'],
            seq!['-', 'p'],
            seq!['-', 'a'],
            seq!['-', 'o'],
            output,
            input,
        ],
        format != OutputFormat::AsciiArmor ==> encrypt_words(input, output, format) == seq![
            seq!['a', 'g', 'e'],
            seq!['-', 'p'],
            seq!['-', 'o'],
            output,
            input,
        ],
{
    reveal_strlit("age");
    reveal_strlit("-p");
    reveal_strlit("-a");
    reveal_strlit("-o");
    assert("age"@ =~= seq!['a', 'g', 'e']);
    assert("-p"@ =~= seq!['-', 'p']);
    assert("-a"@ =~= seq!['-', 'a']);
    assert("-o"@ =~= seq!['-', 'o']);
    assert(encrypt_words(input, output, format) =~= (if format == OutputFormat::AsciiArmor {
        seq![seq!['a', 'g', 'e'], seq!['-', 'p'], seq!['-', 'a'], seq!['-', 'o'], output, input]
    } else {
        seq![seq!['a', 'g', 'e'], seq!['-', 'p'], seq!['-', 'o'], output, input]
    }));
}

/// Escapes the double quotes of `s`.
pub fn escape_double_quotes(s: &str) -> (r: String)
    ensures
        r@ == escape_quotes(s@),
{
    let v = chars_of(s);
    let mut r = String::new();
    let mut i: usize = 0;
    while i < v.len()
        invariant
            i <= v.len(),
            v@ == s@,
            r@ == escape_quotes(v@.take(i as int)),
        decreases v.len() - i,
    {
        proof {
            assert(v@.take(i + 1).drop_last() =~= v@.take(i as int));
            assert(v@.take(i + 1).last() == v@[i as int]);
        }
        if v[i] == '"' {
            push_char(&mut r, '\\');
            push_char(&mut r, '"');
            assert(r@ =~= escape_quotes(v@.take(i + 1)));
        } else {
            push_char(&mut r, v[i]);
        }
        i = i + 1;
    }
    assert(v@.take(v.len() as int) =~= v@);
    r
}

/// The words of the encryption command.
fn encrypt_command(input: &str, output: &str, format: OutputFormat) -> (r: String)
    ensures
        r@ == encrypt_command_line(input@, output@, format),
{
    let mut words: Vec<String> = Vec::new();
    words.push(owned("age"));
    words.push(owned("-p"));
    if format == OutputFormat::AsciiArmor {
        words.push(owned("-a"));
    }
    words.push(owned("-o"));
    words.push(owned(output));
    words.push(owned(input));
    assert(views(words@) =~= encrypt_words(input@, output@, format));
    join(&words, " ")
}

/// The shell command that runs a passphrase encryption under `script`,
/// feeding the passphrase and its confirmation.
pub fn script_encrypt_command(input: &str, output: &str, passphrase: &str, format: OutputFormat) -> (r: String)
    ensures
        r@ == "script -q -c \""@ + encrypt_command_line(input@, output@, format) + " << 'EOF'\n"@ + passphrase@
            + "\n"@ + passphrase@ + "\nEOF\" /dev/null"@,
{
    let mut s = owned("script -q -c \"");
    s.append(encrypt_command(input, output, format).as_str());
    s.append(" << 'EOF'\n");
    s.append(passphrase);
    s.append("\n");
    s.append(passphrase);
    s.append("\nEOF\" /dev/null");
    s
}

/// The shell command that runs a decryption under `script`, feeding the
/// passphrase.
pub fn script_decrypt_command(input: &str, output: &str, passphrase: &str) -> (r: String)
    ensures
        r@ == "script -q -c \"age -d -o "@ + output@ + " "@ + input@ + " << 'EOF'\n"@ + passphrase@
            + "\nEOF\" /dev/null"@,
{
    let mut s = owned("script -q -c \"age -d -o ");
    s.append(output);
    s.append(" ");
    s.append(input);
    s.append(" << 'EOF'\n");
    s.append(passphrase);
    s.append("\nEOF\" /dev/null");
    s
}

/// The `expect` script of a passphrase encryption.
pub open spec fn expect_encrypt_text(command: Seq<char>, passphrase: Seq<char>) -> Seq<char> {
    "#!/usr/bin/expect -f\nset timeout 30\nlog_user 0\n\nspawn "@ + command
        + "\n\nexpect {\n    \"Enter passphrase*\" {\n        send \""@ + escape_quotes(passphrase)
        + "\\r\"\n        exp_continue\n    }\n    \"Confirm passphrase*\" {\n        send \""@
        + escape_quotes(passphrase)
        + "\\r\"\n        exp_continue\n    }\n    eof {\n        catch wait result\n        set exit_status [lindex $result 3]\n        exit $exit_status\n    }\n    timeout {\n        puts stderr \"ERROR: Timeout waiting for age encryption\"\n        exit 1\n    }\n}\n"@
}

/// The `expect` script that answers `age`'s passphrase prompts when
/// encrypting.
pub fn expect_encrypt_script(input: &str, output: &str, passphrase: &str, format: OutputFormat) -> (r: String)
    ensures
        r@ == expect_encrypt_text(encrypt_command_line(input@, output@, format), passphrase@),
{
    let escaped = escape_double_quotes(passphrase);
    let mut s = owned("#!/usr/bin/expect -f\nset timeout 30\nlog_user 0\n\nspawn ");
    s.append(encrypt_command(input, output, format).as_str());
    s.append("\n\nexpect {\n    \"Enter passphrase*\" {\n        send \"");
    s.append(escaped.as_str());
    s.append("\\r\"\n        exp_continue\n    }\n    \"Confirm passphrase*\" {\n        send \"");
    s.append(escaped.as_str());
    s.append(
        "\\r\"\n        exp_continue\n    }\n    eof {\n        catch wait result\n        set exit_status [lindex $result 3]\n        exit $exit_status\n    }\n    timeout {\n        puts stderr \"ERROR: Timeout waiting for age encryption\"\n        exit 1\n    }\n}\n",
    );
    s
}

/// The `expect` script of a decryption.
pub open spec fn expect_decrypt_text(input: Seq<char>, output: Seq<char>, passphrase: Seq<char>) -> Seq<char> {
    "#!/usr/bin/expect -f\nset timeout 30\nlog_user 0\n\nspawn age -d -o "@ + output + " "@ + input
        + "\n\nexpect {\n    \"Enter passphrase*\" {\n        send \""@ + escape_quotes(passphrase)
        + "\\r\"\n        exp_continue\n    }\n    eof {\n        catch wait result\n        set exit_status [lindex $result 3]\n        exit $exit_status\n    }\n    timeout {\n        puts stderr \"ERROR: Timeout waiting for age decryption\"\n        exit 1\n    }\n}\n"@
}

/// The `expect` script that answers `age`'s passphrase prompt when
/// decrypting.
pub fn expect_decrypt_script(input: &str, output: &str, passphrase: &str) -> (r: String)
    ensures
        r@ == expect_decrypt_text(input@, output@, passphrase@),
{
    let escaped = escape_double_quotes(passphrase);
    let mut s = owned("#!/usr/bin/expect -f\nset timeout 30\nlog_user 0\n\nspawn age -d -o ");
    s.append(output);
    s.append(" ");
    s.append(input);
    s.append("\n\nexpect {\n    \"Enter passphrase*\" {\n        send \"");
    s.append(escaped.as_str());
    s.append(
        "\\r\"\n        exp_continue\n    }\n    eof {\n        catch wait result\n        set exit_status [lindex $result 3]\n        exit $exit_status\n    }\n    timeout {\n        puts stderr \"ERROR: Timeout waiting for age decryption\"\n        exit 1\n    }\n}\n",
    );
    s
}

/// The error when both `script` and `expect` failed, with their messages.
pub fn all_methods_failed(script_error: &str, expect_error: &str) -> (e: AgeError)
    ensures
        e matches AgeError::AllTtyMethodsFailed(v) && views(v@) == seq!["script: "@ + script_error@, "expect: "@
            + expect_error@],
{
    let mut a = owned("script: ");
    a.append(script_error);
    let mut b = owned("expect: ");
    b.append(expect_error);
    let mut v: Vec<String> = Vec::new();
    v.push(a);
    v.push(b);
    assert(views(v@) =~= seq!["script: "@ + script_error@, "expect: "@ + expect_error@]);
    AgeError::AllTtyMethodsFailed(v)
}

/// Whether a method is there: at least one of `script` and `expect`.
pub fn check_automation_methods(script_available: bool, expect_available: bool) -> (r: AgeResult<()>)
    ensures
        script_available || expect_available ==> r is Ok,
        !script_available && !expect_available ==> (r matches Err(AgeError::AllTtyMethodsFailed(v)) && views(v@)
            == seq!["script command not available"@, "expect command not available"@]),
{
    if !script_available && !expect_available {
        let mut v: Vec<String> = Vec::new();
        v.push(owned("script command not available"));
        v.push(owned("expect command not available"));
        assert(views(v@) =~= seq!["script command not available"@, "expect command not available"@]);
        return Err(AgeError::AllTtyMethodsFailed(v));
    }
    Ok(())
}

/// The methods available, `script` first.
pub fn available_methods(script_available: bool, expect_available: bool) -> (r: Vec<String>)
    ensures
        views(r@) == (if script_available { seq!["script"@] } else { Seq::<Seq<char>>::empty() }) + (
        if expect_available {
            seq!["expect"@]
        } else {
            Seq::<Seq<char>>::empty()
        }),
{
    let mut v: Vec<String> = Vec::new();
    if script_available {
        v.push(owned("script"));
    }
    if expect_available {
        let ghost before = views(v@);
        v.push(owned("expect"));
        assert(views(v@) =~= before.push("expect"@));
    }
    assert(views(v@) =~= (if script_available { seq!["script"@] } else { Seq::<Seq<char>>::empty() }) + (
    if expect_available {
        seq!["expect"@]
    } else {
        Seq::<Seq<char>>::empty()
    }));
    v
}

} // verus!
