//! What the command line decides: the recipients and identity given by
//! options, the output format, where a passphrase comes from, the progress
//! style of a run and what an in-place lock does with each path.  Reading
//! the options, the environment and the terminal is the caller's.
use vstd::prelude::*;
use crate::config::OutputFormat;
use crate::progress::styles::ProgressStyle;
use crate::requests::{Identity, Recipient};
use crate::text::{chars_of, owned, push_char, str_eq, string_from_chars, trim_chars, trim_spec, views};

verus! {

/// The pieces of `s` between commas, in order (one more than there are
/// commas).
pub open spec fn comma_pieces(s: Seq<char>) -> Seq<Seq<char>>
    decreases s.len(),
{
    if s.len() == 0 {
        seq![Seq::<char>::empty()]
    } else {
        let r = comma_pieces(s.drop_last());
        if s.last() == ',' {
            r.push(Seq::<char>::empty())
        } else {
            r.update(r.len() - 1, r.last().push(s.last()))
        }
    }
}

/// The pieces trimmed, empty ones dropped.
pub open spec fn nonempty_trimmed(ps: Seq<Seq<char>>) -> Seq<Seq<char>>
    decreases ps.len(),
{
    if ps.len() == 0 {
        Seq::empty()
    } else {
        let r = nonempty_trimmed(ps.drop_last());
        if trim_spec(ps.last()).len() == 0 {
            r
        } else {
            r.push(trim_spec(ps.last()))
        }
    }
}

/// A comma-separated list: its items trimmed, empty items dropped.
pub open spec fn list_items(s: Seq<char>) -> Seq<Seq<char>> {
    nonempty_trimmed(comma_pieces(s))
}

/// Lemma: the pieces of a sequence are never none.
proof fn lemma_pieces_nonempty(s: Seq<char>)
    ensures
        comma_pieces(s).len() >= 1,
    decreases s.len(),
{
    if s.len() > 0 {
        lemma_pieces_nonempty(s.drop_last());
    }
}

/// The items of a comma-separated list, trimmed, empty ones dropped.
pub fn split_list(value: &str) -> (r: Vec<String>)
    ensures
        views(r@) == list_items(value@),
{
    let chars = chars_of(value);
    let mut done: Vec<String> = Vec::new();
    let mut current: Vec<char> = Vec::new();
    let mut i: usize = 0;
    proof {
        assert(chars@.take(0) =~= Seq::<char>::empty());
    }
    while i < chars.len()
        invariant
            i <= chars.len(),
            chars@ == value@,
            comma_pieces(chars@.take(i as int)) == comma_pieces(chars@.take(i as int)).drop_last().push(current@),
            views(done@) == nonempty_trimmed(comma_pieces(chars@.take(i as int)).drop_last()),
        decreases chars.len() - i,
    {
        let ghost prefix = chars@.take(i as int);
        proof {
            lemma_pieces_nonempty(prefix);
            assert(chars@.take(i + 1).drop_last() =~= prefix);
            assert(chars@.take(i + 1).last() == chars@[i as int]);
        }
        let c = chars[i];
        if c == ',' {
            let t = trim_chars(&current);
            let ghost before = done@;
            if t.len() > 0 {
                done.push(string_from_chars(&t, 0, t.len()));
                assert(t@.subrange(0, t@.len() as int) =~= t@);
                assert(views(done@) =~= views(before).push(t@));
            }
            proof {
                let pieces = comma_pieces(prefix);
                assert(comma_pieces(chars@.take(i + 1)) == pieces.push(Seq::<char>::empty()));
                assert(comma_pieces(chars@.take(i + 1)).drop_last() =~= pieces);
                assert(pieces.drop_last().push(current@) =~= pieces);
            }
            current = Vec::new();
            assert(comma_pieces(chars@.take(i + 1)) =~= comma_pieces(chars@.take(i + 1)).drop_last().push(
                current@,
            ));
        } else {
            let ghost old_current = current@;
            current.push(c);
            proof {
                let pieces = comma_pieces(prefix);
                assert(comma_pieces(chars@.take(i + 1)) == pieces.update(pieces.len() - 1, pieces.last().push(c)));
                assert(comma_pieces(chars@.take(i + 1)).drop_last() =~= pieces.drop_last());
                assert(comma_pieces(chars@.take(i + 1)) =~= pieces.drop_last().push(current@));
            }
        }
        i = i + 1;
    }
    proof {
        assert(chars@.take(chars.len() as int) =~= chars@);
    }
    let t = trim_chars(&current);
    let ghost before = done@;
    if t.len() > 0 {
        done.push(string_from_chars(&t, 0, t.len()));
        assert(t@.subrange(0, t@.len() as int) =~= t@);
        assert(views(done@) =~= views(before).push(t@));
    }
    proof {
        let pieces = comma_pieces(value@);
        lemma_pieces_nonempty(value@);
        assert(pieces.drop_last().push(pieces.last()) =~= pieces);
    }
    done
}

/// The recipients named by the lock options (each given as its text, empty
/// when absent): the comma-separated keys of `single` each as a key, the
/// keys of `multiple` as one group (a single key alone), the recipients file
/// `file`, and the SSH keys of `ssh` as one group.
pub fn lock_recipients(single: &str, multiple: &str, file: &str, ssh: &str) -> (r: Vec<Recipient>)
    ensures
        ({
            let s = list_items(single@);
            let m = list_items(multiple@);
            let k = list_items(ssh@);
            &&& r.len() == s.len() + (if m.len() > 0 { 1int } else { 0int }) + (if file@.len() > 0 {
                1int
            } else {
                0int
            }) + (if k.len() > 0 { 1int } else { 0int })
            &&& forall|i: int| 0 <= i < s.len() ==> ((#[trigger] r@[i]) matches Recipient::PublicKey(p) && p@ == s[i])
            &&& m.len() == 1 ==> (r@[s.len() as int] matches Recipient::PublicKey(p) && p@ == m[0])
            &&& m.len() > 1 ==> (r@[s.len() as int] matches Recipient::MultipleKeys(v) && views(v@) == m)
            &&& file@.len() > 0 ==> (r@[s.len() + (if m.len() > 0 { 1int } else { 0int })] matches Recipient::RecipientsFile(p)
                && p@ == file@)
            &&& k.len() > 0 ==> (r@[r.len() - 1] matches Recipient::SshRecipients(v) && views(v@) == k)
        }),
{
    let mut r: Vec<Recipient> = Vec::new();
    let keys = split_list(single);
    let mut i: usize = 0;
    while i < keys.len()
        invariant
            i <= keys.len(),
            r.len() == i,
            views(keys@) == list_items(single@),
            forall|j: int| 0 <= j < i ==> ((#[trigger] r@[j]) matches Recipient::PublicKey(p) && p@ == keys@[j]@),
        decreases keys.len() - i,
    {
        r.push(Recipient::PublicKey(keys[i].clone()));
        i = i + 1;
    }
    assert(forall|j: int| 0 <= j < keys.len() ==> views(keys@)[j] == keys@[j]@);
    let group = split_list(multiple);
    if group.len() == 1 {
        r.push(Recipient::PublicKey(group[0].clone()));
    } else if group.len() > 1 {
        r.push(Recipient::MultipleKeys(group));
    }
    if file.unicode_len() > 0 {
        r.push(Recipient::RecipientsFile(owned(file)));
    }
    let ssh_keys = split_list(ssh);
    if ssh_keys.len() > 0 {
        r.push(Recipient::SshRecipients(ssh_keys));
    }
    r
}

/// The identity the unlock options give: the identity file, else the SSH
/// key, else none (each option given as its text, empty when absent).
pub fn unlock_identity(identity_path: &str, ssh_identity_path: &str) -> (r: Option<Identity>)
    ensures
        identity_path@.len() > 0 ==> (r matches Some(Identity::IdentityFile(p)) && p@ == identity_path@),
        identity_path@.len() == 0 && ssh_identity_path@.len() > 0 ==> (r matches Some(Identity::SshKey(p))
            && p@ == ssh_identity_path@),
        identity_path@.len() == 0 && ssh_identity_path@.len() == 0 ==> r is None,
{
    if identity_path.unicode_len() > 0 {
        return Some(Identity::IdentityFile(owned(identity_path)));
    }
    if ssh_identity_path.unicode_len() > 0 {
        return Some(Identity::SshKey(owned(ssh_identity_path)));
    }
    None
}

/// The output format the format option names: ASCII armor for `ascii`,
/// binary otherwise.
pub fn format_option(value: &str) -> (f: OutputFormat)
    ensures
        f == (if value@ == "ascii"@ { OutputFormat::AsciiArmor } else { OutputFormat::Binary }),
{
    if str_eq(value, "ascii") {
        OutputFormat::AsciiArmor
    } else {
        OutputFormat::Binary
    }
}

/// Where the passphrase of a lock or unlock comes from.
#[derive(PartialEq, Eq, Structural, Clone, Copy, Debug)]
pub enum PassphraseSource {
    /// None is needed: the file is encrypted to recipients.
    NotNeeded,
    /// A passphrase was seen on the command line and not allowed.
    RefuseInsecure,
    /// A line of standard input.
    Stdin,
    /// The passphrase environment variable.
    Environment,
    /// The passphrase given on the command line, allowed.
    CommandLine,
    /// A prompt on the terminal.
    Prompt,
}

/// Where a lock's passphrase comes from: none with recipients; a passphrase
/// seen on the command line is refused unless the operator is sure; then
/// standard input when asked, the environment variable when set, the command
/// line, and lastly a prompt.
pub fn lock_passphrase_source(
    using_recipients: bool,
    insecure_detected: bool,
    i_am_sure: bool,
    stdin_requested: bool,
    env_set: bool,
) -> (s: PassphraseSource)
    ensures
        s == (if using_recipients {
            PassphraseSource::NotNeeded
        } else if insecure_detected && !i_am_sure {
            PassphraseSource::RefuseInsecure
        } else if stdin_requested {
            PassphraseSource::Stdin
        } else if env_set {
            PassphraseSource::Environment
        } else if insecure_detected {
            PassphraseSource::CommandLine
        } else {
            PassphraseSource::Prompt
        }),
{
    if using_recipients {
        PassphraseSource::NotNeeded
    } else if insecure_detected && !i_am_sure {
        PassphraseSource::RefuseInsecure
    } else if stdin_requested {
        PassphraseSource::Stdin
    } else if env_set {
        PassphraseSource::Environment
    } else if insecure_detected {
        PassphraseSource::CommandLine
    } else {
        PassphraseSource::Prompt
    }
}

/// Where an unlock's passphrase comes from when no identity option is given:
/// standard input when asked, the environment variable when set, otherwise
/// a prompt.
pub fn unlock_passphrase_source(stdin_requested: bool, env_set: bool) -> (s: PassphraseSource)
    ensures
        s == (if stdin_requested {
            PassphraseSource::Stdin
        } else if env_set {
            PassphraseSource::Environment
        } else {
            PassphraseSource::Prompt
        }),
{
    if stdin_requested {
        PassphraseSource::Stdin
    } else if env_set {
        PassphraseSource::Environment
    } else {
        PassphraseSource::Prompt
    }
}

/// The progress style of a run over `count` paths: a counter for several, a
/// spinner for one.
pub fn run_progress_style(count: usize) -> (s: ProgressStyle)
    ensures
        count > 1 ==> s == (ProgressStyle::Counter { total: count as u64 }),
        count <= 1 ==> s == ProgressStyle::Spinner,
{
    if count > 1 {
        ProgressStyle::Counter { total: count as u64 }
    } else {
        ProgressStyle::Spinner
    }
}

/// What an in-place lock does with a path.
#[derive(PartialEq, Eq, Structural, Clone, Copy, Debug)]
pub enum InPlaceTarget {
    /// Lock the directory's files through the ordinary lock.
    Directory,
    /// Replace the file in place.
    File,
    /// Neither: refused.
    Missing,
}

/// The check of a lock's path list: refused when empty, with the message of
/// an in-place lock or of a plain one.
pub fn lock_paths_check(path_count: usize, in_place: bool) -> (r: Result<(), String>)
    ensures
        path_count > 0 ==> r is Ok,
        path_count == 0 && in_place ==> (r matches Err(m) && m@ == "No paths provided for in-place lock operation"@),
        path_count == 0 && !in_place ==> (r matches Err(m) && m@ == "No paths provided for lock operation"@),
{
    if path_count > 0 {
        Ok(())
    } else if in_place {
        Err(owned("No paths provided for in-place lock operation"))
    } else {
        Err(owned("No paths provided for lock operation"))
    }
}

/// The warning a lock with a passphrase of `passphrase_len` bytes gives:
/// one below eight bytes.
pub fn short_passphrase_warning(passphrase_len: usize) -> (r: Option<String>)
    ensures
        passphrase_len < 8 ==> (r matches Some(m) && m@
            == "Warning: Passphrase is less than 8 characters. Consider using a stronger passphrase."@),
        passphrase_len >= 8 ==> r is None,
{
    if passphrase_len < 8 {
        Some(owned("Warning: Passphrase is less than 8 characters. Consider using a stronger passphrase."))
    } else {
        None
    }
}

/// What an in-place lock does with a path that is (or is not) a directory
/// or a file: a directory only when recursive, a file in place, anything
/// else refused.
pub fn in_place_target(recursive: bool, is_dir: bool, is_file: bool) -> (t: InPlaceTarget)
    ensures
        t == (if recursive && is_dir {
            InPlaceTarget::Directory
        } else if is_file {
            InPlaceTarget::File
        } else {
            InPlaceTarget::Missing
        }),
{
    if recursive && is_dir {
        InPlaceTarget::Directory
    } else if is_file {
        InPlaceTarget::File
    } else {
        InPlaceTarget::Missing
    }
}

/// The `--age-*` options of the proxy command.
#[derive(Debug, Clone)]
pub struct ProxyOptions {
    /// `--age-p` or `--age-passphrase`.
    pub passphrase: bool,
    /// `--age-d` or `--age-decrypt`.
    pub decrypt: bool,
    /// `--age-a` or `--age-armor`.
    pub armor: bool,
    /// `--age-o`, empty when absent.
    pub o: String,
    /// `--age-output`, empty when absent.
    pub output: String,
    /// `--age-i`, empty when absent.
    pub i: String,
    /// `--age-identity`, empty when absent.
    pub identity: String,
    /// `--age-r`, empty when absent.
    pub r: String,
    /// `--age-recipient`, empty when absent.
    pub recipient: String,
}

/// `flag value` when `value` is given, nothing otherwise.
pub open spec fn valued(flag: Seq<char>, value: Seq<char>) -> Seq<Seq<char>> {
    if value.len() == 0 {
        Seq::empty()
    } else {
        seq![flag, value]
    }
}

/// The `age` arguments of the proxy's options: `-p`, `-d`, `-a` as asked,
/// then each option given with its value.
pub open spec fn proxy_flag_args(o: ProxyOptions) -> Seq<Seq<char>> {
    (if o.passphrase { seq!["-p"@] } else { Seq::empty() }) + (if o.decrypt {
        seq!["-d"@]
    } else {
        Seq::empty()
    }) + (if o.armor { seq!["-a"@] } else { Seq::empty() }) + valued("-o"@, o.o@) + valued(
        "--output"@,
        o.output@,
    ) + valued("-i"@, o.i@) + valued("--identity"@, o.identity@) + valued("-r"@, o.r@) + valued(
        "--recipient"@,
        o.recipient@,
    )
}

/// The proxy passes a remaining argument on when it is an existing path,
/// not an option and not the program itself.
pub open spec fn proxy_passes(arg: Seq<char>, exists: bool) -> bool {
    !crate::text::is_prefix("--"@, arg) && !crate::text::contains_sub(arg, "target/debug/cage"@) && exists
}

/// The remaining arguments passed on, in order.
pub open spec fn proxy_files(args: Seq<Seq<char>>, exists: Seq<bool>) -> Seq<Seq<char>>
    decreases args.len(),
{
    if args.len() == 0 {
        Seq::empty()
    } else if proxy_passes(args.last(), exists[args.len() - 1]) {
        proxy_files(args.drop_last(), exists.take(args.len() - 1)).push(args.last())
    } else {
        proxy_files(args.drop_last(), exists.take(args.len() - 1))
    }
}

/// Appends `flag value` to `v` when `value` is given.
fn push_valued(v: &mut Vec<String>, flag: &str, value: &String)
    ensures
        views(final(v)@) == views(old(v)@) + valued(flag@, value@),
{
    let ghost before = views(v@);
    if !value.as_str().is_empty() {
        v.push(owned(flag));
        v.push(value.clone());
        assert(views(v@) =~= before + seq![flag@, value@]);
    } else {
        assert(views(v@) =~= before + Seq::<Seq<char>>::empty());
    }
}

/// The arguments the proxy runs `age` with: those of its options, then the
/// remaining arguments (`exists` telling which are existing paths) that are
/// passed on.
pub fn proxy_age_args(options: &ProxyOptions, remaining: &Vec<String>, exists: &Vec<bool>) -> (r: Vec<String>)
    requires
        remaining.len() == exists.len(),
    ensures
        views(r@) == proxy_flag_args(*options) + proxy_files(views(remaining@), exists@),
{
    let mut v: Vec<String> = Vec::new();
    proof {
        assert(views(v@) =~= Seq::<Seq<char>>::empty());
    }
    if options.passphrase {
        v.push(owned("-p"));
    }
    if options.decrypt {
        v.push(owned("-d"));
    }
    if options.armor {
        v.push(owned("-a"));
    }
    proof {
        assert(views(v@) =~= (if options.passphrase { seq!["-p"@] } else { Seq::<Seq<char>>::empty() })
            + (if options.decrypt { seq!["-d"@] } else { Seq::<Seq<char>>::empty() })
            + (if options.armor { seq!["-a"@] } else { Seq::<Seq<char>>::empty() }));
    }
    push_valued(&mut v, "-o", &options.o);
    push_valued(&mut v, "--output", &options.output);
    push_valued(&mut v, "-i", &options.i);
    push_valued(&mut v, "--identity", &options.identity);
    push_valued(&mut v, "-r", &options.r);
    push_valued(&mut v, "--recipient", &options.recipient);
    let ghost head = views(v@);
    proof {
        assert(head =~= proxy_flag_args(*options));
    }
    let ghost rs = views(remaining@);
    let mut k: usize = 0;
    while k < remaining.len()
        invariant
            k <= remaining.len(),
            remaining.len() == exists.len(),
            rs == views(remaining@),
            views(v@) == head + proxy_files(rs.take(k as int), exists@.take(k as int)),
        decreases remaining.len() - k,
    {
        let a = remaining[k].as_str();
        let pass = !crate::text::starts_with(a, "--") && !crate::text::contains(a, "target/debug/cage") && exists[k];
        proof {
            let t = rs.take(k + 1);
            assert(t.drop_last() =~= rs.take(k as int));
            assert(exists@.take(k + 1).take(k as int) =~= exists@.take(k as int));
            assert(t.last() == a@);
            assert(exists@.take(k + 1)[k as int] == exists@[k as int]);
        }
        if pass {
            let ghost before = views(v@);
            v.push(remaining[k].clone());
            proof {
                assert(views(v@) =~= before.push(a@));
            }
        }
        k = k + 1;
    }
    proof {
        assert(rs.take(remaining.len() as int) =~= rs);
        assert(exists@.take(remaining.len() as int) =~= exists@);
    }
    v
}

/// Some argument asks for a passphrase or a decryption, which runs `age`
/// under a terminal that answers the passphrase prompt.
pub open spec fn proxy_needs_passphrase_spec(args: Seq<Seq<char>>) -> bool {
    exists|k: int|
        0 <= k < args.len() && (args[k] == "-p"@ || args[k] == "--passphrase"@ || args[k] == "-d"@
            || args[k] == "--decrypt"@)
}

/// Law: a proxied run needs a passphrase exactly when some argument is `-p`,
/// `--passphrase`, `-d` or `--decrypt`.
pub proof fn lemma_passphrase_flags(args: Seq<Seq<char>>)
    ensures
        proxy_needs_passphrase_spec(args) <==> exists|k: int|
            0 <= k < args.len() && (#[trigger] args[k] == seq!['-', 'p'] || args[k] == seq![
                '-',
                '-',
                'p',
                'a',
                's',
                's',
                'p',
                'h',
                'r',
                'a',
                's',
                'e',
            ] || args[k] == seq!['-', 'd'] || args[k] == seq!['-', '-', 'd', 'e', 'c', 'r', 'y', 'p', 't']),
{
    reveal_strlit("-p");
    reveal_strlit("--passphrase");
    reveal_strlit("-d");
    reveal_strlit("--decrypt");
    assert("-p"@ =~= seq!['-', 'p']);
    assert("--passphrase"@ =~= seq!['-', '-', 'p', 'a', 's', 's', 'p', 'h', 'r', 'a', 's', 'e']);
    assert("-d"@ =~= seq!['-', 'd']);
    assert("--decrypt"@ =~= seq!['-', '-', 'd', 'e', 'c', 'r', 'y', 'p', 't']);
}

/// Whether the proxied `age` run needs a passphrase: some argument is
/// `-p`, `--passphrase`, `-d` or `--decrypt`.
pub fn proxy_needs_passphrase(args: &Vec<String>) -> (r: bool)
    ensures
        r == proxy_needs_passphrase_spec(views(args@)),
{
    let mut k: usize = 0;
    while k < args.len()
        invariant
            k <= args.len(),
            forall|j: int|
                0 <= j < k ==> !(views(args@)[j] == "-p"@ || views(args@)[j] == "--passphrase"@
                    || views(args@)[j] == "-d"@ || views(args@)[j] == "--decrypt"@),
        decreases args.len() - k,
    {
        let a = args[k].as_str();
        if str_eq(a, "-p") || str_eq(a, "--passphrase") || str_eq(a, "-d") || str_eq(a, "--decrypt") {
            assert(views(args@)[k as int] == a@);
            return true;
        }
        assert(views(args@)[k as int] == a@);
        k = k + 1;
    }
    false
}

} // verus!
