//! Character-sequence helpers shared by the rest of the library: prefix, suffix
//! and substring tests, decimal rendering and parsing, whitespace trimming and
//! joining, all stated over the `Seq<char>` view of strings.
use vstd::prelude::*;

verus! {

// ---------------------------------------------------------------------------
// Specifications
// ---------------------------------------------------------------------------

/// `p` is a prefix of `s`.
pub open spec fn is_prefix(p: Seq<char>, s: Seq<char>) -> bool {
    p.len() <= s.len() && s.subrange(0, p.len() as int) == p
}

/// `p` is a suffix of `s`.
pub open spec fn is_suffix(p: Seq<char>, s: Seq<char>) -> bool {
    p.len() <= s.len() && s.subrange(s.len() - p.len(), s.len() as int) == p
}

/// `p` occurs in `s` starting at index `i`.
pub open spec fn occurs_at(s: Seq<char>, p: Seq<char>, i: int) -> bool {
    0 <= i && i + p.len() <= s.len() && s.subrange(i, i + p.len()) == p
}

/// `p` occurs somewhere in `s` (the empty sequence occurs in every sequence).
pub open spec fn contains_sub(s: Seq<char>, p: Seq<char>) -> bool {
    exists|i: int| occurs_at(s, p, i)
}

/// A one-character text occurs in `s` exactly when `s` holds the character.
pub proof fn lemma_contains_char(s: Seq<char>, c: char)
    ensures
        contains_sub(s, seq![c]) <==> s.contains(c),
{
    if s.contains(c) {
        let k = choose|k: int| 0 <= k < s.len() && s[k] == c;
        assert(s.subrange(k, k + 1) =~= seq![c]);
        assert(occurs_at(s, seq![c], k));
    }
    if contains_sub(s, seq![c]) {
        let k = choose|k: int| occurs_at(s, seq![c], k);
        assert(s.subrange(k, k + 1)[0] == s[k]);
    }
}

/// The decimal digits of `n`, most significant first, without leading zeros.
pub open spec fn dec_digits(n: nat) -> Seq<char>
    decreases n,
{
    if n < 10 {
        seq![digit_char(n)]
    } else {
        dec_digits(n / 10).push(digit_char(n % 10))
    }
}

/// The ASCII character of a decimal digit.
pub open spec fn digit_char(d: nat) -> char {
    ((d % 10) + 48) as char
}

/// `c` is an ASCII decimal digit.
pub open spec fn is_digit(c: char) -> bool {
    '0' <= c && c <= '9'
}

/// The value of an ASCII decimal digit.
pub open spec fn digit_value(c: char) -> nat {
    (c as int - 48) as nat
}

/// The value of a non-empty run of decimal digits.
pub open spec fn digits_value(s: Seq<char>) -> nat
    decreases s.len(),
{
    if s.len() == 0 {
        0
    } else {
        digits_value(s.drop_last()) * 10 + digit_value(s.last())
    }
}

/// All characters of `s` are decimal digits.
pub open spec fn all_digits(s: Seq<char>) -> bool {
    forall|i: int| 0 <= i < s.len() ==> is_digit(#[trigger] s[i])
}

/// The number that Rust's `str::parse` for an unsigned integer reads from `s`:
/// an optional `+` followed by at least one decimal digit and nothing else.
pub open spec fn parse_unsigned(s: Seq<char>) -> Option<nat> {
    let body = if s.len() > 0 && s[0] == '+' { s.drop_first() } else { s };
    if body.len() > 0 && all_digits(body) {
        Some(digits_value(body))
    } else {
        None
    }
}

/// `c` has the Unicode `White_Space` property (what `char::is_whitespace` tests).
pub open spec fn is_ws(c: char) -> bool {
    ||| ('\u{9}' <= c && c <= '\u{d}')
    ||| c == ' '
    ||| c == '\u{85}'
    ||| c == '\u{a0}'
    ||| c == '\u{1680}'
    ||| ('\u{2000}' <= c && c <= '\u{200a}')
    ||| c == '\u{2028}'
    ||| c == '\u{2029}'
    ||| c == '\u{202f}'
    ||| c == '\u{205f}'
    ||| c == '\u{3000}'
}

/// Number of leading whitespace characters of `s`.
pub open spec fn lead_ws(s: Seq<char>) -> nat
    decreases s.len(),
{
    if s.len() > 0 && is_ws(s[0]) {
        1 + lead_ws(s.drop_first())
    } else {
        0
    }
}

/// Number of trailing whitespace characters of `s`.
pub open spec fn trail_ws(s: Seq<char>) -> nat
    decreases s.len(),
{
    if s.len() > 0 && is_ws(s.last()) {
        1 + trail_ws(s.drop_last())
    } else {
        0
    }
}

/// `s` without leading and trailing whitespace (what `str::trim` returns).
pub open spec fn trim_spec(s: Seq<char>) -> Seq<char> {
    let a = lead_ws(s) as int;
    let rest = s.subrange(a, s.len() as int);
    rest.subrange(0, rest.len() - trail_ws(rest))
}

/// The elements of `parts` separated by `sep`.
pub open spec fn join_spec(parts: Seq<Seq<char>>, sep: Seq<char>) -> Seq<char>
    decreases parts.len(),
{
    if parts.len() == 0 {
        Seq::empty()
    } else if parts.len() == 1 {
        parts[0]
    } else {
        join_spec(parts.drop_last(), sep) + sep + parts.last()
    }
}

/// The view of an optional string.
pub open spec fn opt_view(o: Option<String>) -> Option<Seq<char>> {
    match o {
        Some(s) => Some(s@),
        None => None,
    }
}

/// The character sequences of a sequence of strings.
pub open spec fn views(v: Seq<String>) -> Seq<Seq<char>> {
    v.map_values(|s: String| s@)
}

// ---------------------------------------------------------------------------
// Lemmas
// ---------------------------------------------------------------------------

/// A one-character prefix is the first character.
pub proof fn lemma_prefix_one(c: char, s: Seq<char>)
    ensures
        is_prefix(seq![c], s) <==> (s.len() > 0 && s[0] == c),
{
    if s.len() > 0 && s[0] == c {
        assert(s.subrange(0, 1) =~= seq![c]);
    }
    if is_prefix(seq![c], s) {
        assert(s.subrange(0, 1)[0] == s[0]);
    }
}

/// Whitespace counts never exceed the length.
pub proof fn lemma_ws_bounds(s: Seq<char>)
    ensures
        lead_ws(s) <= s.len(),
        trail_ws(s) <= s.len(),
    decreases s.len(),
{
    if s.len() > 0 {
        lemma_ws_bounds(s.drop_first());
        lemma_ws_bounds(s.drop_last());
    }
}

/// Every character before `lead_ws(s)` is whitespace and the next one is not.
proof fn lemma_lead_ws_char(s: Seq<char>, i: int)
    requires
        0 <= i <= lead_ws(s),
    ensures
        i < lead_ws(s) ==> is_ws(s[i]),
        i == lead_ws(s) && i < s.len() ==> !is_ws(s[i]),
    decreases s.len(),
{
    lemma_ws_bounds(s);
    if s.len() > 0 && is_ws(s[0]) && i > 0 {
        lemma_lead_ws_char(s.drop_first(), i - 1);
    }
}

/// The digit sequence of a number extended by one digit.
proof fn lemma_digits_value_push(s: Seq<char>, c: char)
    ensures
        digits_value(s.push(c)) == digits_value(s) * 10 + digit_value(c),
{
    assert(s.push(c).drop_last() =~= s);
}

// ---------------------------------------------------------------------------
// Executable helpers
// ---------------------------------------------------------------------------

/// Every character of `s` is ASCII.
pub open spec fn is_ascii_text(s: Seq<char>) -> bool {
    forall|i: int| 0 <= i < s.len() ==> (#[trigger] s[i] as u32) < 128
}

/// `c` with an ASCII lowercase letter turned uppercase.
pub open spec fn ascii_upper(c: char) -> char {
    if 97 <= (c as u32) <= 122 {
        ((c as u32) - 32) as char
    } else {
        c
    }
}

/// `c` with an ASCII uppercase letter turned lowercase.
pub open spec fn ascii_lower(c: char) -> char {
    if 65 <= (c as u32) <= 90 {
        ((c as u32) + 32) as char
    } else {
        c
    }
}

/// `s` with its ASCII lowercase letters turned uppercase.
pub open spec fn ascii_uppercase(s: Seq<char>) -> Seq<char> {
    Seq::new(s.len(), |i: int| ascii_upper(s[i]))
}

/// `s` with its ASCII uppercase letters turned lowercase.
pub open spec fn ascii_lowercase(s: Seq<char>) -> Seq<char> {
    Seq::new(s.len(), |i: int| ascii_lower(s[i]))
}

/// What `str::to_lowercase` returns for `s` (Unicode lowercase mapping).
pub uninterp spec fn lowercase(s: Seq<char>) -> Seq<char>;

/// What `str::to_uppercase` returns for `s` (Unicode uppercase mapping).
pub uninterp spec fn uppercase(s: Seq<char>) -> Seq<char>;

/// The lowercase form of `s` (std's `str::to_lowercase`, a function of the
/// text alone).  On ASCII text, Unicode's lowercase mapping turns each
/// uppercase letter into its lowercase letter and leaves every other
/// character as it is.
#[verifier::external_body]
pub(crate) fn to_lowercase(s: &str) -> (r: String)
    ensures
        r@ == lowercase(s@),
        is_ascii_text(s@) ==> r@ == ascii_lowercase(s@),
{
    s.to_lowercase()
}

/// The uppercase form of `s` (std's `str::to_uppercase`, a function of the
/// text alone).  On ASCII text, Unicode's uppercase mapping turns each
/// lowercase letter into its uppercase letter and leaves every other
/// character as it is.
#[verifier::external_body]
pub(crate) fn to_uppercase(s: &str) -> (r: String)
    ensures
        r@ == uppercase(s@),
        is_ascii_text(s@) ==> r@ == ascii_uppercase(s@),
{
    s.to_uppercase()
}

/// Appends `c` to `s` (std's `String::push`).
#[verifier::external_body]
pub(crate) fn push_char(s: &mut String, c: char)
    ensures
        final(s)@ == old(s)@.push(c),
{
    s.push(c);
}

/// A copy of the strings `v`.
pub fn clone_strings(v: &Vec<String>) -> (r: Vec<String>)
    ensures
        views(r@) == views(v@),
{
    let mut r: Vec<String> = Vec::new();
    let mut i: usize = 0;
    while i < v.len()
        invariant
            i <= v.len(),
            views(r@) == views(v@).take(i as int),
        decreases v.len() - i,
    {
        let ghost before = r@;
        let c = v[i].clone();
        assert(c@ == v@[i as int]@);
        r.push(c);
        assert(views(r@) =~= views(before).push(c@));
        assert(views(r@) =~= views(v@).take(i + 1));
        i = i + 1;
    }
    assert(views(v@).take(v.len() as int) =~= views(v@));
    r
}

/// The characters of `s`.
pub fn chars_of(s: &str) -> (v: Vec<char>)
    ensures
        v@ == s@,
{
    let n = s.unicode_len();
    let mut v: Vec<char> = Vec::new();
    let mut i: usize = 0;
    while i < n
        invariant
            n == s@.len(),
            i <= n,
            v@ == s@.subrange(0, i as int),
        decreases n - i,
    {
        let c = s.get_char(i);
        v.push(c);
        i = i + 1;
        assert(v@ =~= s@.subrange(0, i as int));
    }
    assert(v@ =~= s@);
    v
}

/// A string holding exactly the characters of `v[from..to]`.
pub fn string_from_chars(v: &Vec<char>, from: usize, to: usize) -> (s: String)
    requires
        from <= to <= v.len(),
    ensures
        s@ == v@.subrange(from as int, to as int),
{
    let mut s = String::new();
    let mut i: usize = from;
    while i < to
        invariant
            from <= i <= to,
            to <= v.len(),
            s@ == v@.subrange(from as int, i as int),
        decreases to - i,
    {
        push_char(&mut s, v[i]);
        i = i + 1;
        assert(s@ =~= v@.subrange(from as int, i as int));
    }
    s
}

/// A copy of `s` as an owned string.
pub fn owned(s: &str) -> (r: String)
    ensures
        r@ == s@,
{
    s.to_owned()
}

/// Whether two character vectors hold the same characters.
pub fn chars_equal(a: &Vec<char>, b: &Vec<char>) -> (r: bool)
    ensures
        r == (a@ == b@),
{
    if a.len() != b.len() {
        return false;
    }
    let mut i: usize = 0;
    while i < a.len()
        invariant
            a.len() == b.len(),
            i <= a.len(),
            forall|j: int| 0 <= j < i ==> a@[j] == b@[j],
        decreases a.len() - i,
    {
        if a[i] != b[i] {
            return false;
        }
        i = i + 1;
    }
    assert(a@ =~= b@);
    true
}

/// Whether `p` occurs in `s` at index `at`.
pub fn chars_occur_at(s: &Vec<char>, p: &Vec<char>, at: usize) -> (r: bool)
    ensures
        r == occurs_at(s@, p@, at as int),
{
    if p.len() > s.len() || at > s.len() - p.len() {
        return false;
    }
    let mut i: usize = 0;
    while i < p.len()
        invariant
            p.len() <= s.len(),
            at + p.len() <= s.len(),
            i <= p.len(),
            forall|j: int| 0 <= j < i ==> s@[at + j] == p@[j],
        decreases p.len() - i,
    {
        if s[at + i] != p[i] {
            assert(s@.subrange(at as int, at + p.len())[i as int] != p@[i as int]);
            return false;
        }
        i = i + 1;
    }
    assert(s@.subrange(at as int, at + p.len()) =~= p@);
    true
}

/// Whether `p` occurs anywhere in `s`.
pub fn chars_contain(s: &Vec<char>, p: &Vec<char>) -> (r: bool)
    ensures
        r == contains_sub(s@, p@),
{
    if p.len() > s.len() {
        assert forall|i: int| !occurs_at(s@, p@, i) by {}
        return false;
    }
    let last = s.len() - p.len();
    let mut i: usize = 0;
    while i < last
        invariant
            last == s.len() - p.len(),
            p.len() <= s.len(),
            i <= last,
            forall|j: int| 0 <= j < i ==> !occurs_at(s@, p@, j),
        decreases last - i,
    {
        if chars_occur_at(s, p, i) {
            return true;
        }
        i = i + 1;
    }
    if chars_occur_at(s, p, last) {
        return true;
    }
    assert forall|j: int| !occurs_at(s@, p@, j) by {
        if 0 <= j && j + p.len() <= s.len() {
            assert(j <= last);
        }
    }
    false
}

/// `str::starts_with` for string patterns.
pub fn starts_with(s: &str, p: &str) -> (r: bool)
    ensures
        r == is_prefix(p@, s@),
{
    let sv = chars_of(s);
    let pv = chars_of(p);
    let r = chars_occur_at(&sv, &pv, 0);
    r
}

/// `str::ends_with` for string patterns.
pub fn ends_with(s: &str, p: &str) -> (r: bool)
    ensures
        r == is_suffix(p@, s@),
{
    let sv = chars_of(s);
    let pv = chars_of(p);
    if pv.len() > sv.len() {
        return false;
    }
    chars_occur_at(&sv, &pv, sv.len() - pv.len())
}

/// `str::contains` for string patterns.
pub fn contains(s: &str, p: &str) -> (r: bool)
    ensures
        r == contains_sub(s@, p@),
{
    let sv = chars_of(s);
    let pv = chars_of(p);
    chars_contain(&sv, &pv)
}

/// Whether two strings hold the same characters.
pub fn str_eq(a: &str, b: &str) -> (r: bool)
    ensures
        r == (a@ == b@),
{
    let av = chars_of(a);
    let bv = chars_of(b);
    chars_equal(&av, &bv)
}

/// Whether `c` has the Unicode `White_Space` property.
pub fn is_whitespace(c: char) -> (r: bool)
    ensures
        r == is_ws(c),
{
    ('\u{9}' <= c && c <= '\u{d}') || c == ' ' || c == '\u{85}' || c == '\u{a0}'
        || c == '\u{1680}' || ('\u{2000}' <= c && c <= '\u{200a}') || c == '\u{2028}'
        || c == '\u{2029}' || c == '\u{202f}' || c == '\u{205f}' || c == '\u{3000}'
}

/// `str::trim`: the characters of `s` without leading and trailing whitespace.
pub fn trim_chars(s: &Vec<char>) -> (r: Vec<char>)
    ensures
        r@ == trim_spec(s@),
{
    let n = s.len();
    let mut a: usize = 0;
    assert(s@.subrange(0, n as int) =~= s@);
    while a < n && is_whitespace(s[a])
        invariant
            n == s.len(),
            a <= n,
            lead_ws(s@) == a + lead_ws(s@.subrange(a as int, n as int)),
        decreases n - a,
    {
        assert(s@.subrange(a as int, n as int).drop_first() =~= s@.subrange(a + 1, n as int));
        a = a + 1;
    }
    let ghost rest = s@.subrange(a as int, n as int);
    assert(lead_ws(rest) == 0);
    let mut b: usize = n;
    while b > a && is_whitespace(s[b - 1])
        invariant
            a <= b <= n,
            n == s.len(),
            rest == s@.subrange(a as int, n as int),
            trail_ws(rest) == (n - b) + trail_ws(s@.subrange(a as int, b as int)),
        decreases b - a,
    {
        assert(s@.subrange(a as int, b as int).drop_last() =~= s@.subrange(a as int, b - 1));
        b = b - 1;
    }
    assert(trail_ws(s@.subrange(a as int, b as int)) == 0);
    let mut r: Vec<char> = Vec::new();
    let mut i: usize = a;
    while i < b
        invariant
            a <= i <= b,
            b <= n,
            n == s.len(),
            r@ == s@.subrange(a as int, i as int),
        decreases b - i,
    {
        r.push(s[i]);
        i = i + 1;
        assert(r@ =~= s@.subrange(a as int, i as int));
    }
    assert(rest.subrange(0, rest.len() - trail_ws(rest)) =~= s@.subrange(a as int, b as int));
    r
}

/// Renders `n` in decimal.
pub fn u64_to_string(n: u64) -> (res: String)
    ensures
        res@ == dec_digits(n as nat),
    decreases n,
{
    if n < 10 {
        let mut s = String::new();
        let d: u8 = (n as u8) + 48u8;
        push_char(&mut s, d as char);
        s
    } else {
        let mut s = u64_to_string(n / 10);
        let d: u8 = ((n % 10) as u8) + 48u8;
        push_char(&mut s, d as char);
        s
    }
}

/// Renders `n` in decimal.
pub fn u128_to_string(n: u128) -> (res: String)
    ensures
        res@ == dec_digits(n as nat),
    decreases n,
{
    if n < 10 {
        let mut s = String::new();
        let d: u8 = (n as u8) + 48u8;
        push_char(&mut s, d as char);
        s
    } else {
        let mut s = u128_to_string(n / 10);
        let d: u8 = ((n % 10) as u8) + 48u8;
        push_char(&mut s, d as char);
        s
    }
}

/// Reads an unsigned number the way Rust's `str::parse` does, failing when it
/// exceeds `max`.
pub fn parse_bounded(s: &Vec<char>, max: u64) -> (r: Option<u64>)
    ensures
        match parse_unsigned(s@) {
            Some(v) => if v <= max {
                r == Some(v as u64)
            } else {
                r is None
            },
            None => r is None,
        },
{
    let start: usize = if s.len() > 0 && s[0] == '+' { 1 } else { 0 };
    let ghost body = if s@.len() > 0 && s@[0] == '+' { s@.drop_first() } else { s@ };
    assert(body =~= s@.subrange(start as int, s.len() as int));
    if start >= s.len() {
        assert(body.len() == 0);
        return None;
    }
    let mut acc: u64 = 0;
    let mut i: usize = start;
    assert(s@.subrange(start as int, start as int) =~= Seq::<char>::empty());
    while i < s.len()
        invariant
            start <= i <= s.len(),
            start < s.len(),
            body == s@.subrange(start as int, s.len() as int),
            body == (if s@.len() > 0 && s@[0] == '+' { s@.drop_first() } else { s@ }),
            all_digits(s@.subrange(start as int, i as int)),
            acc == digits_value(s@.subrange(start as int, i as int)),
            acc <= max,
        decreases s.len() - i,
    {
        let c = s[i];
        if c < '0' || c > '9' {
            assert(body[i - start] == c);
            assert(!all_digits(body));
            return None;
        }
        let d: u64 = (c as u64) - 48;
        proof {
            lemma_digits_value_push(s@.subrange(start as int, i as int), c);
            assert(s@.subrange(start as int, i + 1) =~= s@.subrange(start as int, i as int).push(c));
        }
        if d > max || acc > (max - d) / 10 {
            proof {
                let pre = s@.subrange(start as int, i + 1);
                assert(acc * 10 + d > max) by (nonlinear_arith)
                    requires
                        d > max || acc > (max - d) / 10,
                ;
                if all_digits(body) {
                    lemma_digits_prefix_le(body, (i + 1 - start) as nat);
                    assert(body.subrange(0, (i + 1 - start) as int) =~= pre);
                }
            }
            return None;
        }
        assert(acc * 10 + d <= max) by (nonlinear_arith)
            requires
                d <= max,
                acc <= (max - d) / 10,
        ;
        acc = acc * 10 + d;
        i = i + 1;
        assert(all_digits(s@.subrange(start as int, i as int))) by {
            assert forall|k: int| 0 <= k < i - start implies is_digit(
                #[trigger] s@.subrange(start as int, i as int)[k],
            ) by {
                if k < i - 1 - start {
                    assert(s@.subrange(start as int, i as int)[k] == s@.subrange(
                        start as int,
                        i - 1,
                    )[k]);
                }
            }
        }
    }
    assert(s@.subrange(start as int, s.len() as int) =~= body);
    Some(acc)
}

/// The value of a digit sequence is at least the value of any of its prefixes.
proof fn lemma_digits_prefix_le(s: Seq<char>, k: nat)
    requires
        k <= s.len(),
        all_digits(s),
    ensures
        digits_value(s.subrange(0, k as int)) <= digits_value(s),
    decreases s.len(),
{
    if k < s.len() {
        assert(s.drop_last().subrange(0, k as int) =~= s.subrange(0, k as int));
        lemma_digits_prefix_le(s.drop_last(), k);
    } else {
        assert(s.subrange(0, k as int) =~= s);
    }
}

/// The strings of `parts` separated by `sep`.
pub fn join(parts: &Vec<String>, sep: &str) -> (r: String)
    ensures
        r@ == join_spec(views(parts@), sep@),
{
    let mut r = String::new();
    let mut i: usize = 0;
    while i < parts.len()
        invariant
            i <= parts.len(),
            r@ == join_spec(views(parts@).take(i as int), sep@),
        decreases parts.len() - i,
    {
        proof {
            let vs = views(parts@);
            assert(vs.take(i + 1).drop_last() =~= vs.take(i as int));
            assert(vs.take(i + 1).last() == parts@[i as int]@);
        }
        if i > 0 {
            r.append(sep);
        }
        r.append(parts[i].as_str());
        i = i + 1;
    }
    assert(views(parts@).take(parts.len() as int) =~= views(parts@));
    r
}

/// The value of `key` in a list of key-value pairs: that of the first entry
/// with that key.
pub open spec fn kv_get(data: Seq<(String, String)>, key: Seq<char>) -> Option<Seq<char>>
    decreases data.len(),
{
    if data.len() == 0 {
        None
    } else if data[0].0@ == key {
        Some(data[0].1@)
    } else {
        kv_get(data.drop_first(), key)
    }
}

pub proof fn lemma_kv_update_one(data: Seq<(String, String)>, i: int, key: Seq<char>, nv: (String, String))
    requires
        0 <= i < data.len(),
        nv.0@ == key,
        forall|j: int| 0 <= j < i ==> (#[trigger] data[j]).0@ != key,
    ensures
        kv_get(data.update(i, nv), key) == Some(nv.1@),
    decreases i,
{
    if i > 0 {
        assert(data.update(i, nv).drop_first() =~= data.drop_first().update(i - 1, nv));
        assert forall|j: int| 0 <= j < i - 1 implies (#[trigger] data.drop_first()[j]).0@ != key by {
            assert(data.drop_first()[j] == data[j + 1]);
        }
        lemma_kv_update_one(data.drop_first(), i - 1, key, nv);
    }
}

pub proof fn lemma_kv_update_other(
    data: Seq<(String, String)>,
    i: int,
    key: Seq<char>,
    nv: (String, String),
    k: Seq<char>,
)
    requires
        0 <= i < data.len(),
        nv.0@ == key,
        data[i].0@ == key,
        k != key,
    ensures
        kv_get(data.update(i, nv), k) == kv_get(data, k),
    decreases i,
{
    if i > 0 {
        assert(data.update(i, nv).drop_first() =~= data.drop_first().update(i - 1, nv));
        lemma_kv_update_other(data.drop_first(), i - 1, key, nv, k);
    } else {
        assert(data.update(i, nv).drop_first() =~= data.drop_first());
    }
}

pub proof fn lemma_kv_push_one(data: Seq<(String, String)>, key: Seq<char>, nv: (String, String))
    requires
        nv.0@ == key,
        forall|j: int| 0 <= j < data.len() ==> (#[trigger] data[j]).0@ != key,
    ensures
        kv_get(data.push(nv), key) == Some(nv.1@),
    decreases data.len(),
{
    if data.len() > 0 {
        assert(data.push(nv).drop_first() =~= data.drop_first().push(nv));
        assert forall|j: int| 0 <= j < data.drop_first().len() implies (
        #[trigger] data.drop_first()[j]).0@ != key by {
            assert(data.drop_first()[j] == data[j + 1]);
        }
        lemma_kv_push_one(data.drop_first(), key, nv);
    }
}

pub proof fn lemma_kv_push_other(data: Seq<(String, String)>, key: Seq<char>, nv: (String, String), k: Seq<char>)
    requires
        nv.0@ == key,
        k != key,
    ensures
        kv_get(data.push(nv), k) == kv_get(data, k),
    decreases data.len(),
{
    if data.len() > 0 {
        assert(data.push(nv).drop_first() =~= data.drop_first().push(nv));
        lemma_kv_push_other(data.drop_first(), key, nv, k);
    } else {
        assert(data.push(nv).drop_first() =~= data);
    }
}

/// Sets `key` to `value` in a list of key-value pairs: the first entry with
/// that key is replaced, or a new entry is appended.
pub fn kv_set(data: &mut Vec<(String, String)>, key: &str, value: String)
    ensures
        kv_get(final(data)@, key@) == Some(value@),
        forall|k: Seq<char>| k != key@ ==> kv_get(final(data)@, k) == kv_get(old(data)@, k),
{
    let ghost old_data = data@;
    let mut i: usize = 0;
    while i < data.len()
        invariant
            i <= data.len(),
            data@ == old_data,
            old_data == old(data)@,
            forall|j: int| 0 <= j < i ==> (#[trigger] data@[j]).0@ != key@,
        decreases data.len() - i,
    {
        if str_eq(data[i].0.as_str(), key) {
            let k = data[i].0.clone();
            data.set(i, (k, value));
            proof {
                let nv = data@[i as int];
                assert(data@ == old_data.update(i as int, nv));
                lemma_kv_update_one(old_data, i as int, key@, nv);
                assert forall|q: Seq<char>| q != key@ implies kv_get(data@, q) == kv_get(old_data, q) by {
                    lemma_kv_update_other(old_data, i as int, key@, nv, q);
                }
            }
            return;
        }
        i = i + 1;
    }
    data.push((String::from_str(key), value));
    proof {
        let nv = data@.last();
        assert(data@ == old_data.push(nv));
        lemma_kv_push_one(old_data, key@, nv);
        assert forall|q: Seq<char>| q != key@ implies kv_get(data@, q) == kv_get(old_data, q) by {
            lemma_kv_push_other(old_data, key@, nv, q);
        }
    }
}

/// The value of `key` in a list of key-value pairs.
pub fn kv_find<'a>(data: &'a Vec<(String, String)>, key: &str) -> (r: Option<&'a String>)
    ensures
        match r {
            Some(v) => kv_get(data@, key@) == Some(v@),
            None => kv_get(data@, key@) is None,
        },
{
    let mut i: usize = 0;
    assert(data@.subrange(0, data@.len() as int) =~= data@);
    while i < data.len()
        invariant
            i <= data.len(),
            kv_get(data@, key@) == kv_get(data@.subrange(i as int, data@.len() as int), key@),
        decreases data.len() - i,
    {
        let ghost rest = data@.subrange(i as int, data@.len() as int);
        assert(rest.drop_first() =~= data@.subrange(i + 1, data@.len() as int));
        assert(rest[0] == data@[i as int]);
        if str_eq(data[i].0.as_str(), key) {
            return Some(&data[i].1);
        }
        i = i + 1;
    }
    None
}

} // verus!
