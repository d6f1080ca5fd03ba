//! Formatting of durations, byte counts and rates, and the estimate of the
//! time left, in exact integer arithmetic.  Durations are in nanoseconds.
use vstd::prelude::*;
use crate::text::{dec_digits, digit_char, push_char, u128_to_string, u64_to_string};

verus! {

/// Nanoseconds in a second.
pub const NANOS_PER_SEC: u128 = 1_000_000_000;

/// The longest duration that can be held, in nanoseconds: `u64::MAX` seconds
/// and 999 999 999 nanoseconds.
pub const MAX_DURATION_NANOS: u128 = 18_446_744_073_709_551_615_999_999_999;

/// `num / den` rounded to the nearest integer, ties to the even one.
pub open spec fn round_half_even(num: nat, den: nat) -> nat
    recommends
        den > 0,
{
    let q = num / den;
    let r = num % den;
    if 2 * r < den {
        q
    } else if 2 * r > den {
        q + 1
    } else if q % 2 == 0 {
        q
    } else {
        q + 1
    }
}

/// A count of tenths shown with one decimal: `12` is `1.2`.
pub open spec fn fixed1(tenths: nat) -> Seq<char> {
    dec_digits(tenths / 10) + "."@ + seq![digit_char(tenths % 10)]
}

/// A count of hundredths shown with two decimals: `5` is `0.05`.
pub open spec fn fixed2(hundredths: nat) -> Seq<char> {
    dec_digits(hundredths / 100) + "."@ + seq![digit_char((hundredths / 10) % 10)]
        + seq![digit_char(hundredths % 10)]
}

/// A count of hundredths with two decimals, a final zero dropped: `50` is
/// `0.5`, `5` is `0.05`.
pub open spec fn fixed2_trimmed(hundredths: nat) -> Seq<char> {
    if hundredths % 10 == 0 {
        fixed1(hundredths / 10)
    } else {
        fixed2(hundredths)
    }
}

/// How a duration is shown: seconds under a minute, minutes and seconds under
/// an hour, hours and minutes beyond.
pub open spec fn duration_text(nanos: nat) -> Seq<char> {
    let secs = nanos / 1_000_000_000;
    if secs < 60 {
        dec_digits(secs) + "s"@
    } else if secs < 3600 {
        dec_digits(secs / 60) + "m "@ + dec_digits(secs % 60) + "s"@
    } else {
        dec_digits(secs / 3600) + "h "@ + dec_digits((secs % 3600) / 60) + "m"@
    }
}

/// Law: a duration of `s` whole seconds reads `<s>s` below a minute,
/// `<m>m <s>s` below an hour and `<h>h <m>m` from an hour on.
pub proof fn lemma_duration_forms(s: nat, nanos: nat)
    requires
        s * 1000000000 <= nanos < (s + 1) * 1000000000,
    ensures
        s < 60 ==> duration_text(nanos) == dec_digits(s) + seq!['s'],
        60 <= s < 3600 ==> duration_text(nanos) == dec_digits(s / 60) + seq!['m', ' '] + dec_digits(s % 60) + seq![
            's',
        ],
        3600 <= s ==> duration_text(nanos) == dec_digits(s / 3600) + seq!['h', ' '] + dec_digits((s % 3600) / 60)
            + seq!['m'],
{
    reveal_strlit("s");
    reveal_strlit("m ");
    reveal_strlit("h ");
    reveal_strlit("m");
    assert("s"@ =~= seq!['s']);
    assert("m "@ =~= seq!['m', ' ']);
    assert("h "@ =~= seq!['h', ' ']);
    assert("m"@ =~= seq!['m']);
    assert(nanos / 1000000000 == s) by (nonlinear_arith)
        requires
            s * 1000000000 <= nanos < (s + 1) * 1000000000,
    ;
}

/// The unit a byte count is shown in: 0 for bytes up to 4 for terabytes, the
/// largest whose size the count reaches.
pub open spec fn byte_unit(bytes: nat) -> nat {
    if bytes < 1024 {
        0
    } else if bytes < 1024 * 1024 {
        1
    } else if bytes < 1024 * 1024 * 1024 {
        2
    } else if bytes < 1024 * 1024 * 1024 * 1024 {
        3
    } else {
        4
    }
}

/// The number of bytes in a unit.
pub open spec fn unit_size(unit: nat) -> nat {
    if unit == 0 {
        1
    } else if unit == 1 {
        1024
    } else if unit == 2 {
        1024 * 1024
    } else if unit == 3 {
        1024 * 1024 * 1024
    } else {
        1024 * 1024 * 1024 * 1024
    }
}

/// The name of a unit.
pub open spec fn unit_name(unit: nat) -> Seq<char> {
    if unit == 0 {
        "B"@
    } else if unit == 1 {
        "KB"@
    } else if unit == 2 {
        "MB"@
    } else if unit == 3 {
        "GB"@
    } else {
        "TB"@
    }
}

/// How a byte count is shown: whole bytes below a kilobyte, otherwise the
/// size in its unit with one decimal, rounded half to even.
pub open spec fn bytes_text(bytes: nat) -> Seq<char> {
    let u = byte_unit(bytes);
    if u == 0 {
        dec_digits(bytes) + " B"@
    } else {
        fixed1(round_half_even(bytes * 10, unit_size(u))) + " "@ + unit_name(u)
    }
}

/// Law: byte counts are shown in binary units. Below 1024 the count itself
/// with ` B`; otherwise the count divided by the largest of 1024, 1024², 1024³
/// and 1024⁴ it reaches, with one decimal, and `KB`, `MB`, `GB` or `TB`.
pub proof fn lemma_binary_units(b: nat)
    ensures
        b < 1024 ==> bytes_text(b) == dec_digits(b) + seq![' ', 'B'],
        1024 <= b < 1048576 ==> bytes_text(b) == fixed1(round_half_even(b * 10, 1024)) + seq![' ', 'K', 'B'],
        1048576 <= b < 1073741824 ==> bytes_text(b) == fixed1(round_half_even(b * 10, 1048576)) + seq![
            ' ',
            'M',
            'B',
        ],
        1073741824 <= b < 1099511627776 ==> bytes_text(b) == fixed1(round_half_even(b * 10, 1073741824))
            + seq![' ', 'G', 'B'],
        1099511627776 <= b ==> bytes_text(b) == fixed1(round_half_even(b * 10, 1099511627776)) + seq![
            ' ',
            'T',
            'B',
        ],
{
    reveal_strlit(" B");
    reveal_strlit(" ");
    reveal_strlit("KB");
    reveal_strlit("MB");
    reveal_strlit("GB");
    reveal_strlit("TB");
    assert(" B"@ =~= seq![' ', 'B']);
    assert(" "@ + "KB"@ =~= seq![' ', 'K', 'B']);
    assert(" "@ + "MB"@ =~= seq![' ', 'M', 'B']);
    assert(" "@ + "GB"@ =~= seq![' ', 'G', 'B']);
    assert(" "@ + "TB"@ =~= seq![' ', 'T', 'B']);
    let u = byte_unit(b);
    if u > 0 {
        assert(fixed1(round_half_even(b * 10, unit_size(u))) + " "@ + unit_name(u) =~= fixed1(
            round_half_even(b * 10, unit_size(u)),
        ) + (" "@ + unit_name(u)));
    }
}

/// How a rate of `items` in `nanos` is shown: infinite below a whole second,
/// one decimal from one item a second, otherwise two decimals with a final
/// zero dropped.
pub open spec fn rate_text(items: nat, nanos: nat) -> Seq<char> {
    if nanos < 1_000_000_000 {
        "\u{221e} items/s"@
    } else if items * 1_000_000_000 >= nanos {
        fixed1(round_half_even(items * 10_000_000_000, nanos)) + " items/s"@
    } else {
        fixed2_trimmed(round_half_even(items * 100_000_000_000, nanos)) + " items/s"@
    }
}

/// The time left, in nanoseconds, when `current` of `total` took `elapsed`:
/// the elapsed time scaled by what remains over what is done.
pub open spec fn eta_nanos(current: nat, total: nat, elapsed: nat) -> nat
    recommends
        current > 0,
{
    elapsed * ((total - current) as nat) / current
}

/// `num / den` rounded half to even, computed.
pub fn div_round_half_even(num: u128, den: u128) -> (r: u128)
    requires
        den > 0,
    ensures
        r == round_half_even(num as nat, den as nat),
{
    let q = num / den;
    let rem = num % den;
    proof {
        assert(q * den <= num) by (nonlinear_arith)
            requires
                q == num / den,
                den > 0,
        ;
        assert(q < u128::MAX || den == 1) by (nonlinear_arith)
            requires
                q == num / den,
                den > 0,
                num <= u128::MAX,
        ;
    }
    if rem < den - rem {
        q
    } else if rem > den - rem {
        assert(rem > 0);
        assert(den >= 2);
        assert(q < u128::MAX) by (nonlinear_arith)
            requires
                q == num / den,
                den >= 2,
        ;
        q + 1
    } else if q % 2 == 0 {
        q
    } else {
        assert(den >= 2);
        assert(q < u128::MAX) by (nonlinear_arith)
            requires
                q == num / den,
                den >= 2,
        ;
        q + 1
    }
}

/// Appends the decimal form of `n` to `s`.
fn append_u64(s: &mut String, n: u64)
    ensures
        final(s)@ == old(s)@ + dec_digits(n as nat),
{
    let d = u64_to_string(n);
    s.append(d.as_str());
}

/// Appends the decimal form of `n` to `s`.
fn append_u128(s: &mut String, n: u128)
    ensures
        final(s)@ == old(s)@ + dec_digits(n as nat),
{
    let d = u128_to_string(n);
    s.append(d.as_str());
}

/// Appends the digit `d` to `s`.
fn append_digit(s: &mut String, d: u128)
    requires
        d < 10,
    ensures
        final(s)@ == old(s)@.push(digit_char(d as nat)),
{
    let b: u8 = (d as u8) + 48u8;
    push_char(s, b as char);
}

/// A count of tenths with one decimal.
pub fn format_fixed1(tenths: u128) -> (s: String)
    ensures
        s@ == fixed1(tenths as nat),
{
    let mut s = String::new();
    append_u128(&mut s, tenths / 10);
    s.append(".");
    append_digit(&mut s, tenths % 10);
    s
}

/// A count of hundredths with two decimals, a final zero dropped.
fn format_fixed2_trimmed(hundredths: u128) -> (s: String)
    ensures
        s@ == fixed2_trimmed(hundredths as nat),
{
    if hundredths % 10 == 0 {
        format_fixed1(hundredths / 10)
    } else {
        let mut s = String::new();
        append_u128(&mut s, hundredths / 100);
        s.append(".");
        append_digit(&mut s, (hundredths / 10) % 10);
        append_digit(&mut s, hundredths % 10);
        s
    }
}

/// Formats a duration given in nanoseconds ("30s", "1m 30s", "1h 1m").
pub fn format_duration(nanos: u128) -> (s: String)
    ensures
        s@ == duration_text(nanos as nat),
{
    let secs = nanos / NANOS_PER_SEC;
    let mut s = String::new();
    if secs < 60 {
        append_u128(&mut s, secs);
        s.append("s");
    } else if secs < 3600 {
        append_u128(&mut s, secs / 60);
        s.append("m ");
        append_u128(&mut s, secs % 60);
        s.append("s");
    } else {
        append_u128(&mut s, secs / 3600);
        s.append("h ");
        append_u128(&mut s, (secs % 3600) / 60);
        s.append("m");
    }
    s
}

/// Formats a byte count ("512 B", "1.5 KB", "1.0 MB").
pub fn format_bytes(bytes: u64) -> (s: String)
    ensures
        s@ == bytes_text(bytes as nat),
{
    let mut s = String::new();
    if bytes < 1024 {
        append_u64(&mut s, bytes);
        s.append(" B");
        return s;
    }
    let (size, name): (u128, &str) = if bytes < 1024 * 1024 {
        (1024, "KB")
    } else if bytes < 1024 * 1024 * 1024 {
        (1024 * 1024, "MB")
    } else if bytes < 1024 * 1024 * 1024 * 1024 {
        (1024 * 1024 * 1024, "GB")
    } else {
        (1024 * 1024 * 1024 * 1024, "TB")
    };
    proof {
        reveal_strlit("KB");
        reveal_strlit("MB");
        reveal_strlit("GB");
        reveal_strlit("TB");
    }
    assert(size as nat == unit_size(byte_unit(bytes as nat)));
    assert(name@ == unit_name(byte_unit(bytes as nat)));
    let tenths = div_round_half_even((bytes as u128) * 10, size);
    let mut s = format_fixed1(tenths);
    s.append(" ");
    s.append(name);
    s
}

/// Formats the rate of `items` done in `nanos` ("10.0 items/s",
/// "0.5 items/s"); under a whole second the rate is shown as infinite.
pub fn format_rate(items: u64, nanos: u128) -> (s: String)
    ensures
        s@ == rate_text(items as nat, nanos as nat),
{
    if nanos < NANOS_PER_SEC {
        let mut s = String::new();
        s.append("\u{221e} items/s");
        return s;
    }
    if (items as u128) * NANOS_PER_SEC >= nanos {
        let tenths = div_round_half_even((items as u128) * 10_000_000_000, nanos);
        let mut s = format_fixed1(tenths);
        s.append(" items/s");
        s
    } else {
        let hundredths = div_round_half_even((items as u128) * 100_000_000_000, nanos);
        let mut s = format_fixed2_trimmed(hundredths);
        s.append(" items/s");
        s
    }
}

/// The estimated time left, in nanoseconds, once `current` of `total` items
/// took `elapsed_nanos`: none before the first item, once all are done, or
/// when no time has passed.
pub fn calculate_eta(current: u64, total: u64, elapsed_nanos: u128) -> (r: Option<u128>)
    requires
        current == 0 || current >= total
            || eta_nanos(current as nat, total as nat, elapsed_nanos as nat) <= MAX_DURATION_NANOS,
    ensures
        r is Some <==> (0 < current < total && elapsed_nanos > 0),
        r matches Some(n) ==> n == eta_nanos(current as nat, total as nat, elapsed_nanos as nat),
{
    if current == 0 || current >= total || elapsed_nanos == 0 {
        return None;
    }
    let left = (total - current) as u128;
    let c = current as u128;
    let q = elapsed_nanos / c;
    let rem = elapsed_nanos % c;
    proof {
        let e = elapsed_nanos as int;
        let ci = c as int;
        let li = left as int;
        assert(e == q * ci + rem) by (nonlinear_arith)
            requires
                q == e / ci,
                rem == e % ci,
                ci > 0,
        ;
        assert(e * li == (q * li) * ci + rem * li) by (nonlinear_arith)
            requires
                e == q * ci + rem,
        ;
        assert(rem * li < ci * 0x1_0000_0000_0000_0000) by (nonlinear_arith)
            requires
                0 <= rem < ci,
                0 <= li < 0x1_0000_0000_0000_0000,
        ;
        assert((e * li) / ci == q * li + (rem * li) / ci) by (nonlinear_arith)
            requires
                e * li == (q * li) * ci + rem * li,
                ci > 0,
                rem * li >= 0,
                q * li >= 0,
        ;
        assert(q * li <= MAX_DURATION_NANOS) by (nonlinear_arith)
            requires
                (e * li) / ci == q * li + (rem * li) / ci,
                (e * li) / ci <= MAX_DURATION_NANOS,
                rem * li >= 0,
                ci > 0,
        ;
        assert(ci * 0x1_0000_0000_0000_0000 <= u128::MAX + 1) by (nonlinear_arith)
            requires
                ci < 0x1_0000_0000_0000_0000,
        ;
    }
    let whole = q * left;
    let part = (rem * left) / c;
    Some(whole + part)
}

} // verus!
