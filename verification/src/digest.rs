//! MD5 digests of text (through the `md5` crate) and their lowercase
//! hexadecimal rendering.
use vstd::prelude::*;

verus! {

/// What `md5::compute` returns for the UTF-8 bytes of `text`.
pub uninterp spec fn md5_of_text(text: Seq<char>) -> Seq<u8>;

/// The MD5 digest of the UTF-8 bytes of `text` (`md5::compute`, a function
/// of its input alone; the digest always has sixteen bytes).
#[verifier::external_body]
pub(crate) fn md5_text(text: &str) -> (r: Vec<u8>)
    ensures
        r@ == md5_of_text(text@),
        r@.len() == 16,
{
    md5::compute(text.as_bytes()).0.to_vec()
}

/// The lowercase hexadecimal digit of `d` (below sixteen).
pub open spec fn hex_digit(d: nat) -> char {
    if d < 10 {
        ((d + 48) as u8) as char
    } else {
        ((d - 10 + 97) as u8) as char
    }
}

/// Two lowercase hexadecimal digits per byte, high digit first.
pub open spec fn hex_spec(bytes: Seq<u8>) -> Seq<char>
    decreases bytes.len(),
{
    if bytes.len() == 0 {
        Seq::empty()
    } else {
        hex_spec(bytes.drop_last()) + seq![
            hex_digit((bytes.last() / 16) as nat),
            hex_digit((bytes.last() % 16) as nat),
        ]
    }
}

fn hex_char(d: u8) -> (c: char)
    requires
        d < 16,
    ensures
        c == hex_digit(d as nat),
{
    if d < 10 {
        (d + 48) as char
    } else {
        (d - 10 + 97) as char
    }
}

/// The lowercase hexadecimal text of `bytes` (what `{:x}` prints for a digest).
pub fn to_hex(bytes: &Vec<u8>) -> (r: String)
    ensures
        r@ == hex_spec(bytes@),
{
    let mut s = String::new();
    let mut i: usize = 0;
    assert(bytes@.take(0) =~= Seq::<u8>::empty());
    while i < bytes.len()
        invariant
            i <= bytes.len(),
            s@ == hex_spec(bytes@.take(i as int)),
        decreases bytes.len() - i,
    {
        let b = bytes[i];
        assert(bytes@.take(i + 1).drop_last() =~= bytes@.take(i as int));
        crate::text::push_char(&mut s, hex_char(b / 16));
        crate::text::push_char(&mut s, hex_char(b % 16));
        i = i + 1;
    }
    assert(bytes@.take(bytes.len() as int) =~= bytes@);
    s
}

/// The lowercase hexadecimal MD5 digest of `text`.
pub fn md5_hex(text: &str) -> (r: String)
    ensures
        r@ == hex_spec(md5_of_text(text@)),
{
    let d = md5_text(text);
    to_hex(&d)
}

} // verus!
