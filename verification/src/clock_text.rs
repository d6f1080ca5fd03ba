//! Clock readings as text: the UTC date and time that a count of seconds
//! since the Unix epoch stands for, through `chrono`.
use vstd::prelude::*;

verus! {

/// What `chrono` writes for the UTC date and time `secs` seconds after the
/// Unix epoch (`YYYY-MM-DD HH:MM:SS UTC`), or `None` where it has no date for
/// them.
pub uninterp spec fn utc_text(secs: i64) -> Option<Seq<char>>;

/// The UTC date and time `secs` seconds after the Unix epoch as text
/// (`chrono::DateTime::from_timestamp`, then its `Display`; the result is a
/// function of `secs` alone), or `None` out of chrono's range.
#[verifier::external_body]
pub(crate) fn utc_timestamp_text(secs: i64) -> (r: Option<String>)
    ensures
        match r {
            Some(s) => utc_text(secs) == Some(s@),
            None => utc_text(secs) is None,
        },
{
    chrono::DateTime::from_timestamp(secs, 0).map(|d| d.to_string())
}

/// What `chrono` writes, in RFC 3339 form (`YYYY-MM-DDTHH:MM:SS`, the
/// fraction of a second where there is one, `+00:00`), for the UTC date and
/// time `secs` seconds and `nanos` nanoseconds after the Unix epoch, or
/// `None` where it has none.
pub uninterp spec fn utc_rfc3339(secs: i64, nanos: u32) -> Option<Seq<char>>;

/// The UTC date and time `secs` seconds and `nanos` nanoseconds after the
/// Unix epoch in RFC 3339 form (`chrono::DateTime::from_timestamp`, then
/// `to_rfc3339`; a function of the two numbers alone), or `None` where
/// chrono has no such date and time.
#[verifier::external_body]
pub(crate) fn utc_rfc3339_text(secs: i64, nanos: u32) -> (r: Option<String>)
    ensures
        match r {
            Some(s) => utc_rfc3339(secs, nanos) == Some(s@),
            None => utc_rfc3339(secs, nanos) is None,
        },
{
    chrono::DateTime::from_timestamp(secs, nanos).map(|d| d.to_rfc3339())
}

} // verus!
