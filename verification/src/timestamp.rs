//! Instants as the `Last-Modified` header gives them.

use time::format_description::well_known::Rfc2822;
use time::OffsetDateTime;
use vstd::prelude::*;

verus! {

/// An instant together with the offset from UTC that it was written with.
#[derive(Clone, Copy, Debug, PartialEq, Eq, Structural)]
pub struct Timestamp {
    /// Whole seconds since 1970-01-01 00:00:00 UTC; negative before it.
    pub seconds: i64,
    /// Nanoseconds past that second.
    pub nanoseconds: u32,
    /// Seconds that the local time of the text is ahead of UTC; negative
    /// west of Greenwich.
    pub offset_seconds: i32,
}

/// The instant that `text` denotes by the date grammar of RFC 2822, such as
/// `Tue, 29 Oct 2019 08:00:00 GMT`; `None` if `text` is no such date.
pub uninterp spec fn rfc2822_instant(text: Seq<char>) -> Option<Timestamp>;

/// Calls `time::OffsetDateTime::parse` with the format `Rfc2822`.
///
/// The call depends on `text` alone, so its outcome has the name
/// [`rfc2822_instant`]. A date comes back as its Unix timestamp, the
/// nanoseconds of its second and its offset in seconds; a refusal comes
/// back as the parser reported it.
#[verifier::external_body]
pub(crate) fn parse_rfc2822(text: &str) -> (parsed: Result<Timestamp, time::error::Parse>)
    ensures
        match rfc2822_instant(text@) {
            Some(instant) => parsed == Ok::<Timestamp, time::error::Parse>(instant),
            None => parsed is Err,
        },
{
    match OffsetDateTime::parse(text, &Rfc2822) {
        Ok(at) => Ok(
            Timestamp {
                seconds: at.unix_timestamp(),
                nanoseconds: at.nanosecond(),
                offset_seconds: at.offset().whole_seconds(),
            },
        ),
        Err(refusal) => Err(refusal),
    }
}

} // verus!
