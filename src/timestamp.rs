//! Timestamps are whole seconds since the Unix epoch; their text form is RFC 3339.
use vstd::prelude::*;
use crate::token::opt_view;

verus! {

/// The RFC 3339 text of a UTC instant, when the instant is representable.
pub uninterp spec fn rfc3339_text(secs: usize) -> Option<Seq<char>>;

/// Relies on `chrono::DateTime::from_timestamp` and `to_rfc3339`: the UTC
/// instant `secs` seconds after the epoch, as RFC 3339 text.
#[verifier::external_body]
pub(crate) fn rfc3339(secs: usize) -> (r: Option<String>)
    ensures
        opt_view(r) == rfc3339_text(secs),
{
    let secs = i64::try_from(secs).ok()?;
    Some(chrono::DateTime::from_timestamp(secs, 0)?.to_rfc3339())
}

/// The instant that an RFC 3339 text denotes, in seconds since the epoch;
/// `None` when the text is malformed or the instant precedes the epoch.
pub uninterp spec fn rfc3339_instant(s: Seq<char>) -> Option<usize>;

/// Relies on `chrono::DateTime::parse_from_rfc3339` and `timestamp`: the
/// instant of the text, whole seconds, when it is well formed.
#[verifier::external_body]
pub(crate) fn parse_rfc3339(s: &str) -> (r: Option<usize>)
    ensures
        r == rfc3339_instant(s@),
{
    let secs = chrono::DateTime::parse_from_rfc3339(s).ok()?.timestamp();
    usize::try_from(secs).ok()
}

/// The RFC 3339 text of an instant, or the empty text when it has none.
pub fn timestamp_text(secs: usize) -> (r: String)
    ensures
        r@ == match rfc3339_text(secs) {
            Some(t) => t,
            None => Seq::<char>::empty(),
        },
{
    match rfc3339(secs) {
        Some(t) => t,
        None => String::new(),
    }
}

} // verus!
