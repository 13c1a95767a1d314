//! Creation stamps, read as structured instants on demand.
//!
//! The daemon reports when a volume was created as RFC 3339 text. The text
//! itself stays in the typed structs, so a caller who wants the raw form
//! keeps it; one who wants a structured, timezone-aware instant asks for
//! it here.

use vstd::prelude::*;

verus! {

/// An instant on the UTC timeline: whole seconds since the epoch and the
/// nanoseconds into that second.
#[derive(Debug, Clone, Copy, PartialEq, Eq)]
pub struct Timestamp {
    pub secs: i64,
    pub nanos: u32,
}

/// The instant an RFC 3339 stamp denotes, or nothing when the text is not
/// a well-formed stamp. What a stamp denotes depends on its text alone.
pub uninterp spec fn rfc3339_instant(s: Seq<char>) -> Option<(i64, u32)>;

/// Relies on chrono's DateTime::parse_from_rfc3339, timestamp and
/// timestamp_subsec_nanos: reading an RFC 3339 stamp, and the instant it
/// denotes, depend on the text alone.
#[verifier::external_body]
pub fn parse_rfc3339(s: &str) -> (r: Option<Timestamp>)
    ensures
        match r {
            Some(t) => rfc3339_instant(s@) == Some((t.secs, t.nanos)),
            None => rfc3339_instant(s@) is None,
        },
{
    match chrono::DateTime::parse_from_rfc3339(s) {
        Ok(dt) => Some(Timestamp { secs: dt.timestamp(), nanos: dt.timestamp_subsec_nanos() }),
        Err(_) => None,
    }
}

} // verus!
