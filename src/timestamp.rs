//! Wall-clock instants, kept as plain numbers and written in RFC 3339.

use vstd::prelude::*;

verus! {

/// A UTC instant: whole seconds since the Unix epoch and the nanoseconds
/// past them.
#[derive(Clone, Copy, Debug, PartialEq, Eq)]
pub struct Timestamp {
    pub secs: i64,
    pub nanos: u32,
}

/// Relies on `chrono::Utc::now`, read back through `DateTime::timestamp` and
/// `DateTime::timestamp_subsec_nanos`: the current time of the system clock.
#[verifier::external_body]
fn utc_now() -> Timestamp {
    let t = chrono::Utc::now();
    Timestamp { secs: t.timestamp(), nanos: t.timestamp_subsec_nanos() }
}

/// What chrono writes for the instant `secs`, `nanos` in RFC 3339, or `None`
/// where it has no such instant.
pub uninterp spec fn rfc3339_of(secs: int, nanos: int) -> Option<Seq<char>>;

/// Relies on `chrono::DateTime::from_timestamp`, which builds the instant
/// from seconds and nanoseconds or declines when they are out of range, and
/// `DateTime::to_rfc3339`, which writes it.
#[verifier::external_body]
fn rfc3339(secs: i64, nanos: u32) -> (r: Option<String>)
    ensures
        r is Some <==> rfc3339_of(secs as int, nanos as int) is Some,
        r is Some ==> rfc3339_of(secs as int, nanos as int) == Some(r->0@),
{
    chrono::DateTime::from_timestamp(secs, nanos).map(|t| t.to_rfc3339())
}

/// The RFC 3339 text of a timestamp; one that chrono cannot represent is
/// written as `invalid-timestamp`.
pub open spec fn timestamp_text(t: Timestamp) -> Seq<char> {
    match rfc3339_of(t.secs as int, t.nanos as int) {
        Some(s) => s,
        None => "invalid-timestamp"@,
    }
}

impl Timestamp {
    /// The current time.
    pub fn now() -> (r: Timestamp) {
        utc_now()
    }

    /// Appends the RFC 3339 text of this instant.
    pub fn push_rfc3339(&self, out: &mut String)
        ensures
            final(out)@ == old(out)@ + timestamp_text(*self),
    {
        match rfc3339(self.secs, self.nanos) {
            Some(s) => out.append(s.as_str()),
            None => out.append("invalid-timestamp"),
        }
    }
}

} // verus!
