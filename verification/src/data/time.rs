//! Points in time held by values, and their RFC 3339 text.

use chrono::{DateTime, Utc};
use vstd::prelude::*;

verus! {

/// Whether chrono represents the instant `secs` seconds after the Unix epoch plus `nanos`
/// nanoseconds (a nanosecond count of a second or more marks a leap second).
pub uninterp spec fn chrono_accepts(secs: i64, nanos: u32) -> bool;

/// The RFC 3339 text that chrono writes for an instant it represents, in UTC.
pub uninterp spec fn rfc3339_text(secs: i64, nanos: u32) -> Seq<char>;

/// The instant, as seconds and nanoseconds, that chrono reads from an RFC 3339 text, or
/// `None` where it rejects the text.
pub uninterp spec fn rfc3339_parse(text: Seq<char>) -> Option<(i64, u32)>;

/// `chrono::DateTime::<Utc>::from_timestamp`: whether it gives an instant for these parts
/// (it does for the seconds and nanoseconds of every instant chrono represents).
#[verifier::external_body]
fn accepts(secs: i64, nanos: u32) -> (r: bool)
    ensures
        r == chrono_accepts(secs, nanos),
{
    DateTime::<Utc>::from_timestamp(secs, nanos).is_some()
}

/// `chrono::DateTime::to_rfc3339` of the instant with these parts, which chrono represents.
#[verifier::external_body]
fn format_rfc3339(secs: i64, nanos: u32) -> (r: String)
    requires
        chrono_accepts(secs, nanos),
    ensures
        r@ == rfc3339_text(secs, nanos),
{
    DateTime::<Utc>::from_timestamp(secs, nanos).unwrap().to_rfc3339()
}

/// `chrono::DateTime::parse_from_rfc3339`, taken to UTC and given as seconds and nanoseconds.
/// chrono documents that these parts give the same instant back, so it accepts them.
#[verifier::external_body]
fn parse_rfc3339(text: &str) -> (r: Option<(i64, u32)>)
    ensures
        r == rfc3339_parse(text@),
        r matches Some(p) ==> chrono_accepts(p.0, p.1),
{
    match DateTime::parse_from_rfc3339(text) {
        Ok(dt) => {
            let utc = dt.with_timezone(&Utc);
            Some((utc.timestamp(), utc.timestamp_subsec_nanos()))
        },
        Err(_) => None,
    }
}

/// A point in time (UTC): seconds since the Unix epoch and nanoseconds within that second.
#[derive(Debug, Clone, Copy, PartialEq, Eq, Structural)]
pub struct Timestamp {
    secs: i64,
    nanos: u32,
}

impl View for Timestamp {
    type V = (i64, u32);

    closed spec fn view(&self) -> (i64, u32) {
        (self.secs, self.nanos)
    }
}

impl Timestamp {
    #[verifier::type_invariant]
    closed spec fn represented(self) -> bool {
        chrono_accepts(self.secs, self.nanos)
    }

    /// The instant `secs` seconds after the Unix epoch plus `nanos` nanoseconds, where
    /// chrono represents it.
    pub fn from_parts(secs: i64, nanos: u32) -> (r: Option<Timestamp>)
        ensures
            match r {
                Some(t) => chrono_accepts(secs, nanos) && t@ == (secs, nanos),
                None => !chrono_accepts(secs, nanos),
            },
    {
        if accepts(secs, nanos) {
            Some(Timestamp { secs, nanos })
        } else {
            None
        }
    }

    /// Reads an RFC 3339 text (with any offset) as an instant.
    pub fn parse(text: &str) -> (r: Option<Timestamp>)
        ensures
            match r {
                Some(t) => rfc3339_parse(text@) == Some(t@),
                None => rfc3339_parse(text@) is None,
            },
    {
        match parse_rfc3339(text) {
            Some((secs, nanos)) => Some(Timestamp { secs, nanos }),
            None => None,
        }
    }

    /// Both stand for the same instant.
    pub fn same_instant(&self, other: &Timestamp) -> (r: bool)
        ensures
            r == (self@ == other@),
    {
        self.secs == other.secs && self.nanos == other.nanos
    }

    pub fn secs(&self) -> (r: i64)
        ensures
            r == self@.0,
    {
        self.secs
    }

    pub fn nanos(&self) -> (r: u32)
        ensures
            r == self@.1,
    {
        self.nanos
    }

    /// The RFC 3339 text of the instant, in UTC.
    pub fn to_rfc3339(&self) -> (r: String)
        ensures
            r@ == rfc3339_text(self@.0, self@.1),
    {
        proof {
            use_type_invariant(self);
        }
        format_rfc3339(self.secs, self.nanos)
    }
}

} // verus!
