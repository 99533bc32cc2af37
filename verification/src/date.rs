//! Timestamps of the wire format. A [`Date`] is a UTC instant held as whole
//! seconds since the Unix epoch plus a nanosecond part; its text form is
//! RFC 3339, written and read through chrono.

use vstd::prelude::*;
use crate::chars::is_ws;
use crate::chars::chars_to_string;

verus! {

/// A non-empty run of characters holding no blank and no `;`: safe to embed
/// as one field of a log line.
pub open spec fn token_like(s: Seq<char>) -> bool {
    s.len() > 0 && forall|i: int| 0 <= i < s.len() ==> !is_ws(#[trigger] s[i]) && s[i] != ';'
}

/// What chrono's `DateTime::<Utc>::to_rfc3339` returns for the UTC instant
/// with the given whole seconds since the epoch and nanosecond part.
pub uninterp spec fn rfc3339_of(secs: i64, nanos: u32) -> Seq<char>;

/// What chrono's `DateTime::parse_from_rfc3339` yields on a text: the UTC
/// seconds and nanosecond part of the parsed instant, or `None` when the
/// text does not parse.
pub uninterp spec fn rfc3339_parse(s: Seq<char>) -> Option<(i64, u32)>;

/// The timestamps the codec accepts: within the four-digit years RFC 3339
/// can write (0000-01-01T00:00:00 through 9999-12-31T23:59:59), with a
/// nanosecond part below one second, or below two seconds on the last second
/// of a minute (chrono's leap-second representation).
pub open spec fn date_valid(secs: i64, nanos: u32) -> bool {
    &&& -62_167_219_200 <= secs <= 253_402_300_799
    &&& (nanos < 1_000_000_000 || (nanos < 2_000_000_000 && secs % 60 == 59))
}

/// Executable test for `date_valid`. The leap-second condition asks for the
/// remainder in the euclidean sense, so negative timestamps are shifted by a
/// whole number of minutes (the width of the valid range) before taking `%`.
pub fn date_valid_check(secs: i64, nanos: u32) -> (r: bool)
    ensures
        r == date_valid(secs, nanos),
{
    if secs < -62_167_219_200 || secs > 253_402_300_799 {
        return false;
    }
    if nanos < 1_000_000_000 {
        return true;
    }
    if nanos >= 2_000_000_000 {
        return false;
    }
    let shifted = secs + 62_167_219_200;
    proof {
        assert(shifted % 60 == secs as int % 60) by {
            vstd::arithmetic::div_mod::lemma_mod_multiples_vanish(
                1_036_120_320,
                secs as int,
                60,
            );
        }
    }
    shifted % 60 == 59
}

/// Relies on chrono's `DateTime::<Utc>::from_timestamp` and `to_rfc3339`:
/// a timestamp within `date_valid` converts (per `from_timestamp`'s
/// documented range rules), formats as an RFC 3339 text that holds no blank
/// and no `;`, and chrono's own RFC 3339 parser reads that text back as
/// exactly the seconds and nanoseconds it was written from.
#[verifier::external_body]
pub(crate) fn rfc3339_format(secs: i64, nanos: u32) -> (r: String)
    requires
        date_valid(secs, nanos),
    ensures
        r@ == rfc3339_of(secs, nanos),
        token_like(r@),
        rfc3339_parse(r@) == Some((secs, nanos)),
{
    let dt = chrono::DateTime::<chrono::Utc>::from_timestamp(secs, nanos)
        .expect("timestamp within the RFC 3339 range");
    dt.to_rfc3339()
}

/// Relies on chrono's `DateTime::parse_from_rfc3339`, `timestamp` and
/// `timestamp_subsec_nanos`: the outcome is a pure function of the text.
#[verifier::external_body]
pub(crate) fn rfc3339_parse_text(s: &str) -> (r: Option<(i64, u32)>)
    ensures
        r == rfc3339_parse(s@),
{
    match chrono::DateTime::parse_from_rfc3339(s) {
        Ok(d) => {
            let utc = d.with_timezone(&chrono::Utc);
            Some((utc.timestamp(), utc.timestamp_subsec_nanos()))
        },
        Err(_) => None,
    }
}

/// A UTC instant: whole seconds since the Unix epoch and a nanosecond part.
#[derive(Debug, Clone, Copy, PartialEq, Eq, Structural)]
pub struct Date {
    pub secs: i64,
    pub nanos: u32,
}

/// The reading of a timestamp text: it must parse as RFC 3339 and the
/// instant must lie within the range the codec can write back.
pub open spec fn spec_parse_date(s: Seq<char>) -> Option<Date> {
    match rfc3339_parse(s) {
        Some((secs, nanos)) => if date_valid(secs, nanos) {
            Some(Date { secs, nanos })
        } else {
            None
        },
        None => None,
    }
}

impl Date {
    /// The timestamps the wire format can carry.
    pub open spec fn valid(self) -> bool {
        date_valid(self.secs, self.nanos)
    }

    /// A timestamp from its parts, when the wire format can carry it.
    pub fn new(secs: i64, nanos: u32) -> (r: Option<Date>)
        ensures
            date_valid(secs, nanos) ==> r == Some(Date { secs, nanos }),
            !date_valid(secs, nanos) ==> r is None,
    {
        if date_valid_check(secs, nanos) {
            Some(Date { secs, nanos })
        } else {
            None
        }
    }

    /// The canonical RFC 3339 text of this timestamp.
    pub fn encode(&self) -> (r: String)
        requires
            self.valid(),
        ensures
            r@ == rfc3339_of(self.secs, self.nanos),
            token_like(r@),
            rfc3339_parse(r@) == Some((self.secs, self.nanos)),
    {
        rfc3339_format(self.secs, self.nanos)
    }

    /// Reads a timestamp from its RFC 3339 text.
    pub fn from_str(v: &Vec<char>) -> (r: Option<Date>)
        ensures
            r == spec_parse_date(v@),
            r matches Some(d) ==> d.valid(),
    {
        let s = chars_to_string(v);
        match rfc3339_parse_text(s.as_str()) {
            Some((secs, nanos)) => {
                if date_valid_check(secs, nanos) {
                    Some(Date { secs, nanos })
                } else {
                    None
                }
            },
            None => None,
        }
    }
}

} // verus!
