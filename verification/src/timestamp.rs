//! Instants in time as plain integers, and the clock and date parser behind them.

use crate::text::optional_text;
use std::fmt::Write;
use vstd::prelude::*;

verus! {

/// An instant in UTC: whole seconds since 1970-01-01 00:00:00, and the
/// nanoseconds since that second began.
///
/// Instants are ordered by their seconds, then by their nanoseconds; `key`
/// folds both into one integer with the same order.
#[derive(Clone, Copy, Debug, PartialEq, Eq, Structural)]
pub struct Timestamp {
    pub secs: i64,
    pub nanos: u32,
}

impl Timestamp {
    /// One integer per instant, larger for later instants.
    pub open spec fn key(self) -> int {
        self.secs * 0x1_0000_0000 + self.nanos
    }

    /// Whether this instant is earlier than `other`.
    pub fn is_before(&self, other: &Timestamp) -> (b: bool)
        ensures
            b == (self.key() < other.key()),
    {
        self.secs < other.secs || (self.secs == other.secs && self.nanos < other.nanos)
    }
}

/// The instant that `text` denotes under the strftime-style `format`, as seconds
/// and nanoseconds; `None` where the text does not follow the format.
pub uninterp spec fn parsed_datetime(text: Seq<char>, format: Seq<char>) -> Option<(i64, u32)>;

/// `chrono::DateTime::parse_from_str`: reads a date, time and UTC offset from
/// `text` as `format` lays them out. The instant comes back as its UNIX
/// timestamp and sub-second nanoseconds; a text that does not parse gives `None`.
#[verifier::external_body]
pub(crate) fn parse_datetime(text: &str, format: &str) -> (r: Option<Timestamp>)
    ensures
        r == match parsed_datetime(text@, format@) {
            Some((secs, nanos)) => Some((Timestamp { secs, nanos })),
            None => None,
        },
{
    match chrono::DateTime::parse_from_str(text, format) {
        Ok(t) => Some(Timestamp { secs: t.timestamp(), nanos: t.timestamp_subsec_nanos() }),
        Err(_) => None,
    }
}

/// The text of the instant of `secs` seconds and `nanos` nanoseconds, in UTC,
/// under the strftime-style `format`; `None` where the calendar does not reach
/// the instant or the format is not valid.
pub uninterp spec fn formatted_datetime(secs: i64, nanos: u32, format: Seq<char>) -> Option<
    Seq<char>,
>;

/// `chrono::DateTime::from_timestamp` and `DateTime::format`: writes the
/// instant in UTC as `format` lays it out. An instant out of the calendar's
/// range and a format that cannot be written give `None`.
#[verifier::external_body]
pub(crate) fn format_datetime(t: Timestamp, format: &str) -> (r: Option<String>)
    ensures
        optional_text(r) == formatted_datetime(t.secs, t.nanos, format@),
{
    let time = chrono::DateTime::from_timestamp(t.secs, t.nanos)?;
    let mut text = String::new();
    write!(text, "{}", time.format(format)).ok()?;
    Some(text)
}

/// `chrono::Utc::now`: the current instant as the system clock reads it. Nothing
/// is claimed of the value. The call panics only where the clock reads a time
/// before 1970.
#[verifier::external_body]
pub(crate) fn current_time() -> (r: Timestamp) {
    let now = chrono::Utc::now();
    Timestamp { secs: now.timestamp(), nanos: now.timestamp_subsec_nanos() }
}

} // verus!
