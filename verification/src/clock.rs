//! Spans of time, counted in whole nanoseconds, and the calendar.

use vstd::prelude::*;

use crate::file_layout::FOLDER_STAMP;
use crate::text::opt_text;
use crate::views::history::ROW_STAMP;

verus! {

/// A span of time. Also used for monotonic readings: the span since some fixed
/// start.
#[derive(Debug, Clone, Copy, PartialEq, Eq, Structural)]
pub struct Duration {
    pub nanos: u128,
}

impl Duration {
    pub fn from_nanos(nanos: u128) -> (d: Self)
        ensures
            d.nanos == nanos,
    {
        Duration { nanos }
    }

    pub fn from_millis(millis: u64) -> (d: Self)
        ensures
            d.nanos == millis * 1_000_000,
    {
        Duration { nanos: millis as u128 * 1_000_000 }
    }

    pub fn from_secs(secs: u64) -> (d: Self)
        ensures
            d.nanos == secs * 1_000_000_000,
    {
        Duration { nanos: secs as u128 * 1_000_000_000 }
    }

    /// The whole seconds in the span.
    pub fn as_secs(self) -> (secs: u128)
        ensures
            secs == self.nanos as int / 1_000_000_000,
    {
        self.nanos / 1_000_000_000
    }

    /// The whole milliseconds in the span.
    pub fn as_millis(self) -> (millis: u128)
        ensures
            millis == self.nanos as int / 1_000_000,
    {
        self.nanos / 1_000_000
    }

    pub open spec fn minus(self, earlier: Duration) -> Duration {
        Duration {
            nanos: if self.nanos >= earlier.nanos {
                (self.nanos - earlier.nanos) as u128
            } else {
                0
            },
        }
    }

    /// The span from `earlier` to this reading; nothing if it lies ahead.
    pub fn saturating_sub(self, earlier: Duration) -> (d: Self)
        ensures
            d == self.minus(earlier),
    {
        if self.nanos >= earlier.nanos {
            Duration { nanos: self.nanos - earlier.nanos }
        } else {
            Duration { nanos: 0 }
        }
    }

    pub open spec fn plus(self, other: Duration) -> Duration {
        Duration {
            nanos: if self.nanos + other.nanos <= u128::MAX {
                (self.nanos + other.nanos) as u128
            } else {
                u128::MAX
            },
        }
    }

    /// Both spans end to end, capped at what the counter holds.
    pub fn saturating_add(self, other: Duration) -> (d: Self)
        ensures
            d == self.plus(other),
    {
        if other.nanos <= u128::MAX - self.nanos {
            Duration { nanos: self.nanos + other.nanos }
        } else {
            Duration { nanos: u128::MAX }
        }
    }
}

/// How long after `earlier` the instant `later` is, both in nanoseconds since
/// the Unix epoch; nothing if it is not after it.
pub open spec fn span(earlier: int, later: int) -> int {
    if later > earlier {
        later - earlier
    } else {
        0
    }
}

pub fn span_between(earlier: i128, later: i128) -> (d: Duration)
    ensures
        d.nanos == span(earlier as int, later as int),
{
    if later <= earlier {
        Duration { nanos: 0 }
    } else if earlier >= 0 || later < 0 {
        Duration { nanos: (later - earlier) as u128 }
    } else {
        // Either side of the epoch: the two distances to it.
        Duration { nanos: later as u128 + (-(earlier + 1)) as u128 + 1 }
    }
}

/// `time::OffsetDateTime::now_utc`, in nanoseconds since the Unix epoch. Nothing
/// is known of the time.
#[verifier::external_body]
pub(crate) fn now_utc() -> (nanos: i128) {
    time::OffsetDateTime::now_utc().unix_timestamp_nanos()
}

/// The last second of the year 9999, counted from the Unix epoch.
pub const LAST_CALENDAR_SECOND: i128 = 253_402_300_799;

/// An instant, in nanoseconds since the Unix epoch, at an offset from UTC in
/// seconds, written as a format description says; nothing if the calendar does
/// not reach it.
pub uninterp spec fn calendar_text(description: Seq<char>, nanos: int, offset: int) -> Option<
    Seq<char>,
>;

/// `time::OffsetDateTime::format` of the instant at the offset. From 1970 to the
/// year 9999 the stamp of a folder in UTC has eight digits, a hyphen and six
/// digits; which digits they are is not stated.
#[verifier::external_body]
pub(crate) fn formatted(description: &str, nanos: i128, offset: i32) -> (text: Option<String>)
    requires
        description@ == FOLDER_STAMP@ || description@ == ROW_STAMP@,
    ensures
        opt_text(text) == calendar_text(description@, nanos as int, offset as int),
        description@ == FOLDER_STAMP@ && offset == 0 && 0 <= nanos && nanos as int / 1_000_000_000
            <= LAST_CALENDAR_SECOND ==> text is Some && (text->0)@.len() == 15 && (text->0)@[8]
            == '-',
{
    let items = time::format_description::parse_borrowed::<1>(description).ok()?;
    let offset = time::UtcOffset::from_whole_seconds(offset).ok()?;
    let instant = time::OffsetDateTime::from_unix_timestamp_nanos(nanos).ok()?;
    instant.checked_to_offset(offset)?.format(&items).ok()
}

/// The span between two readings is their difference, and nothing if the second is
/// not after the first; two spans add up.
pub proof fn spans_are_differences(a: Duration, b: Duration, earlier: int, later: int)
    ensures
        a.nanos >= b.nanos ==> a.minus(b).nanos == a.nanos - b.nanos,
        a.nanos < b.nanos ==> a.minus(b).nanos == 0,
        a.nanos + b.nanos <= u128::MAX ==> a.plus(b).nanos == a.nanos + b.nanos,
        later >= earlier ==> span(earlier, later) == later - earlier,
        later < earlier ==> span(earlier, later) == 0,
{
}

} // verus!
