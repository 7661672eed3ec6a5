//! Calendar dates and instants counted from the canonical epoch, midnight
//! of 1 January 2000, with their texts.

use std::fmt::Write;
use vstd::prelude::*;
use vstd::string::*;

verus! {

/// Days from 1 January 1970 to 1 January 2000.
pub const EPOCH_OFFSET_DAYS: i32 = 10_957;

/// Seconds from 1 January 1970 to 1 January 2000.
pub const PG_EPOCH_SEC: i64 = 946_684_800;

/// Microseconds from 1 January 1970 to 1 January 2000.
pub const PG_EPOCH_MS: i64 = 946_684_800_000_000;

/// The number that the proleptic Gregorian calendar gives 1 January 2000,
/// 31 December of the year 1 BCE being day 0.
pub const EPOCH_DAY_FROM_CE: i32 = 730_120;

/// Microseconds in a second.
pub const MICROS_PER_SEC: i64 = 1_000_000;

/// The least finite instant, in microseconds from the canonical epoch.
pub const MIN_TIMESTAMP_USEC: i64 = -211_813_488_000_000_000;

/// The end of the finite instants, in microseconds from the canonical epoch.
pub const END_TIMESTAMP_USEC: i64 = 9_223_371_331_200_000_000;

/// A calendar date: days since 1 January 2000.
#[derive(Debug, Clone, Copy, PartialEq, Eq, Structural)]
pub struct Date {
    pub days: i32,
}

/// An instant: microseconds since midnight of 1 January 2000.
#[derive(Debug, Clone, Copy, PartialEq, Eq, Structural)]
pub struct Timestamp {
    pub micros: i64,
}

/// What `chrono` writes for the day numbered `days_from_ce` under a format;
/// `None` where it has no such day or cannot write it.
pub uninterp spec fn formatted_date(days_from_ce: int, format: Seq<char>) -> Option<Seq<char>>;

/// The day, numbered from the common era, that `chrono` reads in a text
/// under a format; `None` where it rejects the text.
pub uninterp spec fn parsed_date(text: Seq<char>, format: Seq<char>) -> Option<int>;

/// What `chrono` writes for the instant `secs` seconds and `nanos`
/// nanoseconds after the Unix epoch under a format; `None` where it has no
/// such instant or cannot write it.
pub uninterp spec fn formatted_instant(secs: int, nanos: int, format: Seq<char>) -> Option<
    Seq<char>,
>;

/// The whole seconds after the Unix epoch of the instant that `chrono`
/// reads in a text under a format; `None` where it rejects the text.
pub uninterp spec fn parsed_instant(text: Seq<char>, format: Seq<char>) -> Option<int>;

/// Writes a day of the proleptic Gregorian calendar as text.
///
/// Calls `chrono::NaiveDate::from_num_days_from_ce_opt` and writes the date
/// with `NaiveDate::format`. The contract only names the outcome: the same
/// day and format always give the same text, or no text.
#[verifier::external_body]
pub(crate) fn chrono_format_date(days_from_ce: i32, format: &str) -> (r: Option<String>)
    ensures
        match r {
            Some(s) => formatted_date(days_from_ce as int, format@) == Some(s@),
            None => formatted_date(days_from_ce as int, format@) is None,
        },
{
    let date = chrono::NaiveDate::from_num_days_from_ce_opt(days_from_ce)?;
    let mut out = String::new();
    write!(out, "{}", date.format(format)).ok()?;
    Some(out)
}

/// Reads a day of the proleptic Gregorian calendar from text.
///
/// Calls `chrono::NaiveDate::parse_from_str` and hands out the day's number
/// as `Datelike::num_days_from_ce` gives it. The contract only names the
/// outcome.
#[verifier::external_body]
pub(crate) fn chrono_parse_date(text: &str, format: &str) -> (r: Option<i32>)
    ensures
        match r {
            Some(d) => parsed_date(text@, format@) == Some(d as int),
            None => parsed_date(text@, format@) is None,
        },
{
    let date = chrono::NaiveDate::parse_from_str(text, format).ok()?;
    Some(chrono::Datelike::num_days_from_ce(&date))
}

/// Writes an instant as text.
///
/// Calls `chrono::DateTime::from_timestamp` and writes the instant, taken
/// in UTC, with `NaiveDateTime::format`. The contract only names the
/// outcome.
#[verifier::external_body]
pub(crate) fn chrono_format_instant(secs: i64, nanos: u32, format: &str) -> (r: Option<String>)
    ensures
        match r {
            Some(s) => formatted_instant(secs as int, nanos as int, format@) == Some(s@),
            None => formatted_instant(secs as int, nanos as int, format@) is None,
        },
{
    let instant = chrono::DateTime::from_timestamp(secs, nanos)?;
    let mut out = String::new();
    write!(out, "{}", instant.naive_utc().format(format)).ok()?;
    Some(out)
}

/// Reads an instant from text.
///
/// Calls `chrono::NaiveDateTime::parse_from_str`, takes the result in UTC
/// and hands out `DateTime::timestamp`, its whole seconds after the Unix
/// epoch. The contract only names the outcome.
#[verifier::external_body]
pub(crate) fn chrono_parse_instant(text: &str, format: &str) -> (r: Option<i64>)
    ensures
        match r {
            Some(s) => parsed_instant(text@, format@) == Some(s as int),
            None => parsed_instant(text@, format@) is None,
        },
{
    let instant = chrono::NaiveDateTime::parse_from_str(text, format).ok()?;
    Some(instant.and_utc().timestamp())
}

/// The format of a date's text: year, month and day.
pub open spec fn date_format() -> Seq<char> {
    "%Y-%m-%d"@
}

/// The format of an instant that falls on a whole second.
pub open spec fn instant_format() -> Seq<char> {
    "%Y-%m-%d %H:%M:%S"@
}

/// The format of an instant with a fraction of a second, in six digits.
pub open spec fn instant_fraction_format() -> Seq<char> {
    "%Y-%m-%d %H:%M:%S%.6f"@
}

impl Date {
    /// The day's text without quotes, `None` where the calendar cannot
    /// write the day.
    pub open spec fn spec_plain_text(self) -> Option<Seq<char>> {
        if self.days + EPOCH_DAY_FROM_CE <= i32::MAX {
            formatted_date(self.days + EPOCH_DAY_FROM_CE, date_format())
        } else {
            None
        }
    }

    /// The day as year, month and day of the month, without quotes.
    pub fn plain_text(&self) -> (r: Option<String>)
        ensures
            match r {
                Some(s) => self.spec_plain_text() == Some(s@),
                None => self.spec_plain_text() is None,
            },
    {
        if self.days > i32::MAX - EPOCH_DAY_FROM_CE {
            return None;
        }
        chrono_format_date(self.days + EPOCH_DAY_FROM_CE, "%Y-%m-%d")
    }
}

impl Timestamp {
    /// Microseconds after the Unix epoch.
    pub open spec fn spec_unix_micros(self) -> int {
        self.micros + PG_EPOCH_MS
    }

    /// Whole seconds after the Unix epoch, rounded towards the past.
    pub open spec fn spec_unix_secs(self) -> int {
        self.spec_unix_micros() / (MICROS_PER_SEC as int)
    }

    /// The microseconds that follow the whole second.
    pub open spec fn spec_subsec_micros(self) -> int {
        self.spec_unix_micros() % (MICROS_PER_SEC as int)
    }

    /// Whether the instant is one that the engine counts as valid: a finite
    /// one of its range, or one of the two infinities.
    pub open spec fn spec_is_valid(self) -> bool {
        self.micros == i64::MIN || self.micros == i64::MAX || (MIN_TIMESTAMP_USEC <= self.micros
            <= END_TIMESTAMP_USEC)
    }

    /// Whether the instant is one that the engine counts as valid.
    pub fn is_valid(&self) -> (r: bool)
        ensures
            r == self.spec_is_valid(),
    {
        self.micros == i64::MIN || self.micros == i64::MAX || (MIN_TIMESTAMP_USEC <= self.micros
            && self.micros <= END_TIMESTAMP_USEC)
    }

    /// Whole seconds after the Unix epoch and the microseconds that follow;
    /// `None` where the count from the Unix epoch does not fit 64 bits.
    pub fn unix_parts(&self) -> (r: Option<(i64, u32)>)
        ensures
            match r {
                Some((secs, sub)) => secs == self.spec_unix_secs() && sub
                    == self.spec_subsec_micros() && sub < 1_000_000 && self.spec_unix_micros()
                    <= i64::MAX,
                None => self.spec_unix_micros() > i64::MAX,
            },
    {
        if self.micros > i64::MAX - PG_EPOCH_MS {
            return None;
        }
        let u: i64 = self.micros + PG_EPOCH_MS;
        if u >= 0 {
            Some((u / MICROS_PER_SEC, (u % MICROS_PER_SEC) as u32))
        } else {
            let n: i64 = -(u + 1);
            let q: i64 = n / MICROS_PER_SEC;
            let m: i64 = n % MICROS_PER_SEC;
            Some((-q - 1, (MICROS_PER_SEC - 1 - m) as u32))
        }
    }

    /// The instant's text without quotes: date and time of day, and six
    /// digits of fraction where the instant is not on a whole second.
    pub open spec fn spec_plain_text(self) -> Option<Seq<char>> {
        if self.spec_unix_micros() > i64::MAX {
            None
        } else if self.spec_subsec_micros() == 0 {
            formatted_instant(self.spec_unix_secs(), 0, instant_format())
        } else {
            formatted_instant(
                self.spec_unix_secs(),
                self.spec_subsec_micros() * 1000,
                instant_fraction_format(),
            )
        }
    }

    /// The instant's text without quotes.
    pub fn plain_text(&self) -> (r: Option<String>)
        ensures
            match r {
                Some(s) => self.spec_plain_text() == Some(s@),
                None => self.spec_plain_text() is None,
            },
    {
        match self.unix_parts() {
            None => None,
            Some((secs, sub)) => {
                if sub == 0 {
                    chrono_format_instant(secs, 0, "%Y-%m-%d %H:%M:%S")
                } else {
                    chrono_format_instant(secs, sub * 1000, "%Y-%m-%d %H:%M:%S%.6f")
                }
            },
        }
    }
}

} // verus!
