//! Changelog entries written `author:content:yyyy-mm-dd`.

use vstd::prelude::*;
use chrono::Datelike;
use crate::error::{ErrorModel, SpecError};
use crate::text::{find_all, lemma_positions_bounds, positions_of, slice_chars};

verus! {

/// The only accepted date layout: four-digit year, month, day.
pub const DATE_FORMAT: &'static str = "%Y-%m-%d";

/// A proleptic Gregorian calendar date.
#[derive(Clone, Copy, Debug, PartialEq, Eq, Structural)]
pub struct CalendarDate {
    pub year: i32,
    pub month: u32,
    pub day: u32,
}

pub open spec fn is_leap_year(y: int) -> bool {
    (y % 4 == 0 && y % 100 != 0) || y % 400 == 0
}

pub open spec fn days_in_month(y: int, m: int) -> int {
    if m == 2 {
        if is_leap_year(y) {
            29
        } else {
            28
        }
    } else if m == 4 || m == 6 || m == 9 || m == 11 {
        30
    } else {
        31
    }
}

/// A real date in the range of years the calendar library represents.
pub open spec fn valid_date(y: int, m: int, d: int) -> bool {
    -262143 <= y <= 262142 && 1 <= m <= 12 && 1 <= d <= days_in_month(y, m)
}

/// Leap years counted up to year `y`, shifted by a constant; only differences are used.
pub open spec fn leap_years_through(y: int) -> int {
    y / 4 - y / 100 + y / 400
}

/// Days from 1970-01-01 to the first day of year `y`.
pub open spec fn days_before_year(y: int) -> int {
    365 * (y - 1970) + leap_years_through(y - 1) - leap_years_through(1969)
}

/// Days from the first day of year `y` to the first day of month `m`.
pub open spec fn days_before_month(y: int, m: int) -> int {
    let common: int = if m == 1 {
        0
    } else if m == 2 {
        31
    } else if m == 3 {
        59
    } else if m == 4 {
        90
    } else if m == 5 {
        120
    } else if m == 6 {
        151
    } else if m == 7 {
        181
    } else if m == 8 {
        212
    } else if m == 9 {
        243
    } else if m == 10 {
        273
    } else if m == 11 {
        304
    } else {
        334
    };
    let extra: int = if m > 2 && is_leap_year(y) {
        1
    } else {
        0
    };
    common + extra
}

/// Days from 1970-01-01 to the given date; negative before it.
pub open spec fn days_since_epoch(y: int, m: int, d: int) -> int {
    days_before_year(y) + days_before_month(y, m) + d - 1
}

/// Seconds from the Unix epoch to midnight UTC of the given date.
pub open spec fn midnight_seconds(y: int, m: int, d: int) -> int {
    86400 * days_since_epoch(y, m, d)
}

impl CalendarDate {
    pub open spec fn wf(&self) -> bool {
        valid_date(self.year as int, self.month as int, self.day as int)
    }
}

/// What the calendar library reads from `s` under the layout `format`, as year, month, day.
pub uninterp spec fn date_parsed(s: Seq<char>, format: Seq<char>) -> Option<(int, int, int)>;

/// Relies on chrono's `NaiveDate::parse_from_str`: the outcome depends on the text and the
/// layout alone, and a parsed `NaiveDate` is always a real date within chrono's year range.
#[verifier::external_body]
fn parse_date(s: &str, format: &str) -> (r: Option<CalendarDate>)
    ensures
        match r {
            Some(d) => date_parsed(s@, format@) == Some(
                (d.year as int, d.month as int, d.day as int),
            ) && d.wf(),
            None => date_parsed(s@, format@) is None,
        },
{
    match chrono::NaiveDate::parse_from_str(s, format) {
        Ok(d) => Some(CalendarDate { year: d.year(), month: d.month(), day: d.day() }),
        Err(_) => None,
    }
}

/// Relies on chrono's `NaiveDate::from_ymd_opt`, `and_hms_opt` and `DateTime::timestamp`:
/// the Unix time of midnight UTC on a valid date.
#[verifier::external_body]
fn midnight_timestamp(d: &CalendarDate) -> (r: i64)
    requires
        d.wf(),
    ensures
        r as int == midnight_seconds(d.year as int, d.month as int, d.day as int),
{
    chrono::NaiveDate::from_ymd_opt(d.year, d.month, d.day).unwrap().and_hms_opt(0, 0, 0).unwrap().and_utc().timestamp()
}

/// One changelog record.
#[derive(Debug)]
pub struct ChangelogEntry {
    pub author: String,
    pub content: String,
    /// Unix time of midnight UTC on the entry's date.
    pub timestamp: i64,
}

pub struct ChangelogModel {
    pub author: Seq<char>,
    pub content: Seq<char>,
    pub timestamp: int,
}

impl View for ChangelogEntry {
    type V = ChangelogModel;

    open spec fn view(&self) -> ChangelogModel {
        ChangelogModel {
            author: self.author@,
            content: self.content@,
            timestamp: self.timestamp as int,
        }
    }
}

/// The entry a changelog string denotes: three `:`-separated parts, the last a date
/// under [`DATE_FORMAT`].
pub open spec fn changelog_result(s: Seq<char>) -> Result<ChangelogModel, ErrorModel> {
    let p = positions_of(s, ':');
    if p.len() != 2 {
        Err(ErrorModel::MalformedChangelogEntry { raw: s })
    } else {
        match date_parsed(s.skip(p[1] + 1), DATE_FORMAT@) {
            None => Err(ErrorModel::InvalidChangelogDate { raw: s }),
            Some((y, m, d)) => Ok(
                ChangelogModel {
                    author: s.take(p[0]),
                    content: s.subrange(p[0] + 1, p[1]),
                    timestamp: midnight_seconds(y, m, d),
                },
            ),
        }
    }
}

/// Builds the entry for an author, a text and an already parsed date.
pub fn changelog_entry_from_date(author: &str, content: &str, date: &CalendarDate) -> (r:
    ChangelogEntry)
    requires
        date.wf(),
    ensures
        r.author@ == author@,
        r.content@ == content@,
        r.timestamp as int == midnight_seconds(date.year as int, date.month as int, date.day as int),
{
    ChangelogEntry {
        author: author.to_owned(),
        content: content.to_owned(),
        timestamp: midnight_timestamp(date),
    }
}

/// Parses one `author:content:yyyy-mm-dd` string.
pub fn parse_changelog_entry(raw: &str) -> (r: Result<ChangelogEntry, SpecError>)
    ensures
        match r {
            Ok(entry) => changelog_result(raw@) == Ok::<_, ErrorModel>(entry@),
            Err(e) => changelog_result(raw@) == Err::<ChangelogModel, _>(e@),
        },
{
    let colons = find_all(raw, ':');
    proof {
        lemma_positions_bounds(raw@, ':');
        assert(colons@.len() == positions_of(raw@, ':').len());
    }
    if colons.len() != 2 {
        return Err(SpecError::MalformedChangelogEntry { raw: raw.to_owned() });
    }
    let n = raw.unicode_len();
    let first = colons[0];
    let second = colons[1];
    assert(first as int == positions_of(raw@, ':')[0]);
    assert(second as int == positions_of(raw@, ':')[1]);
    let author = slice_chars(raw, 0, first);
    let content = slice_chars(raw, first + 1, second);
    let date_text = slice_chars(raw, second + 1, n);
    assert(raw@.subrange(0, first as int) =~= raw@.take(first as int));
    assert(raw@.subrange(second + 1, n as int) =~= raw@.skip(second + 1));
    match parse_date(date_text.as_str(), DATE_FORMAT) {
        None => Err(SpecError::InvalidChangelogDate { raw: raw.to_owned() }),
        Some(date) => Ok(changelog_entry_from_date(author.as_str(), content.as_str(), &date)),
    }
}

} // verus!
