//! Calendar dates, as the day number that `chrono` counts from the common era.
use chrono::Datelike;
use vstd::prelude::*;

verus! {

/// `chrono` can represent the day number `days` (from the common era, 0001-01-01 being 1).
pub uninterp spec fn date_in_range(days: int) -> bool;

/// Day number of `chrono::NaiveDate::from_ymd_opt(year, month, day)`, if valid.
pub uninterp spec fn date_from_ymd(year: int, month: int, day: int) -> Option<int>;

/// Day number of `chrono::NaiveDate::parse_from_str(s, format)`, if it parses.
pub uninterp spec fn date_parse(s: Seq<char>, format: Seq<char>) -> Option<int>;

/// Text of `chrono::NaiveDate::format("%Y/%m/%d")` of the day number.
pub uninterp spec fn date_format_ymd(days: int) -> Seq<char>;

/// Calendar date. Dates are ordered by their day number.
#[derive(Debug, PartialEq, Eq, Structural, Clone, Copy, Hash, PartialOrd, Ord)]
pub struct Date {
    days: i32,
}

impl View for Date {
    type V = int;

    closed spec fn view(&self) -> int {
        self.days as int
    }
}

impl Date {
    #[verifier::type_invariant]
    spec fn inv(self) -> bool {
        date_in_range(self.days as int)
    }

    /// Date of the given year, month and day, if it exists.
    pub fn from_ymd(year: i32, month: u32, day: u32) -> (r: Option<Date>)
        ensures
            match r {
                Some(d) => date_from_ymd(year as int, month as int, day as int) == Some(d@),
                None => date_from_ymd(year as int, month as int, day as int) is None,
            },
    {
        external_from_ymd(year, month, day)
    }

    /// Parses the date in the given `chrono` format.
    pub fn parse(s: &str, format: &str) -> (r: Option<Date>)
        ensures
            match r {
                Some(d) => date_parse(s@, format@) == Some(d@),
                None => date_parse(s@, format@) is None,
            },
    {
        external_parse(s, format)
    }

    /// Formats the date as `%Y/%m/%d`, such as `2024/08/01`.
    pub fn format_ymd(&self) -> (r: String)
        ensures
            r@ == date_format_ymd(self@),
    {
        external_format_ymd(self)
    }

    /// `self < other`.
    pub fn lt(&self, other: &Date) -> (r: bool)
        ensures
            r == (self@ < other@),
    {
        self.days < other.days
    }

    /// `self <= other`.
    pub fn le(&self, other: &Date) -> (r: bool)
        ensures
            r == (self@ <= other@),
    {
        self.days <= other.days
    }

    /// `self == other`.
    pub fn same(&self, other: &Date) -> (r: bool)
        ensures
            r == (self@ == other@),
    {
        self.days == other.days
    }

    /// Number of days from `other` to `self`.
    pub fn days_since(&self, other: &Date) -> (r: i64)
        ensures
            r == self@ - other@,
    {
        self.days as i64 - other.days as i64
    }
}

/// `chrono::NaiveDate::from_ymd_opt`.
#[verifier::external_body]
fn external_from_ymd(year: i32, month: u32, day: u32) -> (r: Option<Date>)
    ensures
        r matches Some(d) ==> date_in_range(d@),
        match r {
            Some(d) => date_from_ymd(year as int, month as int, day as int) == Some(d@),
            None => date_from_ymd(year as int, month as int, day as int) is None,
        },
{
    let d = chrono::NaiveDate::from_ymd_opt(year, month, day)?;
    Some(Date { days: d.num_days_from_ce() })
}

/// `chrono::NaiveDate::parse_from_str`.
#[verifier::external_body]
fn external_parse(s: &str, format: &str) -> (r: Option<Date>)
    ensures
        r matches Some(d) ==> date_in_range(d@),
        match r {
            Some(d) => date_parse(s@, format@) == Some(d@),
            None => date_parse(s@, format@) is None,
        },
{
    let d = chrono::NaiveDate::parse_from_str(s, format).ok()?;
    Some(Date { days: d.num_days_from_ce() })
}

/// `chrono::NaiveDate::format` with the format `%Y/%m/%d`, printed; the format is a valid
/// one, so printing does not panic. The day number is in chrono's range by the type
/// invariant of [`Date`].
#[verifier::external_body]
fn external_format_ymd(d: &Date) -> (r: String)
    ensures
        r@ == date_format_ymd(d@),
{
    chrono::NaiveDate::from_num_days_from_ce_opt(d.days).unwrap().format("%Y/%m/%d").to_string()
}

} // verus!
