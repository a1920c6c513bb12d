use chrono::Datelike;
use chrono::Timelike;
use vstd::prelude::*;

verus! {

/// The text `YYYY-MM-DD HH:MM:SS` (UTC) for a count of seconds since the Unix
/// epoch, or none where the instant is outside the representable range.
pub uninterp spec fn timestamp_text(secs: int) -> Option<Seq<char>>;

/// The seconds since the Unix epoch of a UTC date-time written
/// `YYYY-MM-DD HH:MM:SS`, or none where the text does not parse.
pub uninterp spec fn parsed_timestamp(text: Seq<char>) -> Option<int>;

/// The seconds since midnight of a time of day written `HH:MM:SS`, or none
/// where the text does not parse.
pub uninterp spec fn parsed_time_of_day(text: Seq<char>) -> Option<int>;

/// The day number (1 for 0001-01-01) of a date written `YYYY-MM-DD`, or none
/// where the text does not parse.
pub uninterp spec fn parsed_date(text: Seq<char>) -> Option<int>;

/// Relies on chrono's `DateTime::<Utc>::from_timestamp` and `format`: the
/// text of an instant depends on the instant alone.
#[verifier::external_body]
pub(crate) fn format_timestamp(secs: i64) -> (r: Option<String>)
    ensures
        match r {
            Some(s) => timestamp_text(secs as int) == Some(s@),
            None => timestamp_text(secs as int) is None,
        },
{
    chrono::DateTime::from_timestamp(secs, 0).map(|d| d.format("%Y-%m-%d %H:%M:%S").to_string())
}

/// Relies on chrono's `NaiveDateTime::parse_from_str` and
/// `NaiveDateTime::and_utc().timestamp()`: the result depends on the text alone.
#[verifier::external_body]
pub(crate) fn parse_timestamp(text: &str) -> (r: Option<i64>)
    ensures
        match r {
            Some(t) => parsed_timestamp(text@) == Some(t as int),
            None => parsed_timestamp(text@) is None,
        },
{
    chrono::NaiveDateTime::parse_from_str(text, "%Y-%m-%d %H:%M:%S").ok().map(|d| d.and_utc().timestamp())
}

/// Relies on chrono's `NaiveTime::parse_from_str` and
/// `Timelike::num_seconds_from_midnight`: the result depends on the text alone.
#[verifier::external_body]
pub(crate) fn parse_time_of_day(text: &str) -> (r: Option<u32>)
    ensures
        match r {
            Some(t) => parsed_time_of_day(text@) == Some(t as int),
            None => parsed_time_of_day(text@) is None,
        },
{
    chrono::NaiveTime::parse_from_str(text, "%H:%M:%S").ok().map(|t| t.num_seconds_from_midnight())
}

/// Relies on chrono's `NaiveDate::parse_from_str` and
/// `Datelike::num_days_from_ce`: the result depends on the text alone.
#[verifier::external_body]
pub(crate) fn parse_date(text: &str) -> (r: Option<i32>)
    ensures
        match r {
            Some(d) => parsed_date(text@) == Some(d as int),
            None => parsed_date(text@) is None,
        },
{
    chrono::NaiveDate::parse_from_str(text, "%Y-%m-%d").ok().map(|d| d.num_days_from_ce())
}

} // verus!
