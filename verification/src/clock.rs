//! The calendar: today's date and date arithmetic, both taken from `chrono`.
//! Dates travel through the library as `YYYY-MM-DD` strings.

use vstd::prelude::*;

verus! {

/// The date that lies `days` days before `date`, as `chrono` computes it:
/// `None` where `date` is no `YYYY-MM-DD` date or the result would leave the
/// range of dates that `chrono` represents.
pub uninterp spec fn date_minus_days(date: Seq<char>, days: i64) -> Option<Seq<char>>;

/// Today's date in the local time zone, formatted as `YYYY-MM-DD` by
/// `chrono::Local::now` and `DateTime::format`. It depends on the clock and
/// the time zone of the machine, so nothing is claimed of the result.
#[verifier::external_body]
pub(crate) fn today_date() -> (today: String) {
    chrono::Local::now().format("%Y-%m-%d").to_string()
}

/// The date `days` days before `date`, by `NaiveDate::checked_sub_signed`.
/// The date is read with `NaiveDate::parse_from_str` and written with
/// `NaiveDate::format`, both in the form `%Y-%m-%d`, and the days become a
/// span by `TimeDelta::try_days`; a step that fails gives `None`. The result
/// depends on the two arguments alone and is named `date_minus_days`.
#[verifier::external_body]
pub(crate) fn days_before(date: &str, days: i64) -> (r: Option<String>)
    ensures
        match r {
            Some(earlier) => date_minus_days(date@, days) == Some(earlier@),
            None => date_minus_days(date@, days) is None,
        },
{
    let start = chrono::NaiveDate::parse_from_str(date, "%Y-%m-%d").ok()?;
    let span = chrono::TimeDelta::try_days(days)?;
    let earlier = start.checked_sub_signed(span)?;
    Some(earlier.format("%Y-%m-%d").to_string())
}

} // verus!
