//! Calendar arithmetic: month lengths and the trailing twelve-month window.
use chrono::Datelike;
use vstd::prelude::*;

verus! {

/// Length of `month` in `year`, with a leap year every fourth year and no
/// century exception. Any month number outside April, June, September,
/// November and February counts 31 days.
pub open spec fn days_in_month_spec(month: int, year: int) -> int {
    if month == 4 || month == 6 || month == 9 || month == 11 {
        30
    } else if month == 2 {
        if year % 4 == 0 {
            29
        } else {
            28
        }
    } else {
        31
    }
}

/// Number of days in `month` of `year` (simplified leap rule).
pub fn month_days(month: u32, year: i32) -> (r: u32)
    ensures
        r == days_in_month_spec(month as int, year as int),
{
    if month == 9 || month == 4 || month == 6 || month == 11 {
        return 30;
    }
    if month == 2 {
        if year % 4 == 0 {
            return 29;
        } else {
            return 28;
        }
    }
    31
}

/// The month before `month` of `year`, with January going back to December
/// of the year before.
pub open spec fn month_before(month: int, year: int) -> (int, int) {
    if month == 1 {
        (12, year - 1)
    } else {
        (month - 1, year)
    }
}

/// Sum of the lengths of `count` months walking backward, starting with
/// `month` of `year` itself.
pub open spec fn months_back_sum(month: int, year: int, count: nat) -> int
    decreases count,
{
    if count == 0 {
        0
    } else {
        let (pm, py) = month_before(month, year);
        days_in_month_spec(month, year) + months_back_sum(pm, py, (count - 1) as nat)
    }
}

/// One day less than the twelve months that end with `month` of `year`.
pub open spec fn previous_year_days_spec(month: int, year: int) -> int {
    months_back_sum(month, year, 12) - 1
}

proof fn lemma_months_back_sum_bounds(month: int, year: int, count: nat)
    ensures
        28 * count <= months_back_sum(month, year, count) <= 31 * count,
    decreases count,
{
    if count > 0 {
        let (pm, py) = month_before(month, year);
        lemma_months_back_sum_bounds(pm, py, (count - 1) as nat);
    }
}

/// Days in the twelve months ending with `month` of `year` (that month
/// included), less one.
pub fn previous_year_days(month: u32, year: i32) -> (r: u32)
    requires
        1 <= month <= 12,
        year > i32::MIN,
    ensures
        r == previous_year_days_spec(month as int, year as int),
{
    let mut days: u32 = 0;
    let mut counter: u32 = 12;
    let mut current_month: u32 = month;
    let mut current_year: i32 = year;
    proof {
        lemma_months_back_sum_bounds(month as int, year as int, 12);
    }
    while counter > 0
        invariant
            counter <= 12,
            1 <= month <= 12,
            year > i32::MIN,
            1 <= current_month <= 12,
            (current_year == year && current_month + 12 == month + counter)
                || (current_year == year - 1 && current_month == month + counter),
            days + months_back_sum(current_month as int, current_year as int, counter as nat)
                == months_back_sum(month as int, year as int, 12),
            days <= 31 * (12 - counter),
        decreases counter,
    {
        proof {
            lemma_months_back_sum_bounds(current_month as int, current_year as int, counter as nat);
        }
        days = days + month_days(current_month, current_year);
        if current_month == 1 {
            current_month = 12;
            current_year = current_year - 1;
        } else {
            current_month = current_month - 1;
        }
        counter = counter - 1;
    }
    days - 1
}

/// A calendar date as year, month (1 to 12) and day of the month.
#[derive(Clone, Copy, Debug, PartialEq, Eq, Structural)]
pub struct CivilDate {
    pub year: i32,
    pub month: u32,
    pub day: u32,
}

impl CivilDate {
    /// Month and day lie in the ranges that a calendar date can have.
    pub open spec fn well_formed(&self) -> bool {
        1 <= self.month <= 12 && 1 <= self.day <= 31
    }
}

/// The date `days` days before `date` in the proleptic Gregorian calendar,
/// or `None` where that date, or the given one, is not representable.
pub uninterp spec fn gregorian_days_before(date: CivilDate, days: int) -> Option<CivilDate>;

/// Relies on `chrono::NaiveDate::from_ymd_opt` and
/// `chrono::NaiveDate::checked_sub_days`: the date `days` days earlier, with
/// its month in 1..=12 and its day in 1..=31 as `Datelike` reports them.
#[verifier::external_body]
fn sub_days(date: CivilDate, days: u32) -> (r: Option<CivilDate>)
    ensures
        r matches Some(d) ==> d.well_formed(),
        r == gregorian_days_before(date, days as int),
{
    chrono::NaiveDate::from_ymd_opt(date.year, date.month, date.day)
        .and_then(|d| d.checked_sub_days(chrono::Days::new(days as u64)))
        .map(|d| CivilDate { year: d.year(), month: d.month(), day: d.day() })
}

/// Half-open window `[start, end)` of calendar dates.
#[derive(Clone, Copy, Debug, PartialEq, Eq, Structural)]
pub struct DateWindow {
    pub start: CivilDate,
    pub end: CivilDate,
}

/// Failure to derive the scoring window.
#[derive(Clone, Copy, Debug, PartialEq, Eq, Structural)]
pub enum WindowError {
    /// A date subtraction left the representable range.
    CalendarOverflow,
}

/// Days from `now` back to the end of the window: the day of the month plus
/// the length of the month before (month number `now.month - 1`, so that
/// January counts 31).
pub open spec fn days_to_window_end(now: CivilDate) -> int {
    now.day + days_in_month_spec(now.month - 1, now.year as int)
}

/// The window that `trailing_year_window` derives from `now`.
pub open spec fn trailing_year_window_spec(now: CivilDate) -> Result<DateWindow, WindowError> {
    match gregorian_days_before(now, days_to_window_end(now)) {
        None => Err(WindowError::CalendarOverflow),
        Some(end) => {
            if end.year == i32::MIN {
                Err(WindowError::CalendarOverflow)
            } else {
                match gregorian_days_before(end, previous_year_days_spec(end.month as int, end.year as int)) {
                    None => Err(WindowError::CalendarOverflow),
                    Some(start) => Ok(DateWindow { start, end }),
                }
            }
        },
    }
}

/// The trailing twelve-month window relative to `now`: `end` lies
/// `days_to_window_end(now)` days before `now`, and `start` lies
/// `previous_year_days(end)` days before `end`. Either subtraction leaving
/// the calendar's range is a `CalendarOverflow`.
pub fn trailing_year_window(now: CivilDate) -> (r: Result<DateWindow, WindowError>)
    requires
        now.well_formed(),
    ensures
        r == trailing_year_window_spec(now),
        r matches Ok(w) ==> w.start.well_formed() && w.end.well_formed(),
{
    let back = now.day + month_days(now.month - 1, now.year);
    let end = match sub_days(now, back) {
        None => return Err(WindowError::CalendarOverflow),
        Some(e) => e,
    };
    if end.year == i32::MIN {
        return Err(WindowError::CalendarOverflow);
    }
    let span = previous_year_days(end.month, end.year);
    match sub_days(end, span) {
        None => Err(WindowError::CalendarOverflow),
        Some(start) => Ok(DateWindow { start, end }),
    }
}

/// The UTC calendar date of the instant `secs` seconds after the Unix epoch,
/// or `None` where it is out of the calendar's range.
pub uninterp spec fn utc_date_of(secs: int) -> Option<CivilDate>;

/// Relies on `chrono::DateTime::from_timestamp`: the UTC date of an epoch
/// second, with month in 1..=12 and day in 1..=31 as `Datelike` reports them.
#[verifier::external_body]
pub(crate) fn date_of_epoch_seconds(secs: i64) -> (r: Option<CivilDate>)
    ensures
        r == utc_date_of(secs as int),
        r matches Some(d) ==> d.well_formed(),
{
    chrono::DateTime::from_timestamp(secs, 0)
        .map(|d| CivilDate { year: d.year(), month: d.month(), day: d.day() })
}

} // verus!
