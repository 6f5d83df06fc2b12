//! Dates, times of day and date-times as `chrono` holds them, with what
//! the column readers and the bulk loader need to know of them.
use vstd::prelude::*;
use chrono::{Datelike, NaiveDate, NaiveDateTime, NaiveTime, TimeDelta, Timelike};

verus! {

/// The type `chrono::NaiveDate`, opaque; its day number is named by
/// `date_days`.
#[verifier::external_type_specification]
#[verifier::external_body]
pub struct ExNaiveDate(chrono::NaiveDate);

/// The type `chrono::NaiveTime`, opaque; its seconds and nanoseconds are
/// named by `time_secs` and `time_nano`.
#[verifier::external_type_specification]
#[verifier::external_body]
pub struct ExNaiveTime(chrono::NaiveTime);

/// The type `chrono::NaiveDateTime`, opaque; its parts are named by
/// `datetime_date` and `datetime_time`.
#[verifier::external_type_specification]
#[verifier::external_body]
pub struct ExNaiveDateTime(chrono::NaiveDateTime);

/// `<NaiveDate as Clone>::clone`: `NaiveDate` is `Copy`, so a clone is the
/// same value.
pub assume_specification[ <chrono::NaiveDate as Clone>::clone ](d: &chrono::NaiveDate) -> (r: chrono::NaiveDate)
    ensures
        r == *d,
;

/// `<NaiveTime as Clone>::clone`: `NaiveTime` is `Copy`.
pub assume_specification[ <chrono::NaiveTime as Clone>::clone ](t: &chrono::NaiveTime) -> (r: chrono::NaiveTime)
    ensures
        r == *t,
;

/// `<NaiveDateTime as Clone>::clone`: `NaiveDateTime` is `Copy`.
pub assume_specification[ <chrono::NaiveDateTime as Clone>::clone ](dt: &chrono::NaiveDateTime) -> (r: chrono::NaiveDateTime)
    ensures
        r == *dt,
;

/// `Datelike::num_days_from_ce`: the day number of a date in the proleptic
/// Gregorian calendar, 0001-01-01 being day 1.
pub uninterp spec fn date_days(d: NaiveDate) -> int;

/// `Timelike::num_seconds_from_midnight`: whole seconds since midnight.
pub uninterp spec fn time_secs(t: NaiveTime) -> int;

/// `Timelike::nanosecond`: the nanoseconds after the whole second (a
/// billion or more only within a leap second).
pub uninterp spec fn time_nano(t: NaiveTime) -> int;

/// `NaiveDateTime::date`: the date part.
pub uninterp spec fn datetime_date(dt: NaiveDateTime) -> NaiveDate;

/// `NaiveDateTime::time`: the time-of-day part.
pub uninterp spec fn datetime_time(dt: NaiveDateTime) -> NaiveTime;

/// The day numbers `chrono` can represent: from -262143-01-01 to
/// 262142-12-31.
pub open spec fn date_in_range(days: int) -> bool {
    -95746129 <= days <= 95745399
}

/// The days before 1 January of year `y` (`y >= 1`), counted from
/// 0001-01-01.
pub open spec fn days_before_year(y: int) -> int {
    let p = y - 1;
    365 * p + p / 4 - p / 100 + p / 400
}

/// Whether seconds and nanoseconds make a time of day for `chrono`: the
/// nanoseconds reach a second or more only in the last second of a minute
/// (a leap second).
pub open spec fn time_valid(secs: int, nano: int) -> bool {
    &&& 0 <= secs < 86400
    &&& 0 <= nano < 2000000000
    &&& nano >= 1000000000 ==> secs % 60 == 59
}

/// `NaiveDate::from_ymd_opt` for the first of January of a year of the
/// common era, which is always a date: the day after the days before that
/// year.
#[verifier::external_body]
pub(crate) fn date_from_ymd(year: i32, month: u32, day: u32) -> (r: NaiveDate)
    requires
        1 <= year <= 9999,
        month == 1,
        day == 1,
    ensures
        date_days(r) == days_before_year(year as int) + 1,
{
    NaiveDate::from_ymd_opt(year, month, day).expect("the first of January of this year is a date")
}

/// `NaiveDate::checked_add_signed` with `TimeDelta::days`: the date `days`
/// days on, or `None` when that day is outside what `chrono` represents.
/// `TimeDelta::days` panics beyond the precondition's bound (more than
/// `i64::MAX` milliseconds).
#[verifier::external_body]
pub(crate) fn date_add_days(d: &NaiveDate, days: i64) -> (r: Option<NaiveDate>)
    requires
        -106751991167 <= days <= 106751991167,
    ensures
        r is Some <==> date_in_range(date_days(*d) + days),
        r matches Some(x) ==> date_days(x) == date_days(*d) + days,
{
    d.checked_add_signed(TimeDelta::days(days))
}

/// `NaiveDate::from_num_days_from_ce_opt`: the date with a day number, or
/// `None` outside what `chrono` represents.
#[verifier::external_body]
pub(crate) fn date_from_day_number(days: i32) -> (r: Option<NaiveDate>)
    ensures
        r is Some <==> date_in_range(days as int),
        r matches Some(x) ==> date_days(x) == days,
{
    NaiveDate::from_num_days_from_ce_opt(days)
}

/// `NaiveTime::from_num_seconds_from_midnight_opt`: the time of day with
/// these seconds and nanoseconds, when they make one.
#[verifier::external_body]
pub(crate) fn time_from_secs(secs: u32, nano: u32) -> (r: Option<NaiveTime>)
    ensures
        r is Some <==> time_valid(secs as int, nano as int),
        r matches Some(t) ==> time_secs(t) == secs && time_nano(t) == nano,
{
    NaiveTime::from_num_seconds_from_midnight_opt(secs, nano)
}

/// `Timelike::num_seconds_from_midnight`: below a day's 86400 seconds for
/// every `NaiveTime`.
#[verifier::external_body]
pub(crate) fn time_seconds(t: &NaiveTime) -> (r: u32)
    ensures
        r == time_secs(*t),
        r < 86400,
{
    t.num_seconds_from_midnight()
}

/// `Timelike::nanosecond`: below two billion for every `NaiveTime` (a
/// billion or more within a leap second).
#[verifier::external_body]
pub(crate) fn time_nanosecond(t: &NaiveTime) -> (r: u32)
    ensures
        r == time_nano(*t),
        r < 2_000_000_000,
{
    t.nanosecond()
}

/// `NaiveDate::and_time`: the date-time of a date and a time of day.
#[verifier::external_body]
pub(crate) fn date_and_time(d: &NaiveDate, t: NaiveTime) -> (r: NaiveDateTime)
    ensures
        datetime_date(r) == *d,
        datetime_time(r) == t,
{
    d.and_time(t)
}

/// `NaiveTime::MIN`: midnight.
#[verifier::external_body]
pub(crate) fn time_midnight() -> (r: NaiveTime)
    ensures
        time_secs(r) == 0,
        time_nano(r) == 0,
{
    NaiveTime::MIN
}

/// `Datelike::num_days_from_ce`: the day number of a date, within the
/// range `chrono` represents.
#[verifier::external_body]
pub(crate) fn date_day_number(d: &NaiveDate) -> (r: i32)
    ensures
        r == date_days(*d),
        date_in_range(r as int),
{
    d.num_days_from_ce()
}

/// `NaiveDateTime::date`.
#[verifier::external_body]
pub(crate) fn datetime_date_of(dt: &NaiveDateTime) -> (r: NaiveDate)
    ensures
        r == datetime_date(*dt),
{
    dt.date()
}

/// `NaiveDateTime::time`.
#[verifier::external_body]
pub(crate) fn datetime_time_of(dt: &NaiveDateTime) -> (r: NaiveTime)
    ensures
        r == datetime_time(*dt),
{
    dt.time()
}

} // verus!
