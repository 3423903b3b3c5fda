//! Calendar times and the archive's schedule of model runs.

use chrono::{Datelike, Timelike};
use vstd::prelude::*;

verus! {

/// The first year of the calendar that times are taken from.
pub const MIN_YEAR: i32 = -262143;

/// The last year of the calendar that times are taken from.
pub const MAX_YEAR: i32 = 262142;

/// A calendar date and a time of day, to the second, as mathematical integers.
pub struct Civil {
    pub year: int,
    pub month: int,
    pub day: int,
    pub hour: int,
    pub minute: int,
    pub second: int,
}

/// Whether `year` is a leap year of the proleptic Gregorian calendar.
pub open spec fn is_leap_year(year: int) -> bool {
    year % 4 == 0 && (year % 100 != 0 || year % 400 == 0)
}

/// The number of days of `month` in `year`; 0 where `month` is no month.
pub open spec fn days_in_month(year: int, month: int) -> int {
    if month == 2 {
        if is_leap_year(year) {
            29
        } else {
            28
        }
    } else if month == 4 || month == 6 || month == 9 || month == 11 {
        30
    } else if 1 <= month <= 12 {
        31
    } else {
        0
    }
}

/// Whether `c` is a time of the calendar: an existing day of a year between
/// `MIN_YEAR` and `MAX_YEAR`, and an existing second of that day.
pub open spec fn is_valid(c: Civil) -> bool {
    &&& MIN_YEAR <= c.year <= MAX_YEAR
    &&& 1 <= c.month <= 12
    &&& 1 <= c.day <= days_in_month(c.year, c.month)
    &&& 0 <= c.hour < 24
    &&& 0 <= c.minute < 60
    &&& 0 <= c.second < 60
}

/// Whether `a` is strictly earlier than `b`.
pub open spec fn is_before(a: Civil, b: Civil) -> bool {
    ||| a.year < b.year
    ||| a.year == b.year && a.month < b.month
    ||| a.year == b.year && a.month == b.month && a.day < b.day
    ||| a.year == b.year && a.month == b.month && a.day == b.day && a.hour < b.hour
    ||| a.year == b.year && a.month == b.month && a.day == b.day && a.hour == b.hour && a.minute
        < b.minute
    ||| a.year == b.year && a.month == b.month && a.day == b.day && a.hour == b.hour && a.minute
        == b.minute && a.second < b.second
}

/// Whether the calendar holds the day before the day of `c`.
pub open spec fn has_previous_day(c: Civil) -> bool {
    !(c.year == MIN_YEAR && c.month == 1 && c.day == 1)
}

/// The same time of day on the day before the day of `c`.
pub open spec fn previous_day(c: Civil) -> Civil {
    if c.day > 1 {
        Civil { day: c.day - 1, ..c }
    } else if c.month > 1 {
        Civil { month: c.month - 1, day: days_in_month(c.year, c.month - 1), ..c }
    } else {
        Civil { year: c.year - 1, month: 12, day: 31, ..c }
    }
}

/// The time `hours` hours before `c`, for at most 24 hours; `None` where that time
/// lies before the first day of the calendar.
pub open spec fn earlier(c: Civil, hours: int) -> Option<Civil> {
    if hours <= c.hour {
        Some(Civil { hour: c.hour - hours, ..c })
    } else if has_previous_day(c) {
        Some(Civil { hour: c.hour + 24 - hours, ..previous_day(c) })
    } else {
        None
    }
}

/// The hour of the latest model run of a day that starts at or before `hour`;
/// before the first run of the day, the hour of the last run of the day before.
pub open spec fn run_hour(hour: int) -> int {
    if hour >= 19 {
        19
    } else if hour >= 13 {
        13
    } else if hour >= 7 {
        7
    } else if hour >= 1 {
        1
    } else {
        19
    }
}

/// Whether the archive publishes a run at `hour`.
pub open spec fn is_run_hour(hour: int) -> bool {
    hour == 1 || hour == 7 || hour == 13 || hour == 19
}

/// Whether the latest run at or before `c` lies within the calendar.
pub open spec fn has_run(c: Civil) -> bool {
    c.hour >= 1 || has_previous_day(c)
}

/// The start of the latest model run at or before `c`.
pub open spec fn initialization_time(c: Civil) -> Civil {
    if c.hour >= 1 {
        Civil { hour: run_hour(c.hour), minute: 0, second: 0, ..c }
    } else {
        Civil { hour: 19, minute: 0, second: 0, ..previous_day(c) }
    }
}

/// A time of the calendar.
#[derive(Clone, Copy, Debug, PartialEq, Eq)]
pub struct Timestamp {
    year: i32,
    month: u32,
    day: u32,
    hour: u32,
    minute: u32,
    second: u32,
}

impl View for Timestamp {
    type V = Civil;

    closed spec fn view(&self) -> Civil {
        Civil {
            year: self.year as int,
            month: self.month as int,
            day: self.day as int,
            hour: self.hour as int,
            minute: self.minute as int,
            second: self.second as int,
        }
    }
}

fn leap_year(year: i32) -> (r: bool)
    requires
        MIN_YEAR <= year <= MAX_YEAR,
    ensures
        r == is_leap_year(year as int),
{
    let shifted: u32 = (year + 262400) as u32;
    shifted % 4 == 0 && (shifted % 100 != 0 || shifted % 400 == 0)
}

fn month_length(year: i32, month: u32) -> (r: u32)
    requires
        MIN_YEAR <= year <= MAX_YEAR,
    ensures
        r == days_in_month(year as int, month as int),
{
    if month == 2 {
        if leap_year(year) {
            29
        } else {
            28
        }
    } else if month == 4 || month == 6 || month == 9 || month == 11 {
        30
    } else if 1 <= month && month <= 12 {
        31
    } else {
        0
    }
}

impl Timestamp {
    /// Every `Timestamp` is a time of the calendar.
    #[verifier::type_invariant]
    pub open spec fn well_formed(self) -> bool {
        is_valid(self@)
    }

    /// The time with the given fields, where the calendar holds it.
    pub fn from_ymd_hms(year: i32, month: u32, day: u32, hour: u32, minute: u32, second: u32) -> (r:
        Option<Timestamp>)
        ensures
            r is Some <==> is_valid(
                Civil {
                    year: year as int,
                    month: month as int,
                    day: day as int,
                    hour: hour as int,
                    minute: minute as int,
                    second: second as int,
                },
            ),
            r matches Some(t) ==> t@ == (Civil {
                year: year as int,
                month: month as int,
                day: day as int,
                hour: hour as int,
                minute: minute as int,
                second: second as int,
            }),
    {
        if year < MIN_YEAR || year > MAX_YEAR {
            return None;
        }
        if day < 1 || day > month_length(year, month) {
            return None;
        }
        if hour >= 24 || minute >= 60 || second >= 60 {
            return None;
        }
        Some(Timestamp { year, month, day, hour, minute, second })
    }

    /// The year of this time.
    pub fn year(&self) -> (r: i32)
        ensures
            r == self@.year,
            is_valid(self@),
    {
        proof {
            use_type_invariant(self);
        }
        self.year
    }

    /// The month of this time.
    pub fn month(&self) -> (r: u32)
        ensures
            r == self@.month,
            is_valid(self@),
    {
        proof {
            use_type_invariant(self);
        }
        self.month
    }

    /// The day of this time.
    pub fn day(&self) -> (r: u32)
        ensures
            r == self@.day,
            is_valid(self@),
    {
        proof {
            use_type_invariant(self);
        }
        self.day
    }

    /// The hour of this time.
    pub fn hour(&self) -> (r: u32)
        ensures
            r == self@.hour,
            is_valid(self@),
    {
        proof {
            use_type_invariant(self);
        }
        self.hour
    }

    /// The minute of this time.
    pub fn minute(&self) -> (r: u32)
        ensures
            r == self@.minute,
            is_valid(self@),
    {
        proof {
            use_type_invariant(self);
        }
        self.minute
    }

    /// The second of this time.
    pub fn second(&self) -> (r: u32)
        ensures
            r == self@.second,
            is_valid(self@),
    {
        proof {
            use_type_invariant(self);
        }
        self.second
    }

    /// Whether `self` is strictly later than `other`.
    pub fn is_after(&self, other: &Timestamp) -> (r: bool)
        ensures
            r == is_before(other@, self@),
    {
        if self.year != other.year {
            self.year > other.year
        } else if self.month != other.month {
            self.month > other.month
        } else if self.day != other.day {
            self.day > other.day
        } else if self.hour != other.hour {
            self.hour > other.hour
        } else if self.minute != other.minute {
            self.minute > other.minute
        } else {
            self.second > other.second
        }
    }

    /// Whether `self` and `other` are the same time.
    pub fn same_time(&self, other: &Timestamp) -> (r: bool)
        ensures
            r == (self@ == other@),
    {
        self.year == other.year && self.month == other.month && self.day == other.day && self.hour
            == other.hour && self.minute == other.minute && self.second == other.second
    }

    /// Whether the latest model run at or before `self` lies within the calendar.
    pub fn has_run(&self) -> (r: bool)
        ensures
            r == has_run(self@),
    {
        self.hour >= 1 || !(self.year == MIN_YEAR && self.month == 1 && self.day == 1)
    }
}

/// The time `hours` hours before `t`, computed by chrono: `NaiveDate::from_ymd_opt`
/// and `NaiveDate::and_hms_opt` make the time, `TimeDelta::try_hours` the span, and
/// `NaiveDateTime::checked_sub_signed` subtracts. For a span of at most a day the
/// result keeps the minute and the second, stays on the day of `t` where its hour
/// allows and else falls on the day before; chrono returns nothing where that day
/// would lie before its first date, the first of January of `MIN_YEAR`.
#[verifier::external_body]
fn hours_earlier(t: Timestamp, hours: u32) -> (r: Option<Timestamp>)
    requires
        is_valid(t@),
        hours <= 24,
    ensures
        r is Some <==> earlier(t@, hours as int) is Some,
        r matches Some(e) ==> Some(e@) == earlier(t@, hours as int),
{
    let date = chrono::NaiveDate::from_ymd_opt(t.year, t.month, t.day)?;
    let time = date.and_hms_opt(t.hour, t.minute, t.second)?;
    let span = chrono::TimeDelta::try_hours(i64::from(hours))?;
    let e = time.checked_sub_signed(span)?;
    Some(
        Timestamp {
            year: e.year(),
            month: e.month(),
            day: e.day(),
            hour: e.hour(),
            minute: e.minute(),
            second: e.second(),
        },
    )
}

/// The start of the latest model run at or before `requested_time`: the archive
/// publishes runs at 1, 7, 13 and 19 o'clock of each day.
pub fn calculate_next_most_recent_nmb_initialization_time(requested_time: Timestamp) -> (r:
    Timestamp)
    requires
        has_run(requested_time@),
    ensures
        r@ == initialization_time(requested_time@),
        is_valid(r@),
{
    proof {
        use_type_invariant(&requested_time);
    }
    let hour: u32 = requested_time.hour;
    let delta: u32 = if hour >= 19 {
        hour - 19
    } else if hour >= 13 {
        hour - 13
    } else if hour >= 7 {
        hour - 7
    } else if hour >= 1 {
        hour - 1
    } else {
        24 - 19
    };
    let on_the_hour = Timestamp { minute: 0, second: 0, ..requested_time };
    match hours_earlier(on_the_hour, delta) {
        Some(r) => {
            proof {
                use_type_invariant(&r);
            }
            r
        },
        None => on_the_hour,
    }
}

/// The time one hour before the start `init_time` of a model run.
pub fn hour_before_run(init_time: Timestamp) -> (r: Timestamp)
    requires
        init_time@.hour >= 1,
    ensures
        r@ == (Civil { hour: init_time@.hour - 1, ..init_time@ }),
        is_valid(r@),
{
    proof {
        use_type_invariant(&init_time);
    }
    match hours_earlier(init_time, 1) {
        Some(r) => {
            proof {
                use_type_invariant(&r);
            }
            r
        },
        None => init_time,
    }
}

/// The hour of a run is one of the four hours of the schedule, and it is the
/// greatest of them that is not after the requested hour; before the first run of
/// a day it is 19, the hour of the last run of the day before.
pub proof fn lemma_run_hour_is_latest_of_schedule(hour: int)
    requires
        0 <= hour < 24,
    ensures
        is_run_hour(run_hour(hour)),
        hour >= 1 ==> run_hour(hour) <= hour,
        hour >= 1 ==> forall|h: int| is_run_hour(h) && h <= hour ==> h <= run_hour(hour),
        hour < 1 ==> run_hour(hour) == 19,
{
}

/// A run starts on the hour, at an hour of the schedule: on the day of the request
/// at the latest such hour that is not after the request's hour, and at 19 o'clock
/// of the day before where the request lies before the first run of its day.
pub proof fn lemma_initialization_time_is_on_schedule(c: Civil)
    requires
        is_valid(c),
        has_run(c),
    ensures
        is_valid(initialization_time(c)),
        is_run_hour(initialization_time(c).hour),
        initialization_time(c).hour == run_hour(c.hour),
        initialization_time(c).minute == 0,
        initialization_time(c).second == 0,
        c.hour >= 1 ==> initialization_time(c) == (Civil {
            hour: run_hour(c.hour),
            minute: 0,
            second: 0,
            ..c
        }),
        c.hour < 1 ==> initialization_time(c) == (Civil {
            hour: 19,
            minute: 0,
            second: 0,
            ..previous_day(c)
        }),
{
}

/// A run never starts after the time it was requested for.
pub proof fn lemma_initialization_time_not_after_request(c: Civil)
    requires
        is_valid(c),
    ensures
        !is_before(c, initialization_time(c)),
{
}

/// The start of a run is the run of itself.
pub proof fn lemma_initialization_time_is_fixed(c: Civil)
    requires
        is_valid(c),
    ensures
        initialization_time(initialization_time(c)) == initialization_time(c),
{
}

} // verus!
