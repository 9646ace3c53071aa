//! Wall-clock time: calendar moments and the clock anchored at boot.
//!
//! The node has no clock of its own that knows the date. It learns the
//! time from the modem, remembers when it booted in terms of that time, and
//! from then on tells the time by adding the seconds since boot.

use vstd::prelude::*;

verus! {

/// Whether `year` is a leap year of the Gregorian calendar.
pub open spec fn is_leap_year(year: int) -> bool {
    year % 4 == 0 && (year % 100 != 0 || year % 400 == 0)
}

/// The number of days of a month; `month` counts from 1.
pub open spec fn days_in_month(year: int, month: int) -> int {
    if month == 2 {
        if is_leap_year(year) {
            29
        } else {
            28
        }
    } else if month == 4 || month == 6 || month == 9 || month == 11 {
        30
    } else {
        31
    }
}

/// Whether the calendar has the given day.
pub open spec fn is_calendar_date(year: int, month: int, day: int) -> bool {
    1 <= month <= 12 && 1 <= day <= days_in_month(year, month)
}

/// Whether the day has the given time.
pub open spec fn is_time_of_day(hour: int, minute: int, second: int) -> bool {
    0 <= hour < 24 && 0 <= minute < 60 && 0 <= second < 60
}

/// The number of a day in the proleptic Gregorian calendar as `chrono`
/// counts the days, January 1 of the year 1 being day 1.
pub uninterp spec fn days_from_ce(year: int, month: int, day: int) -> int;

/// The number of 1970-01-01 among the days.
pub const UNIX_EPOCH_DAY: i64 = 719_163;

/// The seconds from 1970-01-01T00:00:00 UTC to the given moment of UTC,
/// without leap seconds.
#[verifier::opaque]
pub open spec fn unix_seconds(
    year: int,
    month: int,
    day: int,
    hour: int,
    minute: int,
    second: int,
) -> int {
    (days_from_ce(year, month, day) - 719_163) * 86_400 + hour * 3600 + minute * 60 + second
}

/// `chrono::NaiveDate::from_ymd_opt`, and `chrono::Datelike::num_days_from_ce`
/// on the date made: the number of the day where the calendar has it, and
/// nothing otherwise. The years admitted all lie in the range of
/// `NaiveDate`.
#[verifier::external_body]
pub(crate) fn civil_day(year: i32, month: u32, day: u32) -> (r: Option<i32>)
    requires
        1970 <= year <= 262_142,
    ensures
        r.is_some() == is_calendar_date(year as int, month as int, day as int),
        r matches Some(n) ==> n == days_from_ce(year as int, month as int, day as int),
{
    chrono::NaiveDate::from_ymd_opt(year, month, day).map(
        |date| chrono::Datelike::num_days_from_ce(&date),
    )
}

/// The calendar day with the given number, as `chrono` counts the days,
/// if `chrono` has a date for it: year, month and day of the month.
pub uninterp spec fn civil_of_day(day_number: int) -> Option<(int, int, int)>;

/// `chrono::NaiveDate::from_num_days_from_ce_opt`, and the `year`, `month`
/// and `day` of `chrono::Datelike` on the date made: the calendar day that
/// has the number, and nothing where the number is out of the range of
/// `NaiveDate`. The day handed out exists, lies in the years of
/// `NaiveDate`, and has the number it was made from.
#[verifier::external_body]
pub(crate) fn civil_from_day(day_number: i32) -> (r: Option<(i32, u32, u32)>)
    ensures
        match civil_of_day(day_number as int) {
            Some((y, m, d)) => r == Some((y as i32, m as u32, d as u32)) && -262_143 <= y
                <= 262_142 && is_calendar_date(y, m, d) && days_from_ce(y, m, d) == day_number,
            None => r.is_none(),
        },
{
    chrono::NaiveDate::from_num_days_from_ce_opt(day_number).map(
        |date|
            (
                chrono::Datelike::year(&date),
                chrono::Datelike::month(&date),
                chrono::Datelike::day(&date),
            ),
    )
}

/// A moment of UTC by the calendar, with its timestamp.
#[derive(Debug, Clone, Copy, PartialEq, Eq)]
pub struct DateTime {
    year: i32,
    month: u32,
    day: u32,
    hour: u32,
    minute: u32,
    second: u32,
    timestamp: i64,
}

/// What a [`DateTime`] holds.
pub struct DateTimeView {
    pub year: int,
    pub month: int,
    pub day: int,
    pub hour: int,
    pub minute: int,
    pub second: int,
    pub timestamp: int,
}

impl View for DateTime {
    type V = DateTimeView;

    closed spec fn view(&self) -> DateTimeView {
        DateTimeView {
            year: self.year as int,
            month: self.month as int,
            day: self.day as int,
            hour: self.hour as int,
            minute: self.minute as int,
            second: self.second as int,
            timestamp: self.timestamp as int,
        }
    }
}

/// Whether a moment exists, lies in 1970 or later, and carries its own
/// timestamp.
pub open spec fn is_moment(m: DateTimeView) -> bool {
    &&& 1970 <= m.year <= 262_142
    &&& is_calendar_date(m.year, m.month, m.day)
    &&& is_time_of_day(m.hour, m.minute, m.second)
    &&& m.timestamp == unix_seconds(m.year, m.month, m.day, m.hour, m.minute, m.second)
}

impl DateTime {
    /// The moment with the given calendar fields, if there is one in 1970
    /// or later.
    pub fn new(year: i32, month: u32, day: u32, hour: u32, minute: u32, second: u32) -> (r: Option<
        DateTime,
    >)
        ensures
            r.is_some() == (1970 <= year <= 262_142 && is_calendar_date(
                year as int,
                month as int,
                day as int,
            ) && is_time_of_day(hour as int, minute as int, second as int)),
            r matches Some(m) ==> is_moment(m@) && m@.year == year && m@.month == month && m@.day
                == day && m@.hour == hour && m@.minute == minute && m@.second == second,
    {
        reveal(unix_seconds);
        if year < 1970 || year > 262_142 {
            return None;
        }
        if hour >= 24 || minute >= 60 || second >= 60 {
            return None;
        }
        match civil_day(year, month, day) {
            Some(n) => {
                let seconds: i64 = (hour as i64) * 3600 + (minute as i64) * 60 + (second as i64);
                let timestamp: i64 = ((n as i64) - UNIX_EPOCH_DAY) * 86_400 + seconds;
                Some(DateTime { year, month, day, hour, minute, second, timestamp })
            },
            None => None,
        }
    }

    /// The moment `second_of_day` seconds into the day with the number
    /// `day_number`, if the day exists, lies in 1970 or later, and has that
    /// second.
    pub fn from_day_and_second(day_number: i32, second_of_day: u32) -> (r: Option<DateTime>)
        ensures
            match civil_of_day(day_number as int) {
                Some((y, m, d)) => if 1970 <= y && second_of_day < 86_400 {
                    r matches Some(moment) && is_moment(moment@) && moment@.year == y
                        && moment@.month == m && moment@.day == d && moment@.hour * 3600
                        + moment@.minute * 60 + moment@.second == second_of_day
                } else {
                    r.is_none()
                },
                None => r.is_none(),
            },
    {
        reveal(unix_seconds);
        if second_of_day >= 86_400 {
            return None;
        }
        match civil_from_day(day_number) {
            Some((year, month, day)) => {
                if year < 1970 {
                    return None;
                }
                let hour: u32 = second_of_day / 3600;
                let minute: u32 = (second_of_day % 3600) / 60;
                let second: u32 = second_of_day % 60;
                let timestamp: i64 = ((day_number as i64) - UNIX_EPOCH_DAY) * 86_400 + (
                second_of_day as i64);
                Some(DateTime { year, month, day, hour, minute, second, timestamp })
            },
            None => None,
        }
    }

    /// The year.
    pub fn year(&self) -> (r: i32)
        ensures
            r == self@.year,
    {
        self.year
    }

    /// The month, from 1.
    pub fn month(&self) -> (r: u32)
        ensures
            r == self@.month,
    {
        self.month
    }

    /// The day of the month, from 1.
    pub fn day(&self) -> (r: u32)
        ensures
            r == self@.day,
    {
        self.day
    }

    /// The hour, from 0.
    pub fn hour(&self) -> (r: u32)
        ensures
            r == self@.hour,
    {
        self.hour
    }

    /// The minute, from 0.
    pub fn minute(&self) -> (r: u32)
        ensures
            r == self@.minute,
    {
        self.minute
    }

    /// The second, from 0.
    pub fn second(&self) -> (r: u32)
        ensures
            r == self@.second,
    {
        self.second
    }

    /// The seconds since 1970-01-01T00:00:00 UTC.
    pub fn timestamp(&self) -> (r: i64)
        ensures
            r == self@.timestamp,
    {
        self.timestamp
    }
}

/// The largest magnitude, in seconds, of a time that the clock handles:
/// two to the power of 61.
pub const MAX_CLOCK_SECONDS: i64 = 0x2000_0000_0000_0000;

/// What a synchronization did to the clock.
#[derive(Debug, Clone, Copy, PartialEq, Eq)]
pub enum TimeSync {
    /// The clock was not set before and is now.
    Initial,
    /// The clock agrees with the time given and stays as it is.
    Unchanged,
    /// The clock was off by `drift_seconds` and was set anew.
    Resynchronized { drift_seconds: i64 },
}

/// The wall clock: the UTC time of boot, in seconds since 1970, once a
/// synchronization has told it.
pub struct UtcTime {
    boot_time: Option<i64>,
}

impl View for UtcTime {
    type V = Option<int>;

    closed spec fn view(&self) -> Option<int> {
        match self.boot_time {
            Some(t) => Some(t as int),
            None => None,
        }
    }
}

impl UtcTime {
    /// Whether the anchor, if set, lies within the range the clock handles.
    pub closed spec fn wf(&self) -> bool {
        match self.boot_time {
            Some(t) => -MAX_CLOCK_SECONDS <= t <= MAX_CLOCK_SECONDS,
            None => true,
        }
    }

    /// A clock that was never synchronized.
    pub fn new() -> (r: Self)
        ensures
            r.wf(),
            r@.is_none(),
    {
        UtcTime { boot_time: None }
    }

    /// Sets the clock from the UTC time `now`, learned `uptime_seconds`
    /// after boot: the anchor becomes `now - uptime_seconds`. An anchor
    /// that is there already stays if it is the same, and is replaced, with
    /// the drift reported, if it differs.
    pub fn time_sync(&mut self, now: i64, uptime_seconds: u64) -> (r: TimeSync)
        requires
            old(self).wf(),
            -MAX_CLOCK_SECONDS <= now - uptime_seconds <= MAX_CLOCK_SECONDS,
        ensures
            final(self).wf(),
            final(self)@ == Some(now - uptime_seconds),
            match old(self)@ {
                None => r == TimeSync::Initial,
                Some(before) => if before == now - uptime_seconds {
                    r == TimeSync::Unchanged
                } else {
                    r == (TimeSync::Resynchronized {
                        drift_seconds: (now - uptime_seconds - before) as i64,
                    })
                },
            },
    {
        let new_boot_time: i64 = ((now as i128) - (uptime_seconds as i128)) as i64;
        match self.boot_time {
            Some(current) => {
                if current != new_boot_time {
                    self.boot_time = Some(new_boot_time);
                    TimeSync::Resynchronized { drift_seconds: new_boot_time - current }
                } else {
                    TimeSync::Unchanged
                }
            },
            None => {
                self.boot_time = Some(new_boot_time);
                TimeSync::Initial
            },
        }
    }

    /// The UTC time `uptime_seconds` after boot: the anchor plus the
    /// uptime, or nothing if the clock was never synchronized.
    pub fn now(&self, uptime_seconds: u64) -> (r: Option<i64>)
        requires
            self.wf(),
            uptime_seconds <= MAX_CLOCK_SECONDS,
        ensures
            match self@ {
                Some(boot) => r.is_some() && r.unwrap() == clock_reading(boot, uptime_seconds as int),
                None => r.is_none(),
            },
    {
        match self.boot_time {
            Some(boot) => Some(boot + (uptime_seconds as i64)),
            None => None,
        }
    }

    /// Forgets the anchor.
    pub fn reset(&mut self)
        ensures
            final(self).wf(),
            final(self)@.is_none(),
    {
        self.boot_time = None;
    }
}

/// The time told by a clock anchored at `boot`, `uptime` seconds after
/// boot.
pub open spec fn clock_reading(boot: int, uptime: int) -> int {
    boot + uptime
}

/// Between synchronizations the clock is strictly monotonic: while the
/// anchor stays, a later uptime tells a later time, and the two times are
/// as far apart as the uptimes.
pub proof fn lemma_clock_strictly_monotonic(clock: UtcTime, earlier: u64, later: u64)
    requires
        clock.wf(),
        clock@.is_some(),
        earlier < later,
    ensures
        clock_reading(clock@.unwrap(), earlier as int) < clock_reading(
            clock@.unwrap(),
            later as int,
        ),
        clock_reading(clock@.unwrap(), later as int) - clock_reading(
            clock@.unwrap(),
            earlier as int,
        ) == later - earlier,
{
}

/// A synchronization makes the clock tell the time it was given: right
/// after `time_sync(now, uptime)`, the clock reads `now` at that uptime.
pub proof fn lemma_sync_then_now(now: i64, uptime: u64)
    ensures
        clock_reading(now - uptime, uptime as int) == now,
{
}

} // verus!
