//! The mathematical model of dates and times.
//!
//! A date is a day number: the days that lie between the first day of year
//! one and the date. A time is a second of the day. An instant is a number
//! of seconds since midnight of the first day of year one. Each of the three
//! corresponds to exactly one valid structured value, and the lemmas here
//! say so.

use super::date::{InvalidDateError, RawDate};
use super::datetime::RawDateTime;
use super::time::{InvalidTimeError, RawTime};
use crate::calendar::Calendar;
use crate::calendar::traits::{DayCycle, WeekCycle, YearCycle};
use crate::cycle::{
    lemma_prefix_sum_grows, lemma_walk_in_year, lemma_walk_stays_in_year, prefix_sum, walk,
};
use crate::util::lemma_floor_div_bounds;
use vstd::prelude::*;

verus! {

impl Calendar {
    /// The month and the day of `date` exist in this calendar. Both count
    /// from zero.
    pub open spec fn valid_date(&self, date: RawDate) -> bool {
        &&& date.month < self.month_lengths().len()
        &&& date.day < self.month_lengths()[date.month as int]
    }

    /// What is wrong with `date` in this calendar, where anything is: the
    /// month is looked at first, then the day. The number in the error
    /// counts from one.
    pub open spec fn date_error(&self, date: RawDate) -> Option<InvalidDateError> {
        if date.month >= self.month_lengths().len() {
            Some(InvalidDateError::MonthOutOfBounds((date.month + 1) as u32))
        } else if date.day >= self.month_lengths()[date.month as int] {
            Some(InvalidDateError::DayOutOfBounds((date.day + 1) as u32))
        } else {
            None
        }
    }

    /// What is wrong with `time` in this calendar, where anything is: the
    /// hour is looked at first, then the minute, then the second.
    pub open spec fn time_error(&self, time: RawTime) -> Option<InvalidTimeError> {
        if time.hour >= self.day_lengths().hours_in_day {
            Some(InvalidTimeError::HourOutOfBounds(time.hour))
        } else if time.minute >= self.day_lengths().minutes_in_hour {
            Some(InvalidTimeError::MinuteOutOfBounds(time.minute))
        } else if time.second >= self.day_lengths().seconds_in_minute {
            Some(InvalidTimeError::SecondOutOfBounds(time.second))
        } else {
            None
        }
    }

    /// The days of the year that lie before `date`.
    pub open spec fn day_of_year(&self, date: RawDate) -> int {
        prefix_sum(self.month_lengths(), date.month as int) + date.day
    }

    /// The days that lie between the first day of year one and `date`.
    /// Negative for dates before year one.
    pub open spec fn day_number(&self, date: RawDate) -> int {
        (date.year - 1) * self.spec_days_in_year() + self.day_of_year(date)
    }

    /// The year that holds the day of number `day`.
    pub open spec fn year_of_day(&self, day: int) -> int {
        day / (self.spec_days_in_year() as int) + 1
    }

    /// The year of the day of number `day` is a 64-bit year.
    pub open spec fn day_is_representable(&self, day: int) -> bool {
        i64::MIN <= self.year_of_day(day) <= i64::MAX
    }

    /// The date of the day of number `day`: the year by floored division,
    /// the month and the day by the walk over the months.
    pub open spec fn date_of_day(&self, day: int) -> RawDate {
        let in_year = day % (self.spec_days_in_year() as int);
        let walked = walk(self.month_lengths(), 0, in_year);
        RawDate {
            year: self.year_of_day(day) as i64,
            month: walked.0 as u32,
            day: walked.1 as u32,
        }
    }

    /// The hour, the minute and the second of `time` exist in this calendar.
    pub open spec fn valid_time(&self, time: RawTime) -> bool {
        &&& time.hour < self.day_lengths().hours_in_day
        &&& time.minute < self.day_lengths().minutes_in_hour
        &&& time.second < self.day_lengths().seconds_in_minute
    }

    /// The seconds of the day that lie before `time`.
    pub open spec fn second_of_day(&self, time: RawTime) -> int {
        time.hour * self.day_lengths().seconds_in_hour() + time.minute
            * self.day_lengths().seconds_in_minute + time.second
    }

    /// The time at second `second` of the day.
    pub open spec fn time_of_second(&self, second: int) -> RawTime {
        RawTime {
            hour: (second / (self.day_lengths().seconds_in_hour() as int)) as u32,
            minute: ((second / (self.day_lengths().seconds_in_minute as int)) % (
            self.day_lengths().minutes_in_hour as int)) as u32,
            second: (second % (self.day_lengths().seconds_in_minute as int)) as u32,
        }
    }

    /// The date and the time of `moment` exist in this calendar.
    pub open spec fn valid_datetime(&self, moment: RawDateTime) -> bool {
        self.valid_date(moment.date) && self.valid_time(moment.time)
    }

    /// The seconds that lie between midnight of the first day of year one
    /// and `moment`.
    pub open spec fn instant(&self, moment: RawDateTime) -> int {
        self.day_number(moment.date) * self.spec_seconds_in_day() + self.second_of_day(
            moment.time,
        )
    }

    /// The day that holds `instant`, by floored division.
    pub open spec fn day_of_instant(&self, instant: int) -> int {
        instant / (self.spec_seconds_in_day() as int)
    }

    /// The second of its day at which `instant` lies: never negative.
    pub open spec fn second_of_instant(&self, instant: int) -> int {
        instant % (self.spec_seconds_in_day() as int)
    }

    /// The year of `instant` is a 64-bit year.
    pub open spec fn instant_is_representable(&self, instant: int) -> bool {
        self.day_is_representable(self.day_of_instant(instant))
    }

    /// The date and time at `instant`.
    pub open spec fn datetime_of_instant(&self, instant: int) -> RawDateTime {
        RawDateTime {
            date: self.date_of_day(self.day_of_instant(instant)),
            time: self.time_of_second(self.second_of_instant(instant)),
        }
    }

    /// The day of the week, counted from zero, of the day of number `day`.
    pub open spec fn week_day_of_day(&self, day: int) -> int {
        day % (self.week_length() as int)
    }

    /// A valid date lies inside its year, and taking the date of its day
    /// number gives the date back.
    pub proof fn lemma_date_of_day_number(&self, date: RawDate)
        requires
            self.wf(),
            self.valid_date(date),
        ensures
            0 <= self.day_of_year(date) < self.spec_days_in_year(),
            self.year_of_day(self.day_number(date)) == date.year,
            self.day_is_representable(self.day_number(date)),
            self.date_of_day(self.day_number(date)) == date,
    {
        let lengths = self.month_lengths();
        let in_year = self.day_of_year(date);
        let year_length = self.spec_days_in_year() as int;
        lemma_walk_in_year(lengths, date.month as int, date.day as int);
        vstd::arithmetic::div_mod::lemma_fundamental_div_mod_converse(
            self.day_number(date),
            year_length,
            date.year - 1,
            in_year,
        );
    }

    /// The date of a day is valid, and its day number is that day.
    pub proof fn lemma_day_number_of_date(&self, day: int)
        requires
            self.wf(),
            self.day_is_representable(day),
        ensures
            self.valid_date(self.date_of_day(day)),
            self.date_of_day(day).year == self.year_of_day(day),
            self.day_of_year(self.date_of_day(day)) == day % (self.spec_days_in_year() as int),
            self.day_number(self.date_of_day(day)) == day,
    {
        let lengths = self.month_lengths();
        let year_length = self.spec_days_in_year() as int;
        lemma_floor_div_bounds(day, year_length);
        lemma_walk_stays_in_year(lengths, day % year_length);
        let month = walk(lengths, 0, day % year_length).0;
        lemma_prefix_sum_grows(lengths, 0, lengths.len() as int);
        lemma_prefix_sum_grows(lengths, month + 1, lengths.len() as int);
        assert((day / year_length) * year_length == year_length * (day / year_length))
            by (nonlinear_arith);
    }

    /// A valid time lies inside its day, and taking the time of its second
    /// gives the time back.
    pub proof fn lemma_time_of_second_of_day(&self, time: RawTime)
        requires
            self.wf(),
            self.valid_time(time),
        ensures
            0 <= self.second_of_day(time) < self.spec_seconds_in_day(),
            self.time_of_second(self.second_of_day(time)) == time,
    {
        let day = self.day_lengths();
        day.lemma_bounds();
        let per_minute = day.seconds_in_minute as int;
        let per_hour = day.seconds_in_hour() as int;
        let minutes = day.minutes_in_hour as int;
        let hours = day.hours_in_day as int;
        let h = time.hour as int;
        let m = time.minute as int;
        let s = time.second as int;
        let second = self.second_of_day(time);
        assert(m * per_minute + s < per_hour) by (nonlinear_arith)
            requires
                0 <= m < minutes,
                0 <= s < per_minute,
                per_hour == per_minute * minutes,
        ;
        assert(m * per_minute + s >= 0) by (nonlinear_arith)
            requires
                0 <= m,
                0 <= s,
                0 < per_minute,
        ;
        assert(h * per_hour + per_hour <= per_hour * hours) by (nonlinear_arith)
            requires
                0 <= h < hours,
                per_hour > 0,
        ;
        assert(h * per_hour >= 0) by (nonlinear_arith)
            requires
                0 <= h,
                per_hour > 0,
        ;
        vstd::arithmetic::div_mod::lemma_fundamental_div_mod_converse(
            second,
            per_hour,
            h,
            m * per_minute + s,
        );
        assert(second == (h * minutes + m) * per_minute + s) by (nonlinear_arith)
            requires
                second == h * per_hour + m * per_minute + s,
                per_hour == per_minute * minutes,
        ;
        assert(h * minutes >= 0) by (nonlinear_arith)
            requires
                0 <= h,
                0 < minutes,
        ;
        vstd::arithmetic::div_mod::lemma_fundamental_div_mod_converse(
            second,
            per_minute,
            h * minutes + m,
            s,
        );
        vstd::arithmetic::div_mod::lemma_fundamental_div_mod_converse(
            h * minutes + m,
            minutes,
            h,
            m,
        );
    }

    /// The time of a second of the day is valid, and its second is that
    /// second.
    pub proof fn lemma_second_of_day_of_time(&self, second: int)
        requires
            self.wf(),
            0 <= second < self.spec_seconds_in_day(),
        ensures
            self.valid_time(self.time_of_second(second)),
            self.second_of_day(self.time_of_second(second)) == second,
    {
        let day = self.day_lengths();
        day.lemma_bounds();
        let per_minute = day.seconds_in_minute as int;
        let per_hour = day.seconds_in_hour() as int;
        let minutes = day.minutes_in_hour as int;
        let hours = day.hours_in_day as int;
        lemma_floor_div_bounds(second, per_hour);
        lemma_floor_div_bounds(second, per_minute);
        lemma_floor_div_bounds(second / per_minute, minutes);
        let h = second / per_hour;
        assert(h < hours) by (nonlinear_arith)
            requires
                second == per_hour * h + second % per_hour,
                0 <= second % per_hour,
                second < per_hour * hours,
                per_hour > 0,
        ;
        assert((second / per_minute) / minutes == second / (per_minute * minutes)) by {
            vstd::arithmetic::div_mod::lemma_div_denominator(second, per_minute, minutes);
        }
        let total_minutes = second / per_minute;
        let m = total_minutes % minutes;
        let s = second % per_minute;
        assert(h * per_hour + m * per_minute + s == second) by (nonlinear_arith)
            requires
                second == per_minute * total_minutes + s,
                total_minutes == minutes * h + m,
                per_hour == per_minute * minutes,
        ;
    }

    /// A valid date and time gives an instant from which the same date and
    /// time come back.
    pub proof fn lemma_datetime_of_instant_of(&self, moment: RawDateTime)
        requires
            self.wf(),
            self.valid_datetime(moment),
        ensures
            self.day_of_instant(self.instant(moment)) == self.day_number(moment.date),
            self.second_of_instant(self.instant(moment)) == self.second_of_day(moment.time),
            self.instant_is_representable(self.instant(moment)),
            self.datetime_of_instant(self.instant(moment)) == moment,
    {
        self.day_lengths().lemma_bounds();
        self.lemma_date_of_day_number(moment.date);
        self.lemma_time_of_second_of_day(moment.time);
        vstd::arithmetic::div_mod::lemma_fundamental_div_mod_converse(
            self.instant(moment),
            self.spec_seconds_in_day() as int,
            self.day_number(moment.date),
            self.second_of_day(moment.time),
        );
    }

    /// The date and time at an instant are valid, and their instant is that
    /// instant.
    pub proof fn lemma_instant_of_datetime_of(&self, instant: int)
        requires
            self.wf(),
            self.instant_is_representable(instant),
        ensures
            self.valid_datetime(self.datetime_of_instant(instant)),
            self.instant(self.datetime_of_instant(instant)) == instant,
    {
        self.day_lengths().lemma_bounds();
        let day_length = self.spec_seconds_in_day() as int;
        lemma_floor_div_bounds(instant, day_length);
        self.lemma_day_number_of_date(self.day_of_instant(instant));
        self.lemma_second_of_day_of_time(self.second_of_instant(instant));
        assert((instant / day_length) * day_length == day_length * (instant / day_length))
            by (nonlinear_arith);
    }
}

} // verus!
