//! Traits for inspecting the cycles a calendar is made of.

use crate::cycle::{all_positive, cyclic_sum, leading_sum, total};
use vstd::prelude::*;

verus! {

/// The lengths that make up a day, as mathematical integers.
pub struct DayLengths {
    /// Seconds in a minute.
    pub seconds_in_minute: nat,
    /// Minutes in an hour.
    pub minutes_in_hour: nat,
    /// Hours in a day.
    pub hours_in_day: nat,
}

impl DayLengths {
    /// Seconds in an hour.
    pub open spec fn seconds_in_hour(self) -> nat {
        self.seconds_in_minute * self.minutes_in_hour
    }

    /// Minutes in a day.
    pub open spec fn minutes_in_day(self) -> nat {
        self.minutes_in_hour * self.hours_in_day
    }

    /// Seconds in a day.
    pub open spec fn seconds_in_day(self) -> nat {
        self.seconds_in_minute * self.minutes_in_hour * self.hours_in_day
    }

    /// The three lengths are positive and a day's seconds fit in 32 bits.
    pub open spec fn wf(self) -> bool {
        &&& self.seconds_in_minute > 0
        &&& self.minutes_in_hour > 0
        &&& self.hours_in_day > 0
        &&& self.seconds_in_day() <= u32::MAX
    }

    /// In a well-formed day every derived length is positive and bounded by
    /// the seconds of the day.
    pub proof fn lemma_bounds(self)
        requires
            self.wf(),
        ensures
            0 < self.seconds_in_minute <= self.seconds_in_hour() <= self.seconds_in_day(),
            0 < self.minutes_in_hour <= self.minutes_in_day() <= self.seconds_in_day(),
            0 < self.hours_in_day <= self.minutes_in_day(),
            self.seconds_in_day() == self.seconds_in_hour() * self.hours_in_day,
            self.seconds_in_day() == self.seconds_in_minute * self.minutes_in_day(),
            self.seconds_in_day() > 0,
    {
        let s = self.seconds_in_minute as int;
        let m = self.minutes_in_hour as int;
        let h = self.hours_in_day as int;
        assert(s <= s * m && m <= s * m) by (nonlinear_arith)
            requires
                s > 0,
                m > 0,
        ;
        assert(m <= m * h && h <= m * h) by (nonlinear_arith)
            requires
                m > 0,
                h > 0,
        ;
        assert(s * m <= (s * m) * h) by (nonlinear_arith)
            requires
                s * m > 0,
                h > 0,
        ;
        assert((s * m) * h == s * (m * h)) by (nonlinear_arith);
        assert(m * h <= s * (m * h)) by (nonlinear_arith)
            requires
                s > 0,
                m * h > 0,
        ;
    }
}

/// The cycle of a year: its months and days.
pub trait YearCycle {
    /// The lengths of the months, in order.
    spec fn month_lengths(&self) -> Seq<nat>;

    /// Gets the days in a year.
    fn days_in_year(&self) -> (r: u32)
        requires
            total(self.month_lengths()) <= u32::MAX,
        ensures
            r == total(self.month_lengths()),
    ;

    /// Gets the number of months in a year.
    fn months_in_year(&self) -> (r: u32)
        requires
            self.month_lengths().len() <= u32::MAX,
        ensures
            r == self.month_lengths().len(),
    ;
}

/// The cycle of a week.
pub trait WeekCycle {
    /// The number of days in a week.
    spec fn week_length(&self) -> nat;

    /// Gets the days in a week.
    fn days_in_week(&self) -> (r: u32)
        requires
            self.week_length() <= u32::MAX,
        ensures
            r == self.week_length(),
    ;
}

/// The cycle of a day: hours, minutes and seconds.
pub trait DayCycle {
    /// The lengths that make up the day.
    spec fn day_lengths(&self) -> DayLengths;

    /// Gets the hours in the day.
    fn hours_in_day(&self) -> (r: u32)
        ensures
            r == self.day_lengths().hours_in_day,
    ;

    /// Gets the minutes in the hour.
    fn minutes_in_hour(&self) -> (r: u32)
        ensures
            r == self.day_lengths().minutes_in_hour,
    ;

    /// Gets the seconds in the minute.
    fn seconds_in_minute(&self) -> (r: u32)
        ensures
            r == self.day_lengths().seconds_in_minute,
    ;

    /// Gets the total number of seconds in a day.
    fn seconds_in_day(&self) -> (r: u32)
        requires
            self.day_lengths().wf(),
        ensures
            r == self.day_lengths().seconds_in_day(),
    {
        proof {
            self.day_lengths().lemma_bounds();
        }
        self.seconds_in_minute() * self.minutes_in_day()
    }

    /// Gets the total number of seconds in an hour.
    fn seconds_in_hour(&self) -> (r: u32)
        requires
            self.day_lengths().wf(),
        ensures
            r == self.day_lengths().seconds_in_hour(),
    {
        proof {
            self.day_lengths().lemma_bounds();
        }
        self.seconds_in_minute() * self.minutes_in_hour()
    }

    /// Gets the total number of minutes in a day.
    fn minutes_in_day(&self) -> (r: u32)
        requires
            self.day_lengths().wf(),
        ensures
            r == self.day_lengths().minutes_in_day(),
    {
        proof {
            self.day_lengths().lemma_bounds();
        }
        self.minutes_in_hour() * self.hours_in_day()
    }
}

/// Conversion of days, hours and minutes to seconds.
pub trait ConvertTime: DayCycle {
    /// Gets the number of seconds corresponding to a number of days.
    fn days_to_seconds(&self, days: u32) -> (r: u32)
        requires
            self.day_lengths().wf(),
            days * self.day_lengths().seconds_in_day() <= u32::MAX,
        ensures
            r == days * self.day_lengths().seconds_in_day(),
    ;

    /// Gets the number of seconds corresponding to a number of hours.
    fn hours_to_seconds(&self, hours: u32) -> (r: u32)
        requires
            self.day_lengths().wf(),
            hours * self.day_lengths().seconds_in_hour() <= u32::MAX,
        ensures
            r == hours * self.day_lengths().seconds_in_hour(),
    ;

    /// Gets the number of seconds corresponding to a number of minutes.
    fn minutes_to_seconds(&self, minutes: u32) -> (r: u32)
        requires
            minutes * self.day_lengths().seconds_in_minute <= u32::MAX,
        ensures
            r == minutes * self.day_lengths().seconds_in_minute,
    ;
}

/// Conversion between months, years, weeks and days and seconds.
pub trait ConvertDate: YearCycle + WeekCycle + DayCycle {
    /// Given a number of months, calculates the seconds that pass between
    /// the beginning of the year and the end of that many months. Months are
    /// of different lengths, so this is always relative to the start of the
    /// year; a number beyond the months of the year gives the whole year.
    fn months_to_seconds(&self, months: u32) -> (r: u32)
        requires
            self.day_lengths().wf(),
            total(self.month_lengths()) <= u32::MAX,
            leading_sum(self.month_lengths(), months as int) * self.day_lengths().seconds_in_day()
                <= u32::MAX,
        ensures
            r == leading_sum(self.month_lengths(), months as int)
                * self.day_lengths().seconds_in_day(),
    ;

    /// Gets the number of seconds corresponding to a number of years.
    fn years_to_seconds(&self, years: u32) -> (r: u32)
        requires
            self.day_lengths().wf(),
            total(self.month_lengths()) * self.day_lengths().seconds_in_day() <= u32::MAX,
            total(self.month_lengths()) * self.day_lengths().seconds_in_day() * years
                <= u32::MAX,
        ensures
            r == total(self.month_lengths()) * self.day_lengths().seconds_in_day() * years,
    ;

    /// Gets the number of seconds corresponding to a number of weeks.
    fn weeks_to_seconds(&self, weeks: u32) -> (r: u32)
        requires
            self.day_lengths().wf(),
            self.week_length() <= u32::MAX,
            weeks * self.week_length() <= u32::MAX,
            weeks * self.week_length() * self.day_lengths().seconds_in_day() <= u32::MAX,
        ensures
            r == weeks * self.week_length() * self.day_lengths().seconds_in_day(),
    ;

    /// Walks the months cyclically, wrapping past the end of the year, and
    /// gets the number of whole months that fit in `days` together with the
    /// days left over in the month reached. Both count from zero; the number
    /// of months is not reduced modulo the months of the year.
    fn days_to_months(&self, days: u32) -> (r: (u32, u32))
        requires
            self.month_lengths().len() > 0,
            all_positive(self.month_lengths()),
        ensures
            cyclic_sum(self.month_lengths(), 0, r.0 as int) + r.1 == days,
            r.1 < self.month_lengths()[r.0 as int % (self.month_lengths().len() as int)],
    ;
}

impl<T: DayCycle> ConvertTime for T {
    fn days_to_seconds(&self, days: u32) -> (r: u32) {
        days * self.seconds_in_day()
    }

    fn hours_to_seconds(&self, hours: u32) -> (r: u32) {
        hours * self.seconds_in_hour()
    }

    fn minutes_to_seconds(&self, minutes: u32) -> (r: u32) {
        minutes * self.seconds_in_minute()
    }
}

} // verus!
