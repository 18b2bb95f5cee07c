//! Dates in arbitrary calendars.

use super::traits::{ModifyDate, ShowDate};
use crate::calendar::Calendar;
use crate::calendar::traits::{ConvertDate, DayCycle, WeekCycle, YearCycle};
use crate::cycle::{
    cyclic_sum, lemma_cyclic_sum_at_least_count, lemma_cyclic_sum_extend,
    lemma_cyclic_sum_full_pass, lemma_cyclic_sum_passes, lemma_cyclic_sum_split,
    lemma_prefix_sum_grows, lemma_walk_unique, prefix_sum, total,
};
use crate::util::{div_rem_floor, lemma_floor_div_bounds, rem_floor};
use vstd::prelude::*;

verus! {

/// Possible invalid states for dates.
#[derive(Clone, Copy, Debug, Eq, PartialEq, Structural)]
pub enum InvalidDateError {
    /// The month, counted from one, is zero or beyond the year.
    MonthOutOfBounds(u32),
    /// The day, counted from one, is zero or beyond the month.
    DayOutOfBounds(u32),
    /// The year does not fit in 64 bits.
    YearOutOfBounds,
}

/// A raw date object: a year, and a month and a day that both count from
/// zero. It knows no calendar.
#[derive(Clone, Copy, Debug, Default, Eq, Ord, PartialEq, PartialOrd, Structural)]
pub struct RawDate {
    /// The year component.
    pub year: i64,
    /// The month component, counted from zero.
    pub month: u32,
    /// The day component, counted from zero.
    pub day: u32,
}

impl RawDate {
    /// Create a new `RawDate` from a year-month-day tuple whose month and
    /// day count from one.
    ///
    /// This will return an `InvalidDateError` if the month or the day is 0.
    pub fn new(year: i64, month: u32, day: u32) -> (r: Result<Self, InvalidDateError>)
        ensures
            match r {
                Ok(date) => {
                    &&& month > 0
                    &&& day > 0
                    &&& date.year == year
                    &&& date.month == month - 1
                    &&& date.day == day - 1
                },
                Err(InvalidDateError::MonthOutOfBounds(m)) => month == 0 && m == month,
                Err(InvalidDateError::DayOutOfBounds(d)) => month > 0 && day == 0 && d == day,
                Err(InvalidDateError::YearOutOfBounds) => false,
            },
    {
        if month == 0 {
            Err(InvalidDateError::MonthOutOfBounds(month))
        } else if day == 0 {
            Err(InvalidDateError::DayOutOfBounds(day))
        } else {
            Ok(Self { year, month: month - 1, day: day - 1 })
        }
    }

    /// Convert this `RawDate` into a `Date` object. Nothing is checked: the
    /// date is well formed only where it exists in the calendar.
    pub fn into_date(self, cal: &Calendar) -> (r: Date<'_>)
        ensures
            r.date == self,
            r.calendar == cal,
            r.wf() <==> cal.valid_date(self),
    {
        proof {
            use_type_invariant(cal);
        }
        Date { date: self, calendar: cal }
    }
}

/// Represents dates in arbitrary calendars.
#[derive(Clone, Copy, Debug, Eq, PartialEq)]
pub struct Date<'a> {
    /// The date component.
    pub date: RawDate,
    /// The calendar this date is relative to.
    pub calendar: &'a Calendar,
}

impl<'a> Date<'a> {
    /// The calendar is well formed and the date exists in it.
    pub open spec fn wf(&self) -> bool {
        self.calendar.wf() && self.calendar.valid_date(self.date)
    }

    /// The days that lie between the first day of year one and this date.
    pub open spec fn day_number(&self) -> int {
        self.calendar.day_number(self.date)
    }

    /// The date of the day of number `day` in `calendar`.
    pub open spec fn at(calendar: &'a Calendar, day: int) -> Date<'a> {
        Date { date: calendar.date_of_day(day), calendar }
    }

    /// What is wrong with a year-month-day tuple whose month and day count
    /// from one, where anything is. A month of zero is found first, then a
    /// day of zero, then a month beyond the year, then a day beyond the
    /// month.
    pub open spec fn ymd_error(year: i64, month: u32, day: u32, calendar: &Calendar) -> Option<
        InvalidDateError,
    > {
        if month == 0 {
            Some(InvalidDateError::MonthOutOfBounds(month))
        } else if day == 0 {
            Some(InvalidDateError::DayOutOfBounds(day))
        } else if month > calendar.month_lengths().len() {
            Some(InvalidDateError::MonthOutOfBounds(month))
        } else if day > calendar.month_lengths()[month - 1] {
            Some(InvalidDateError::DayOutOfBounds(day))
        } else {
            None
        }
    }

    /// Create a new `Date` from a year-month-day tuple whose month and day
    /// count from one.
    ///
    /// This will return an `InvalidDateError` if the month or the day is
    /// outside the bounds of the calendar.
    pub fn from_ymd(year: i64, month: u32, day: u32, calendar: &'a Calendar) -> (r: Result<
        Self,
        InvalidDateError,
    >)
        ensures
            match r {
                Ok(date) => {
                    &&& Date::ymd_error(year, month, day, calendar) is None
                    &&& date.calendar == calendar
                    &&& date.date.year == year
                    &&& date.date.month == month - 1
                    &&& date.date.day == day - 1
                    &&& date.wf()
                },
                Err(e) => Date::ymd_error(year, month, day, calendar) == Some(e),
            },
    {
        proof {
            use_type_invariant(calendar);
        }
        let raw = match RawDate::new(year, month, day) {
            Ok(raw) => raw,
            Err(e) => {
                return Err(e);
            },
        };
        let date = Date { date: raw, calendar };
        match calendar.validate_date(&date) {
            Ok(_) => Ok(date),
            Err(e) => Err(e),
        }
    }

    /// Create a new `Date` from a number of seconds relative to midnight of
    /// the first day of year one. The day is found by floored division, so
    /// that negative seconds give dates before year one.
    pub fn from_seconds(seconds: i64, calendar: &'a Calendar) -> (r: Self)
        requires
            calendar.instant_is_representable(seconds as int),
        ensures
            r == Date::at(calendar, calendar.day_of_instant(seconds as int)),
            r.wf(),
    {
        proof {
            use_type_invariant(calendar);
            calendar.day_lengths().lemma_bounds();
        }
        let day_length: i64 = calendar.seconds_in_day() as i64;
        let (total_days, _) = div_rem_floor(seconds, day_length);
        let (years, year_days) = div_rem_floor(total_days, calendar.days_in_year() as i64);
        let (month, day) = calendar.days_to_months(year_days as u32);
        proof {
            lemma_walk_unique(
                calendar.month_lengths(),
                0,
                year_days as int,
                month as int,
                day as int,
            );
            calendar.lemma_day_number_of_date(total_days as int);
        }
        Date { date: RawDate { year: years + 1, month, day }, calendar }
    }

    /// Gets the days that lie between the first day of year one and this
    /// date, in 128 bits.
    pub fn day_number_wide(&self) -> (r: i128)
        requires
            self.wf(),
        ensures
            r == self.day_number(),
    {
        let years: i128 = self.date.year as i128 - 1;
        let year_length: i128 = self.calendar.days_in_year() as i128;
        let in_year: i128 = self.days() as i128;
        proof {
            assert(-(0x8000_0000_0000_0001 * 0xffff_ffff) <= years * year_length
                <= 0x8000_0000_0000_0001 * 0xffff_ffff) by (nonlinear_arith)
                requires
                    -0x8000_0000_0000_0001 <= years <= 0x8000_0000_0000_0001,
                    0 <= year_length <= 0xffff_ffff,
            ;
        }
        years * year_length + in_year
    }

    /// Tells whether this date lies before another of the same calendar.
    pub fn is_before(&self, other: &Date) -> (r: bool)
        requires
            self.wf(),
            other.wf(),
            self.calendar == other.calendar,
        ensures
            r == (self.day_number() < other.day_number()),
    {
        self.day_number_wide() < other.day_number_wide()
    }

    /// Given a number of days, walks the months cyclically from the start of
    /// the year and gets the months passed and the day reached, both counted
    /// from one.
    pub fn calculate_month_and_day(&self, days: u32) -> (r: (u32, u32))
        requires
            days < u32::MAX,
        ensures
            r.0 > 0,
            r.1 > 0,
            cyclic_sum(self.calendar.month_lengths(), 0, r.0 - 1) + (r.1 - 1) == days,
            r.1 - 1 < self.calendar.month_lengths()[(r.0 - 1) % (
            self.calendar.month_lengths().len() as int)],
    {
        proof {
            use_type_invariant(self.calendar);
        }
        let (months, rest) = self.calendar.days_to_months(days);
        proof {
            let lengths = self.calendar.month_lengths();
            lemma_cyclic_sum_at_least_count(lengths, 0, months as int);
            vstd::arithmetic::div_mod::lemma_mod_bound(months as int, lengths.len() as int);
            lemma_prefix_sum_grows(
                lengths,
                months as int % (lengths.len() as int) + 1,
                lengths.len() as int,
            );
        }
        (months + 1, rest + 1)
    }

    /// Moves the date forward by a number of years and then by a number of
    /// days. The answer is `None` exactly where the year reached does not
    /// fit in 64 bits.
    pub fn shift(self, years: u32, days: u64) -> (r: Option<Date<'a>>)
        requires
            self.wf(),
        ensures
            r is Some <==> self.calendar.day_is_representable(
                self.day_number() + years * self.calendar.spec_days_in_year() + days,
            ),
            r matches Some(date) ==> {
                &&& date == Date::at(
                    self.calendar,
                    self.day_number() + years * self.calendar.spec_days_in_year() + days,
                )
                &&& date.wf()
            },
    {
        let calendar = self.calendar;
        let year_length: u32 = calendar.days_in_year();
        let in_year: u32 = self.days();
        let sum: u128 = in_year as u128 + days as u128;
        let carried: u128 = sum / (year_length as u128);
        let rest: u32 = (sum % (year_length as u128)) as u32;
        let new_year: i128 = self.date.year as i128 + years as i128 + carried as i128;
        let ghost target = self.day_number() + years * calendar.spec_days_in_year() + days;
        proof {
            let length = year_length as int;
            lemma_floor_div_bounds(sum as int, length);
            assert(target == (self.date.year - 1 + years + carried) * length + rest)
                by (nonlinear_arith)
                requires
                    target == (self.date.year - 1) * length + in_year + years * length + days,
                    sum == in_year + days,
                    sum == length * carried + rest,
            ;
            vstd::arithmetic::div_mod::lemma_fundamental_div_mod_converse(
                target,
                length,
                self.date.year - 1 + years + carried,
                rest as int,
            );
        }
        if new_year > i64::MAX as i128 {
            return None;
        }
        let (month, day) = calendar.days_to_months(rest);
        proof {
            lemma_walk_unique(
                calendar.month_lengths(),
                0,
                rest as int,
                month as int,
                day as int,
            );
            calendar.lemma_day_number_of_date(target);
        }
        Some(Date { date: RawDate { year: new_year as i64, month, day }, calendar })
    }

    /// The days held by `count` months, counted cyclically from the month
    /// at place `from`, where `count` is no more than the months of the
    /// year.
    fn days_in_months_from(&self, from: u32, count: u32) -> (r: u32)
        requires
            self.calendar.wf(),
            from < self.calendar.month_lengths().len(),
            count <= self.calendar.month_lengths().len(),
        ensures
            r == cyclic_sum(self.calendar.month_lengths(), from as int, count as int),
    {
        let all = self.calendar.months();
        let ghost lengths = self.calendar.month_lengths();
        let mut days: u32 = 0;
        let mut place: usize = from as usize;
        let mut done: u32 = 0;
        proof {
            vstd::arithmetic::div_mod::lemma_small_mod(from as nat, lengths.len());
        }
        while done < count
            invariant
                all@ == self.calendar.spec_months(),
                lengths == self.calendar.month_lengths(),
                self.calendar.wf(),
                from < lengths.len(),
                done <= count <= lengths.len(),
                place < all.len(),
                place == (from + done) % (lengths.len() as int),
                days == cyclic_sum(lengths, from as int, done as int),
            decreases count - done,
        {
            proof {
                let len = lengths.len() as int;
                lemma_cyclic_sum_extend(lengths, from as int, done as int);
                lemma_cyclic_sum_split(lengths, from as int, done + 1, len - done - 1);
                lemma_cyclic_sum_full_pass(lengths, from as int);
                vstd::arithmetic::div_mod::lemma_add_mod_noop(from + done, 1, len);
                if place + 1 < len {
                    vstd::arithmetic::div_mod::lemma_small_mod((place + 1) as nat, len as nat);
                } else {
                    vstd::arithmetic::div_mod::lemma_mod_self_0(len);
                }
                if len > 1 {
                    vstd::arithmetic::div_mod::lemma_small_mod(1, len as nat);
                } else {
                    vstd::arithmetic::div_mod::lemma_mod_self_0(1);
                }
            }
            days = days + all[place].days;
            done = done + 1;
            place = if place + 1 < all.len() {
                place + 1
            } else {
                0
            };
        }
        days
    }

    /// Moves the date forward by the days that `months` months hold, counted
    /// cyclically from the month of the date. The answer is `None` exactly
    /// where the year reached does not fit in 64 bits.
    pub fn shift_months(self, months: u32) -> (r: Option<Date<'a>>)
        requires
            self.wf(),
        ensures
            r is Some <==> self.calendar.day_is_representable(
                self.day_number() + cyclic_sum(
                    self.calendar.month_lengths(),
                    self.date.month as int,
                    months as int,
                ),
            ),
            r matches Some(date) ==> {
                &&& date == Date::at(
                    self.calendar,
                    self.day_number() + cyclic_sum(
                        self.calendar.month_lengths(),
                        self.date.month as int,
                        months as int,
                    ),
                )
                &&& date.wf()
            },
    {
        let ghost lengths = self.calendar.month_lengths();
        proof {
            lemma_prefix_sum_grows(lengths, 0, lengths.len() as int);
        }
        let in_year: u32 = self.calendar.months_in_year();
        let passes: u32 = months / in_year;
        let rest: u32 = months % in_year;
        let days: u32 = self.days_in_months_from(self.date.month, rest);
        proof {
            lemma_floor_div_bounds(months as int, in_year as int);
            assert(passes * in_year + rest == months) by (nonlinear_arith)
                requires
                    months == in_year * passes + rest,
            ;
            lemma_cyclic_sum_passes(lengths, self.date.month as int, passes as int, rest as int);
        }
        self.shift(passes, days as u64)
    }
}

impl<'a> ShowDate for Date<'a> {
    open spec fn date_calendar(&self) -> Calendar {
        *self.calendar
    }

    open spec fn shown_date(&self) -> RawDate {
        self.date
    }

    fn year(&self) -> (r: i64) {
        self.date.year
    }

    fn month(&self) -> (r: u32) {
        self.date.month + 1
    }

    fn day(&self) -> (r: u32) {
        self.date.day + 1
    }

    fn days(&self) -> (r: u32) {
        let all = self.calendar.months();
        let ghost lengths = self.calendar.month_lengths();
        let count: usize = self.date.month as usize;
        let mut days: u32 = 0;
        let mut i: usize = 0;
        while i < count
            invariant
                0 <= i <= count < all.len(),
                all@ == self.calendar.spec_months(),
                lengths == self.calendar.month_lengths(),
                days == prefix_sum(lengths, i as int),
                total(lengths) <= u32::MAX,
            decreases count - i,
        {
            proof {
                lemma_prefix_sum_grows(lengths, i + 1, lengths.len() as int);
            }
            days = days + all[i].days;
            i = i + 1;
        }
        proof {
            lemma_prefix_sum_grows(lengths, count + 1, lengths.len() as int);
        }
        days + self.date.day
    }

    fn week_day(&self) -> (r: u32) {
        let week_length: i128 = self.calendar.days_in_week() as i128;
        let year_length: i128 = self.calendar.days_in_year() as i128;
        let in_year: i128 = self.days() as i128;
        let years: i128 = self.date.year as i128 - 1;
        proof {
            assert(-0x1_0000_0000_0000_0000_0000_0000 <= years * year_length
                <= 0x1_0000_0000_0000_0000_0000_0000) by (nonlinear_arith)
                requires
                    -0x1_0000_0000_0000_0000 <= years <= 0x1_0000_0000_0000_0000,
                    0 <= year_length <= 0x1_0000_0000,
            ;
        }
        let days_so_far: i128 = years * year_length + in_year;
        let week_day: i128 = rem_floor(days_so_far, week_length);
        week_day as u32 + 1
    }

    fn week_day_name(&self) -> (r: &str) {
        let week_day: u32 = self.week_day();
        self.calendar.week_days()[(week_day - 1) as usize].name.as_str()
    }

    fn month_name(&self) -> (r: &str) {
        self.calendar.months()[self.date.month as usize].name.as_str()
    }

    fn week(&self) -> (r: u32) {
        let week_length: i128 = self.calendar.days_in_week() as i128;
        let year_length: i128 = self.calendar.days_in_year() as i128;
        let in_year: i128 = self.days() as i128;
        let years: i128 = if self.date.year < 0 {
            -(self.date.year as i128)
        } else {
            self.date.year as i128
        };
        proof {
            assert(0 <= years * year_length <= 0x1_0000_0000_0000_0000_0000_0000)
                by (nonlinear_arith)
                requires
                    0 <= years <= 0x1_0000_0000_0000_0000,
                    0 <= year_length <= 0x1_0000_0000,
            ;
        }
        let days: i128 = years * year_length + in_year;
        rem_floor(days, week_length) as u32
    }
}

impl<'a> ModifyDate for Date<'a> {
    type Item = Date<'a>;

    open spec fn with_date(&self, date: RawDate) -> Date<'a> {
        Date { date, calendar: self.calendar }
    }

    fn add_years(self, years: u32) -> (r: Date<'a>) {
        Date {
            calendar: self.calendar,
            date: RawDate { year: self.date.year + years as i64, ..self.date },
        }
    }

    fn add_months(self, months: u32) -> (r: Date<'a>) {
        match self.shift_months(months) {
            Some(date) => date,
            None => vstd::pervasive::unreached(),
        }
    }

    fn add_weeks(self, weeks: u32) -> (r: Date<'a>) {
        proof {
            assert(weeks * self.calendar.week_length() <= 0xffff_ffff * 0xffff_ffff)
                by (nonlinear_arith)
                requires
                    weeks <= 0xffff_ffff,
                    self.calendar.week_length() <= 0xffff_ffff,
            ;
        }
        let days: u64 = weeks as u64 * self.calendar.days_in_week() as u64;
        match self.shift(0, days) {
            Some(date) => date,
            None => vstd::pervasive::unreached(),
        }
    }

    fn add_days(self, days: u32) -> (r: Date<'a>) {
        if days == 0 {
            proof {
                self.calendar.lemma_date_of_day_number(self.date);
            }
            return self;
        }
        match self.shift(0, days as u64) {
            Some(date) => date,
            None => vstd::pervasive::unreached(),
        }
    }
}

} // verus!
