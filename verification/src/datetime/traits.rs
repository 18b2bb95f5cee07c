//! Traits for viewing and modifying dates and times.
//!
//! Each trait names, as specification functions, the calendar and the raw
//! value that an implementor stands for. The contracts of the methods are
//! stated over these and over the model of the calendar, so they hold of
//! every implementor alike.

use super::date::RawDate;
use super::datetime::RawDateTime;
use super::time::RawTime;
use super::time_of_day::TimeOfDay;
use crate::calendar::Calendar;
use crate::calendar::traits::{DayCycle, WeekCycle, YearCycle};
use crate::cycle::cyclic_sum;
use vstd::prelude::*;

verus! {

/// The `ShowTime` trait provides a number of methods to get common
/// information about times.
pub trait ShowTime: Sized {
    /// The calendar that the time is read in.
    spec fn time_calendar(&self) -> Calendar;

    /// The hour, minute and second shown.
    spec fn shown_time(&self) -> RawTime;

    /// Gets the hour component.
    fn hour(&self) -> (r: u32)
        ensures
            r == self.shown_time().hour,
    ;

    /// Gets the minutes component.
    fn minute(&self) -> (r: u32)
        ensures
            r == self.shown_time().minute,
    ;

    /// Gets the seconds component.
    fn second(&self) -> (r: u32)
        ensures
            r == self.shown_time().second,
    ;

    /// The total number of seconds since midnight that this time represents.
    fn seconds(&self) -> (r: u32)
        requires
            self.time_calendar().wf(),
            self.time_calendar().valid_time(self.shown_time()),
        ensures
            r == self.time_calendar().second_of_day(self.shown_time()),
    ;

    /// Gets the `TimeOfDay` that corresponds to this time.
    fn time_of_day(self) -> (r: TimeOfDay)
        requires
            self.time_calendar().wf(),
            self.time_calendar().valid_time(self.shown_time()),
        ensures
            Some(r) == TimeOfDay::spec_from_time(
                self.shown_time().hour as nat,
                self.time_calendar().day_lengths().hours_in_day,
            ),
    ;
}

/// The `ShowDate` trait provides a number of methods to get common
/// information about dates.
pub trait ShowDate: Sized {
    /// The calendar that the date is read in.
    spec fn date_calendar(&self) -> Calendar;

    /// The year, month and day shown. The month and the day count from zero.
    spec fn shown_date(&self) -> RawDate;

    /// Gets the year that the date is referring to in this calendar.
    fn year(&self) -> (r: i64)
        ensures
            r == self.shown_date().year,
    ;

    /// Extracts the month component, counted from one.
    fn month(&self) -> (r: u32)
        requires
            self.shown_date().month < u32::MAX,
        ensures
            r == self.shown_date().month + 1,
    ;

    /// Gets the name of the month.
    fn month_name(&self) -> (r: &str)
        requires
            self.date_calendar().wf(),
            self.date_calendar().valid_date(self.shown_date()),
        ensures
            r@ == self.date_calendar().spec_months()[self.shown_date().month as int].name@,
    ;

    /// Extracts the week component: the days from the start of year zero to
    /// the date, the year taken without its sign, modulo the days of the
    /// week.
    fn week(&self) -> (r: u32)
        requires
            self.date_calendar().wf(),
            self.date_calendar().valid_date(self.shown_date()),
        ensures
            r == (vstd::math::abs(self.shown_date().year as int)
                * self.date_calendar().spec_days_in_year() + self.date_calendar().day_of_year(
                self.shown_date(),
            )) % (self.date_calendar().week_length() as int),
    ;

    /// Gets the day of the week, counted from one. It goes by the number of
    /// days since the first day of year one, so it runs on unbroken through
    /// the years, before year one too.
    fn week_day(&self) -> (r: u32)
        requires
            self.date_calendar().wf(),
            self.date_calendar().valid_date(self.shown_date()),
        ensures
            r == self.date_calendar().week_day_of_day(
                self.date_calendar().day_number(self.shown_date()),
            ) + 1,
    ;

    /// Gets the name of the day of the week.
    fn week_day_name(&self) -> (r: &str)
        requires
            self.date_calendar().wf(),
            self.date_calendar().valid_date(self.shown_date()),
        ensures
            r@ == self.date_calendar().spec_week_days()[self.date_calendar().week_day_of_day(
                self.date_calendar().day_number(self.shown_date()),
            )].name@,
    ;

    /// Extracts the day component, counted from one.
    fn day(&self) -> (r: u32)
        requires
            self.shown_date().day < u32::MAX,
        ensures
            r == self.shown_date().day + 1,
    ;

    /// Gets the number of days that have passed in the current year.
    fn days(&self) -> (r: u32)
        requires
            self.date_calendar().wf(),
            self.date_calendar().valid_date(self.shown_date()),
        ensures
            r == self.date_calendar().day_of_year(self.shown_date()),
    ;
}

/// Allows modifying time-like objects. Each method returns the new object
/// and the number of whole days that were passed over.
pub trait ModifyTime: ShowTime {
    /// The resulting type.
    type Item;

    /// This value with its time replaced.
    spec fn with_time(&self, time: RawTime) -> Self::Item;

    /// Add a number of hours to a time object.
    fn add_hours(&self, hours: u32) -> (r: (Self::Item, u32))
        requires
            self.time_calendar().wf(),
            self.time_calendar().valid_time(self.shown_time()),
        ensures
            r.0 == self.with_time(
                self.time_calendar().time_of_second(
                    self.time_calendar().second_of_instant(
                        self.time_calendar().second_of_day(self.shown_time()) + hours
                            * self.time_calendar().day_lengths().seconds_in_hour(),
                    ),
                ),
            ),
            r.1 == self.time_calendar().day_of_instant(
                self.time_calendar().second_of_day(self.shown_time()) + hours
                    * self.time_calendar().day_lengths().seconds_in_hour(),
            ),
    ;

    /// Add a number of minutes to a time object.
    fn add_minutes(&self, minutes: u32) -> (r: (Self::Item, u32))
        requires
            self.time_calendar().wf(),
            self.time_calendar().valid_time(self.shown_time()),
        ensures
            r.0 == self.with_time(
                self.time_calendar().time_of_second(
                    self.time_calendar().second_of_instant(
                        self.time_calendar().second_of_day(self.shown_time()) + minutes
                            * self.time_calendar().day_lengths().seconds_in_minute,
                    ),
                ),
            ),
            r.1 == self.time_calendar().day_of_instant(
                self.time_calendar().second_of_day(self.shown_time()) + minutes
                    * self.time_calendar().day_lengths().seconds_in_minute,
            ),
    ;

    /// Add a number of seconds to a time object.
    fn add_seconds(&self, seconds: u32) -> (r: (Self::Item, u32))
        requires
            self.time_calendar().wf(),
            self.time_calendar().valid_time(self.shown_time()),
        ensures
            r.0 == self.with_time(
                self.time_calendar().time_of_second(
                    self.time_calendar().second_of_instant(
                        self.time_calendar().second_of_day(self.shown_time()) + seconds,
                    ),
                ),
            ),
            r.1 == self.time_calendar().day_of_instant(
                self.time_calendar().second_of_day(self.shown_time()) + seconds,
            ),
    ;
}

/// Allows modifying date-like objects. Each method needs the year of the
/// result to fit in 64 bits.
pub trait ModifyDate: ShowDate {
    /// The resulting type.
    type Item;

    /// This value with its date replaced.
    spec fn with_date(&self, date: RawDate) -> Self::Item;

    /// Add a number of years to a date object. The month and the day stay.
    fn add_years(self, years: u32) -> (r: Self::Item)
        requires
            self.date_calendar().wf(),
            self.date_calendar().valid_date(self.shown_date()),
            self.shown_date().year + years <= i64::MAX,
        ensures
            r == self.with_date(
                RawDate { year: (self.shown_date().year + years) as i64, ..self.shown_date() },
            ),
    ;

    /// Add a number of months to a date object: as many days as the given
    /// number of months hold, counted cyclically from the month of the date.
    /// The day of the month stays where the month reached has such a day;
    /// where it has not, the date runs on into the month after.
    fn add_months(self, months: u32) -> (r: Self::Item)
        requires
            self.date_calendar().wf(),
            self.date_calendar().valid_date(self.shown_date()),
            self.date_calendar().day_is_representable(
                self.date_calendar().day_number(self.shown_date()) + cyclic_sum(
                    self.date_calendar().month_lengths(),
                    self.shown_date().month as int,
                    months as int,
                ),
            ),
        ensures
            r == self.with_date(
                self.date_calendar().date_of_day(
                    self.date_calendar().day_number(self.shown_date()) + cyclic_sum(
                        self.date_calendar().month_lengths(),
                        self.shown_date().month as int,
                        months as int,
                    ),
                ),
            ),
    ;

    /// Add a number of weeks to a date object.
    fn add_weeks(self, weeks: u32) -> (r: Self::Item)
        requires
            self.date_calendar().wf(),
            self.date_calendar().valid_date(self.shown_date()),
            self.date_calendar().day_is_representable(
                self.date_calendar().day_number(self.shown_date()) + weeks
                    * self.date_calendar().week_length(),
            ),
        ensures
            r == self.with_date(
                self.date_calendar().date_of_day(
                    self.date_calendar().day_number(self.shown_date()) + weeks
                        * self.date_calendar().week_length(),
                ),
            ),
    ;

    /// Add a number of days to a date object.
    fn add_days(self, days: u32) -> (r: Self::Item)
        requires
            self.date_calendar().wf(),
            self.date_calendar().valid_date(self.shown_date()),
            self.date_calendar().day_is_representable(
                self.date_calendar().day_number(self.shown_date()) + days,
            ),
        ensures
            r == self.with_date(
                self.date_calendar().date_of_day(
                    self.date_calendar().day_number(self.shown_date()) + days,
                ),
            ),
    ;
}

/// The `ModifyDateTime` trait provides a number of methods to modify time
/// in datetime-like objects while respecting rollover between time and
/// date. Each method needs the year of the result to fit in 64 bits.
pub trait ModifyDateTime: ShowDate + ShowTime {
    /// The item that the modification outputs.
    type Item;

    /// The item that stands at `instant` in the calendar of this one.
    spec fn at_instant(&self, instant: int) -> Self::Item;

    /// Get a new `Self::Item` with a number of hours added.
    fn add_hours(&self, hours: u32) -> (r: Self::Item)
        requires
            self.date_calendar() == self.time_calendar(),
            self.date_calendar().wf(),
            self.date_calendar().valid_date(self.shown_date()),
            self.date_calendar().valid_time(self.shown_time()),
            self.date_calendar().instant_is_representable(
                self.date_calendar().instant(
                    RawDateTime { date: self.shown_date(), time: self.shown_time() },
                ) + hours * self.date_calendar().day_lengths().seconds_in_hour(),
            ),
        ensures
            r == self.at_instant(
                self.date_calendar().instant(
                    RawDateTime { date: self.shown_date(), time: self.shown_time() },
                ) + hours * self.date_calendar().day_lengths().seconds_in_hour(),
            ),
    ;

    /// Get a new `Self::Item` with a number of minutes added.
    fn add_minutes(&self, minutes: u32) -> (r: Self::Item)
        requires
            self.date_calendar() == self.time_calendar(),
            self.date_calendar().wf(),
            self.date_calendar().valid_date(self.shown_date()),
            self.date_calendar().valid_time(self.shown_time()),
            self.date_calendar().instant_is_representable(
                self.date_calendar().instant(
                    RawDateTime { date: self.shown_date(), time: self.shown_time() },
                ) + minutes * self.date_calendar().day_lengths().seconds_in_minute,
            ),
        ensures
            r == self.at_instant(
                self.date_calendar().instant(
                    RawDateTime { date: self.shown_date(), time: self.shown_time() },
                ) + minutes * self.date_calendar().day_lengths().seconds_in_minute,
            ),
    ;

    /// Get a new `Self::Item` with a number of seconds added.
    fn add_seconds(&self, seconds: u32) -> (r: Self::Item)
        requires
            self.date_calendar() == self.time_calendar(),
            self.date_calendar().wf(),
            self.date_calendar().valid_date(self.shown_date()),
            self.date_calendar().valid_time(self.shown_time()),
            self.date_calendar().instant_is_representable(
                self.date_calendar().instant(
                    RawDateTime { date: self.shown_date(), time: self.shown_time() },
                ) + seconds,
            ),
        ensures
            r == self.at_instant(
                self.date_calendar().instant(
                    RawDateTime { date: self.shown_date(), time: self.shown_time() },
                ) + seconds,
            ),
    ;
}

} // verus!
