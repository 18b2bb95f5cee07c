//! Validation of dates and times against a calendar.

use super::calendar::Calendar;
use crate::calendar::traits::DayCycle;
use crate::datetime::{InvalidDateError, InvalidTimeError};
use crate::datetime::traits::{ShowDate, ShowTime};
use vstd::prelude::*;

verus! {

impl Calendar {
    /// Validates a date against this calendar: its month must be a month of
    /// the year and its day a day of that month. The month is looked at
    /// first. An error carries the offending number, counted from one.
    pub fn validate_date<'a, T: ShowDate>(&self, date: &'a T) -> (r: Result<
        &'a T,
        InvalidDateError,
    >)
        requires
            date.shown_date().month < u32::MAX,
            date.shown_date().day < u32::MAX,
        ensures
            match r {
                Ok(same) => same == date && self.valid_date(date.shown_date()),
                Err(e) => self.date_error(date.shown_date()) == Some(e),
            },
    {
        let day: u32 = date.day();
        let month: u32 = date.month();
        let months = self.months();
        if month == 0 || month as usize > months.len() {
            Err(InvalidDateError::MonthOutOfBounds(month))
        } else if day == 0 || day > months[month as usize - 1].days {
            Err(InvalidDateError::DayOutOfBounds(day))
        } else {
            Ok(date)
        }
    }

    /// Validates a time against this calendar: the hour first, then the
    /// minute, then the second. An error carries the offending number.
    pub fn validate_time<'a, T: ShowTime>(&self, time: &'a T) -> (r: Result<
        &'a T,
        InvalidTimeError,
    >)
        ensures
            match r {
                Ok(same) => same == time && self.valid_time(time.shown_time()),
                Err(e) => self.time_error(time.shown_time()) == Some(e),
            },
    {
        let hour: u32 = time.hour();
        let minute: u32 = time.minute();
        let second: u32 = time.second();
        if hour >= self.hours_in_day() {
            Err(InvalidTimeError::HourOutOfBounds(hour))
        } else if minute >= self.minutes_in_hour() {
            Err(InvalidTimeError::MinuteOutOfBounds(minute))
        } else if second >= self.seconds_in_minute() {
            Err(InvalidTimeError::SecondOutOfBounds(second))
        } else {
            Ok(time)
        }
    }
}

} // verus!
