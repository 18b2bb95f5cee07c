//! Targets to wait for.

use super::date::InvalidDateError;
use super::time::{InvalidTimeError, RawTime, Time, TimeFormat};
use crate::calendar::Calendar;
use crate::calendar::traits::DayCycle;
use vstd::prelude::*;

verus! {

/// Allows you to wait until a given time.
#[derive(Clone, Copy, Debug)]
pub enum WaitTarget<'a> {
    /// Wait until the next occurrence of `Time`. Only its hour, minute and
    /// second count: they are read in the calendar of the moment that waits.
    Time(Time<'a>),
    /// Convenience to wait until midnight regardless of calendar.
    Midnight,
    /// Convenience to wait until midday regardless of calendar: the hour
    /// that is half of the hours of a day.
    Midday,
}

/// Possible error states that can occur when trying to wait.
#[derive(Clone, Copy, Debug, Eq, PartialEq, Structural)]
pub enum InvalidWaitError {
    /// The time is out of bounds.
    InvalidTime(InvalidTimeError),
    /// The date is out of bounds.
    InvalidDate(InvalidDateError),
    /// The wait target, given first, is not ahead of the current time, given
    /// second.
    BackwardsWait(RawTime, RawTime),
}

impl<'a> WaitTarget<'a> {
    /// The hour, minute and second waited for in `calendar`.
    pub open spec fn spec_time(self, calendar: &Calendar) -> RawTime {
        match self {
            WaitTarget::Time(time) => time.time,
            WaitTarget::Midnight => RawTime { hour: 0, minute: 0, second: 0 },
            WaitTarget::Midday => RawTime {
                hour: (calendar.day_lengths().hours_in_day / 2) as u32,
                minute: 0,
                second: 0,
            },
        }
    }

    /// Gets the time waited for in `calendar`, or what is wrong with it
    /// there.
    pub fn time_in<'b>(self, calendar: &'b Calendar) -> (r: Result<Time<'b>, InvalidTimeError>)
        ensures
            match r {
                Ok(time) => {
                    &&& time.calendar == calendar
                    &&& time.time == self.spec_time(calendar)
                    &&& time.wf()
                },
                Err(e) => calendar.time_error(self.spec_time(calendar)) == Some(e),
            },
    {
        proof {
            use_type_invariant(calendar);
        }
        match self {
            WaitTarget::Time(time) => Time::from_hms(
                time.time.hour,
                time.time.minute,
                time.time.second,
                calendar,
                TimeFormat::Exact,
            ),
            WaitTarget::Midnight => Time::from_hms(0, 0, 0, calendar, TimeFormat::AM),
            WaitTarget::Midday => Time::from_hms(0, 0, 0, calendar, TimeFormat::PM),
        }
    }
}

} // verus!
