//! Times of the day in arbitrary calendars.

use super::time_of_day::TimeOfDay;
use super::traits::{ModifyTime, ShowTime};
use crate::calendar::Calendar;
use crate::calendar::traits::{ConvertTime, DayCycle};
use crate::datetime::traits::ModifyDate;
use crate::util::lemma_floor_div_bounds;
use vstd::prelude::*;

verus! {

/// Possible invalid time states.
#[derive(Clone, Copy, Debug, Eq, PartialEq, Structural)]
pub enum InvalidTimeError {
    /// The hour is not an hour of the day.
    HourOutOfBounds(u32),
    /// The minute is not a minute of the hour.
    MinuteOutOfBounds(u32),
    /// The second is not a second of the minute.
    SecondOutOfBounds(u32),
}

/// A raw time object: an hour, a minute and a second. It knows no calendar.
#[derive(Clone, Copy, Debug, Default, Eq, Ord, PartialEq, PartialOrd, Structural)]
pub struct RawTime {
    /// The hour component.
    pub hour: u32,
    /// The minute component.
    pub minute: u32,
    /// The second component.
    pub second: u32,
}

impl RawTime {
    /// Convert this `RawTime` into a `Time` object. Nothing is checked: the
    /// time is well formed only where it exists in the calendar.
    pub fn into_time(self, cal: &Calendar) -> (r: Time<'_>)
        ensures
            r.time == self,
            r.calendar == cal,
            r.wf() <==> cal.valid_time(self),
    {
        proof {
            use_type_invariant(cal);
        }
        Time { time: self, calendar: cal }
    }
}

/// Allow to specify a time relative to another.
#[derive(Clone, Copy, Debug, Eq, PartialEq, Structural)]
pub enum TimeFormat {
    /// The hour is taken as it stands.
    Exact,
    /// The hour is an hour of the first half of the day.
    AM,
    /// The hour is an hour of the second half of the day: half of the hours
    /// of a day are added to it.
    PM,
}

impl TimeFormat {
    /// The hours that this format adds to an hour, in a day of
    /// `hours_in_day` hours.
    pub open spec fn offset(self, hours_in_day: nat) -> nat {
        match self {
            TimeFormat::Exact => 0,
            TimeFormat::AM => 0,
            TimeFormat::PM => hours_in_day / 2,
        }
    }
}

impl Default for TimeFormat {
    fn default() -> (r: Self)
        ensures
            r == TimeFormat::Exact,
    {
        Self::Exact
    }
}

/// Represents times.
#[derive(Clone, Copy, Debug, Eq, PartialEq)]
pub struct Time<'a> {
    /// The raw time object.
    pub time: RawTime,
    /// The calendar this `Time` uses.
    pub calendar: &'a Calendar,
}

impl<'a> Time<'a> {
    /// The calendar is well formed and the time exists in it.
    pub open spec fn wf(&self) -> bool {
        self.calendar.wf() && self.calendar.valid_time(self.time)
    }

    /// The seconds of the day that lie before this time.
    pub open spec fn second_of_day(&self) -> int {
        self.calendar.second_of_day(self.time)
    }

    /// The time at second `second` of the day in `calendar`.
    pub open spec fn at(calendar: &'a Calendar, second: int) -> Time<'a> {
        Time { time: calendar.time_of_second(second), calendar }
    }

    /// What `from_hms` makes of an hour-minute-second tuple: the format is
    /// applied to the hour, then the hour, the minute and the second are
    /// looked at in this order, and the first that is out of bounds is the
    /// error. An hour too large for 32 bits is reported as the largest 32-bit
    /// number.
    pub open spec fn spec_from_hms(
        hour: u32,
        minute: u32,
        second: u32,
        calendar: &'a Calendar,
        format: TimeFormat,
    ) -> Result<Time<'a>, InvalidTimeError> {
        let lengths = calendar.day_lengths();
        let adjusted = hour + format.offset(lengths.hours_in_day);
        if adjusted >= lengths.hours_in_day {
            Err(
                InvalidTimeError::HourOutOfBounds(
                    if adjusted <= u32::MAX {
                        adjusted as u32
                    } else {
                        u32::MAX
                    },
                ),
            )
        } else if minute >= lengths.minutes_in_hour {
            Err(InvalidTimeError::MinuteOutOfBounds(minute))
        } else if second >= lengths.seconds_in_minute {
            Err(InvalidTimeError::SecondOutOfBounds(second))
        } else {
            Ok(Time { time: RawTime { hour: adjusted as u32, minute, second }, calendar })
        }
    }

    /// Create a new `Time` from an hour-minute-second tuple.
    ///
    /// The format is applied to the hour first. Then this will return an
    /// `InvalidTimeError` if any of the components is outside the bounds of
    /// the calendar: the hour is looked at first, then the minute, then the
    /// second. An hour too large for 32 bits is reported as the largest
    /// 32-bit number.
    pub fn from_hms(
        hour: u32,
        minute: u32,
        second: u32,
        calendar: &'a Calendar,
        format: TimeFormat,
    ) -> (r: Result<Self, InvalidTimeError>)
        ensures
            r == Time::spec_from_hms(hour, minute, second, calendar, format),
            r matches Ok(time) ==> time.wf(),
    {
        proof {
            use_type_invariant(calendar);
        }
        let offset: u32 = match format {
            TimeFormat::Exact => 0,
            TimeFormat::AM => 0,
            TimeFormat::PM => calendar.hours_in_day() / 2,
        };
        let hour: u32 = hour.saturating_add(offset);
        if hour >= calendar.hours_in_day() {
            Err(InvalidTimeError::HourOutOfBounds(hour))
        } else if minute >= calendar.minutes_in_hour() {
            Err(InvalidTimeError::MinuteOutOfBounds(minute))
        } else if second >= calendar.seconds_in_minute() {
            Err(InvalidTimeError::SecondOutOfBounds(second))
        } else {
            Ok(Self { time: RawTime { hour, minute, second }, calendar })
        }
    }

    /// Create a new `Time` representing a number of seconds since midnight.
    ///
    /// Seconds beyond those of a day are taken modulo the seconds of a day.
    pub fn from_seconds(seconds: u32, calendar: &'a Calendar) -> (r: Self)
        ensures
            r == Time::at(calendar, seconds as int % (calendar.spec_seconds_in_day() as int)),
            r.wf(),
    {
        proof {
            use_type_invariant(calendar);
            calendar.day_lengths().lemma_bounds();
        }
        let in_day: u32 = seconds % calendar.seconds_in_day();
        let hour: u32 = in_day / calendar.seconds_in_hour();
        let minute: u32 = (in_day / calendar.seconds_in_minute()) % calendar.minutes_in_hour();
        let second: u32 = in_day % calendar.seconds_in_minute();
        proof {
            calendar.lemma_second_of_day_of_time(in_day as int);
        }
        Self { time: RawTime { hour, minute, second }, calendar }
    }

    /// Tells whether this time lies before another of the same calendar.
    pub fn is_before(&self, other: &Time) -> (r: bool)
        requires
            self.wf(),
            other.wf(),
            self.calendar == other.calendar,
        ensures
            r == (self.second_of_day() < other.second_of_day()),
    {
        self.seconds() < other.seconds()
    }

    /// Adds `amount` spans of `unit` seconds to this time, where a span is
    /// no longer than a day. Gets the time reached and the number of whole
    /// days passed over.
    pub fn add_span(&self, amount: u32, unit: u32) -> (r: (Time<'a>, u32))
        requires
            self.wf(),
            0 < unit <= self.calendar.spec_seconds_in_day(),
        ensures
            r.0 == Time::at(
                self.calendar,
                self.calendar.second_of_instant(self.second_of_day() + amount * unit),
            ),
            r.0.wf(),
            r.1 == self.calendar.day_of_instant(self.second_of_day() + amount * unit),
            r.0.second_of_day() + r.1 * self.calendar.spec_seconds_in_day()
                == self.second_of_day() + amount * unit,
    {
        let calendar = self.calendar;
        let day_length: u64 = calendar.seconds_in_day() as u64;
        let now: u64 = self.seconds() as u64;
        proof {
            calendar.lemma_time_of_second_of_day(self.time);
            assert(amount * unit <= 0xffff_ffff * 0xffff_ffff) by (nonlinear_arith)
                requires
                    amount <= 0xffff_ffff,
                    unit <= 0xffff_ffff,
            ;
        }
        let sum: u64 = now + amount as u64 * unit as u64;
        let days: u64 = sum / day_length;
        let rest: u64 = sum % day_length;
        proof {
            lemma_floor_div_bounds(sum as int, day_length as int);
            assert(days <= amount) by (nonlinear_arith)
                requires
                    sum == day_length * days + rest,
                    0 <= rest,
                    sum == now + amount * unit,
                    now < day_length,
                    0 < unit <= day_length,
                    0 <= amount,
            ;
            calendar.lemma_second_of_day_of_time(rest as int);
            assert(days * day_length == day_length * days) by (nonlinear_arith);
            assert(rest as u32 as int % (day_length as int) == rest) by {
                vstd::arithmetic::div_mod::lemma_small_mod(rest as nat, day_length as nat);
            }
        }
        (Time::from_seconds(rest as u32, calendar), days as u32)
    }
}

impl<'a> ShowTime for Time<'a> {
    open spec fn time_calendar(&self) -> Calendar {
        *self.calendar
    }

    open spec fn shown_time(&self) -> RawTime {
        self.time
    }

    fn hour(&self) -> (r: u32) {
        self.time.hour
    }

    fn minute(&self) -> (r: u32) {
        self.time.minute
    }

    fn second(&self) -> (r: u32) {
        self.time.second
    }

    fn seconds(&self) -> (r: u32) {
        proof {
            self.calendar.lemma_time_of_second_of_day(self.time);
            self.calendar.day_lengths().lemma_bounds();
            let day = self.calendar.day_lengths();
            assert(self.time.hour * day.seconds_in_hour() >= 0) by (nonlinear_arith);
            assert(self.time.minute * day.seconds_in_minute >= 0) by (nonlinear_arith);
        }
        self.calendar.hours_to_seconds(self.time.hour) + self.calendar.minutes_to_seconds(
            self.time.minute,
        ) + self.time.second
    }

    fn time_of_day(self) -> (r: TimeOfDay) {
        match TimeOfDay::from_time(self.time.hour, self.calendar.hours_in_day()) {
            Some(part) => part,
            None => vstd::pervasive::unreached(),
        }
    }
}

impl<'a> ModifyTime for Time<'a> {
    type Item = Time<'a>;

    open spec fn with_time(&self, time: RawTime) -> Time<'a> {
        Time { time, calendar: self.calendar }
    }

    fn add_seconds(&self, seconds: u32) -> (r: (Time<'a>, u32)) {
        proof {
            self.calendar.day_lengths().lemma_bounds();
            assert(seconds * 1 == seconds) by (nonlinear_arith);
        }
        self.add_span(seconds, 1)
    }

    fn add_minutes(&self, minutes: u32) -> (r: (Time<'a>, u32)) {
        proof {
            self.calendar.day_lengths().lemma_bounds();
        }
        self.add_span(minutes, self.calendar.seconds_in_minute())
    }

    fn add_hours(&self, hours: u32) -> (r: (Time<'a>, u32)) {
        proof {
            self.calendar.day_lengths().lemma_bounds();
        }
        self.add_span(hours, self.calendar.seconds_in_hour())
    }
}

} // verus!
