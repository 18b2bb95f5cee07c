//! Dates with a time of the day, and the arithmetic on them.

use super::{InvalidWaitError, WaitTarget};
use super::date::{Date, InvalidDateError, RawDate};
use super::time::{InvalidTimeError, RawTime, Time};
use super::time_of_day::TimeOfDay;
use super::traits::{ModifyDate, ModifyDateTime, ModifyTime, ShowDate, ShowTime};
use crate::calendar::{Calendar, Era};
use crate::calendar::era::{era_of_year, year_in_its_era};
use crate::calendar::traits::{ConvertDate, DayCycle, WeekCycle, YearCycle};
use crate::cycle::cyclic_sum;
use crate::expression::Unit;
use crate::util::{div_rem_floor, lemma_floor_div_bounds, rem_floor};
use vstd::prelude::*;

verus! {

/// Possible invalid datetime states.
#[derive(Clone, Copy, Debug, Eq, PartialEq, Structural)]
pub enum InvalidDateTimeError {
    /// The date component is invalid.
    InvalidDate(InvalidDateError),
    /// The time component is invalid.
    InvalidTime(InvalidTimeError),
}

/// A date and a time without the calendar.
#[derive(Clone, Copy, Debug, Eq, Ord, PartialEq, PartialOrd, Structural)]
pub struct RawDateTime {
    /// The date component.
    pub date: RawDate,
    /// The time component.
    pub time: RawTime,
}

impl RawDateTime {
    /// Convert this `RawDateTime` into a `DateTime` object. Nothing is
    /// checked: the result is well formed only where the date and the time
    /// exist in the calendar.
    pub fn into_datetime(self, cal: &Calendar) -> (r: DateTime<'_>)
        ensures
            r.raw() == self,
            r.date.calendar == cal,
            r.time.calendar == cal,
            r.wf() <==> cal.valid_datetime(self),
    {
        DateTime { date: self.date.into_date(cal), time: self.time.into_time(cal) }
    }
}

/// The seconds to wait, at second `current` of a day of `day` seconds, for
/// the next time that second `target` of the day comes: later the same day
/// where the target lies ahead, the next day where it does not. At the
/// target itself the wait is a whole day.
pub open spec fn wait_seconds(current: int, target: int, day: int) -> int {
    if target > current {
        target - current
    } else {
        day - current + target
    }
}

impl Calendar {
    /// Moving a date on by whole days moves the instant on by as many days
    /// of seconds and leaves the time alone.
    pub proof fn lemma_instant_plus_days(&self, moment: RawDateTime, days: int)
        requires
            self.wf(),
            self.valid_datetime(moment),
        ensures
            self.day_of_instant(self.instant(moment) + days * self.spec_seconds_in_day())
                == self.day_number(moment.date) + days,
            self.datetime_of_instant(self.instant(moment) + days * self.spec_seconds_in_day())
                == (RawDateTime {
                date: self.date_of_day(self.day_number(moment.date) + days),
                time: moment.time,
            }),
    {
        self.day_lengths().lemma_bounds();
        self.lemma_time_of_second_of_day(moment.time);
        let day_length = self.spec_seconds_in_day() as int;
        let day = self.day_number(moment.date);
        assert(self.instant(moment) + days * day_length == (day + days) * day_length
            + self.second_of_day(moment.time)) by (nonlinear_arith)
            requires
                self.instant(moment) == day * day_length + self.second_of_day(moment.time),
        ;
        vstd::arithmetic::div_mod::lemma_fundamental_div_mod_converse(
            self.instant(moment) + days * day_length,
            day_length,
            day + days,
            self.second_of_day(moment.time),
        );
    }

    /// Moving an instant on by seconds carries whole days into the date.
    pub proof fn lemma_instant_plus_seconds(&self, moment: RawDateTime, seconds: int)
        requires
            self.wf(),
            self.valid_datetime(moment),
            seconds >= 0,
        ensures
            self.day_of_instant(self.instant(moment) + seconds) == self.day_number(moment.date)
                + self.day_of_instant(self.second_of_day(moment.time) + seconds),
            self.second_of_instant(self.instant(moment) + seconds) == self.second_of_instant(
                self.second_of_day(moment.time) + seconds,
            ),
    {
        self.day_lengths().lemma_bounds();
        self.lemma_time_of_second_of_day(moment.time);
        let day_length = self.spec_seconds_in_day() as int;
        let day = self.day_number(moment.date);
        let sum = self.second_of_day(moment.time) + seconds;
        lemma_floor_div_bounds(sum, day_length);
        assert(self.instant(moment) + seconds == (day + sum / day_length) * day_length + sum
            % day_length) by (nonlinear_arith)
            requires
                self.instant(moment) == day * day_length + self.second_of_day(moment.time),
                sum == self.second_of_day(moment.time) + seconds,
                sum == day_length * (sum / day_length) + sum % day_length,
        ;
        vstd::arithmetic::div_mod::lemma_fundamental_div_mod_converse(
            self.instant(moment) + seconds,
            day_length,
            day + sum / day_length,
            sum % day_length,
        );
    }
}

/// Allows you to do calendar-aware manipulation of a date and a time.
#[derive(Clone, Copy, Debug, Eq, PartialEq)]
pub struct DateTime<'a> {
    /// The date component.
    pub date: Date<'a>,
    /// The time component.
    pub time: Time<'a>,
}

impl<'a> DateTime<'a> {
    /// The date and the time are well formed and share one calendar.
    pub open spec fn wf(&self) -> bool {
        &&& self.date.wf()
        &&& self.time.wf()
        &&& self.date.calendar == self.time.calendar
    }

    /// The date and the time without the calendar.
    pub open spec fn raw(&self) -> RawDateTime {
        RawDateTime { date: self.date.date, time: self.time.time }
    }

    /// The seconds that lie between midnight of the first day of year one
    /// and this moment.
    pub open spec fn instant(&self) -> int {
        self.date.calendar.instant(self.raw())
    }

    /// The date and time at `instant` in `calendar`.
    pub open spec fn at(calendar: &'a Calendar, instant: int) -> DateTime<'a> {
        DateTime {
            date: Date { date: calendar.datetime_of_instant(instant).date, calendar },
            time: Time { time: calendar.datetime_of_instant(instant).time, calendar },
        }
    }

    /// The seconds that `amount` units hold when counted from this moment.
    /// Years, weeks, days, hours, minutes and seconds are of fixed length.
    /// Months are as long as the months passed over, counted cyclically from
    /// the month of this moment.
    pub open spec fn seconds_in(&self, amount: nat, unit: Unit) -> int {
        let calendar = self.date.calendar;
        let day = calendar.spec_seconds_in_day() as int;
        match unit {
            Unit::Year => amount * calendar.spec_days_in_year() * day,
            Unit::Month => cyclic_sum(
                calendar.month_lengths(),
                self.date.date.month as int,
                amount as int,
            ) * day,
            Unit::Week => amount * calendar.week_length() * day,
            Unit::Day => amount * day,
            Unit::Hour => (amount * calendar.day_lengths().seconds_in_hour()) as int,
            Unit::Minute => (amount * calendar.day_lengths().seconds_in_minute) as int,
            Unit::Second => amount as int,
        }
    }

    /// The moment that lies `amount` units after this one.
    pub open spec fn after(&self, amount: nat, unit: Unit) -> DateTime<'a> {
        DateTime::at(self.date.calendar, self.instant() + self.seconds_in(amount, unit))
    }

    /// The year of the moment that lies `amount` units after this one fits
    /// in 64 bits.
    pub open spec fn can_advance(&self, amount: nat, unit: Unit) -> bool {
        self.date.calendar.instant_is_representable(
            self.instant() + self.seconds_in(amount, unit),
        )
    }

    /// Create a new `DateTime` at midnight of a year-month-day tuple whose
    /// month and day count from one.
    ///
    /// This will return an `InvalidDateTimeError` if the month or the day is
    /// outside the bounds of the calendar.
    pub fn from_date(year: i64, month: u32, day: u32, calendar: &'a Calendar) -> (r: Result<
        Self,
        InvalidDateTimeError,
    >)
        ensures
            match r {
                Ok(moment) => {
                    &&& Date::ymd_error(year, month, day, calendar) is None
                    &&& moment.date.calendar == calendar
                    &&& moment.time.calendar == calendar
                    &&& moment.date.date.year == year
                    &&& moment.date.date.month == month - 1
                    &&& moment.date.date.day == day - 1
                    &&& moment.time.time == (RawTime { hour: 0, minute: 0, second: 0 })
                    &&& moment.wf()
                },
                Err(InvalidDateTimeError::InvalidDate(e)) => Date::ymd_error(
                    year,
                    month,
                    day,
                    calendar,
                ) == Some(e),
                Err(InvalidDateTimeError::InvalidTime(_)) => false,
            },
    {
        proof {
            use_type_invariant(calendar);
            calendar.day_lengths().lemma_bounds();
            let lengths = calendar.day_lengths();
            lemma_floor_div_bounds(0, calendar.spec_seconds_in_day() as int);
            lemma_floor_div_bounds(0, lengths.seconds_in_hour() as int);
            lemma_floor_div_bounds(0, lengths.seconds_in_minute as int);
            lemma_floor_div_bounds(0, lengths.minutes_in_hour as int);
        }
        match Date::from_ymd(year, month, day, calendar) {
            Ok(date) => Ok(Self { date, time: Time::from_seconds(0, calendar) }),
            Err(e) => Err(InvalidDateTimeError::InvalidDate(e)),
        }
    }

    /// Create a new `DateTime` from a number of seconds relative to midnight
    /// of the first day of year one. Negative seconds give moments before
    /// year one: the day is found by floored division and the second of the
    /// day is never negative.
    pub fn from_seconds(seconds: i64, calendar: &'a Calendar) -> (r: Self)
        requires
            calendar.instant_is_representable(seconds as int),
        ensures
            r == DateTime::at(calendar, seconds as int),
            r.instant() == seconds,
            r.wf(),
    {
        proof {
            use_type_invariant(calendar);
            calendar.day_lengths().lemma_bounds();
            calendar.lemma_instant_of_datetime_of(seconds as int);
        }
        let day_length: i64 = calendar.seconds_in_day() as i64;
        let (_, in_day) = div_rem_floor(seconds, day_length);
        proof {
            vstd::arithmetic::div_mod::lemma_small_mod(in_day as nat, day_length as nat);
        }
        Self {
            date: Date::from_seconds(seconds, calendar),
            time: Time::from_seconds(in_day as u32, calendar),
        }
    }

    /// Gets the date and the time without the calendar.
    pub fn to_raw(&self) -> (r: RawDateTime)
        ensures
            r == self.raw(),
    {
        RawDateTime { date: self.date.date, time: self.time.time }
    }

    /// Tells whether this moment lies before another of the same calendar.
    pub fn is_before(&self, other: &DateTime) -> (r: bool)
        requires
            self.wf(),
            other.wf(),
            self.date.calendar == other.date.calendar,
        ensures
            r == (self.instant() < other.instant()),
    {
        self.instant_wide() < other.instant_wide()
    }

    /// Gets the era of this moment: the first era of the calendar, in list
    /// order, that contains its year. Eras count years from zero, so the
    /// year looked for is the year of this moment less one. Where no era
    /// contains it the answer is `None`.
    pub fn era(&self) -> (r: Option<&'a Era>)
        requires
            self.date.date.year > i64::MIN,
        ensures
            match r {
                Some(era) => era_of_year(
                    self.date.calendar.spec_eras(),
                    self.date.date.year - 1,
                ) == Some(*era),
                None => era_of_year(self.date.calendar.spec_eras(), self.date.date.year - 1)
                    is None,
            },
    {
        self.date.calendar.era_of(self.date.date.year - 1)
    }

    /// Gets the year of this moment as its era numbers it: counted from the
    /// start of the era, the first year being year one, or unchanged where
    /// the era has no start. The answer is `None` where no era contains the
    /// year, and where the number does not fit in 64 bits.
    pub fn era_year(&self) -> (r: Option<i64>)
        requires
            self.date.date.year > i64::MIN,
        ensures
            match r {
                Some(shown) => year_in_its_era(
                    self.date.calendar.spec_eras(),
                    self.date.date.year - 1,
                ) == Some(shown as int),
                None => match year_in_its_era(
                    self.date.calendar.spec_eras(),
                    self.date.date.year - 1,
                ) {
                    Some(shown) => !(i64::MIN <= shown <= i64::MAX),
                    None => true,
                },
            },
    {
        self.date.calendar.year_in_era(self.date.date.year - 1)
    }

    /// Gets the underlying calendar for this `DateTime` object.
    pub fn calendar(&self) -> (r: &'a Calendar)
        ensures
            r == self.date.calendar,
    {
        self.date.calendar
    }

    /// The seconds since midnight of the first day of year one, in 128 bits.
    fn instant_wide(&self) -> (r: i128)
        requires
            self.wf(),
        ensures
            r == self.instant(),
    {
        let calendar = self.date.calendar;
        let day_length: i128 = calendar.seconds_in_day() as i128;
        let in_day: i128 = self.time.seconds() as i128;
        let day_number: i128 = self.date.day_number_wide();
        proof {
            calendar.lemma_date_of_day_number(self.date.date);
            calendar.lemma_time_of_second_of_day(self.time.time);
            let years = self.date.date.year - 1;
            let year_length = calendar.spec_days_in_year() as int;
            assert(-(0x8000_0000_0000_0001 * 0xffff_ffff) <= years * year_length
                <= 0x8000_0000_0000_0001 * 0xffff_ffff) by (nonlinear_arith)
                requires
                    -0x8000_0000_0000_0001 <= years <= 0x8000_0000_0000_0001,
                    0 <= year_length <= 0xffff_ffff,
            ;
            assert(-(0x8000_0000_0000_0002 * 0xffff_ffff * 0xffff_ffff) <= day_number
                * day_length <= 0x8000_0000_0000_0002 * 0xffff_ffff * 0xffff_ffff)
                by (nonlinear_arith)
                requires
                    -(0x8000_0000_0000_0002 * 0xffff_ffff) <= day_number
                        <= 0x8000_0000_0000_0002 * 0xffff_ffff,
                    0 <= day_length <= 0xffff_ffff,
            ;
        }
        day_number * day_length + in_day
    }

    /// Gets the seconds since midnight of the first day of year one, or
    /// `None` where they do not fit in 64 bits.
    pub fn to_seconds(&self) -> (r: Option<i64>)
        requires
            self.wf(),
        ensures
            r is Some <==> i64::MIN <= self.instant() <= i64::MAX,
            r matches Some(seconds) ==> seconds == self.instant(),
    {
        let instant: i128 = self.instant_wide();
        if instant < i64::MIN as i128 || instant > i64::MAX as i128 {
            None
        } else {
            Some(instant as i64)
        }
    }

    /// Gets the seconds since midnight of the first day of year one, modulo
    /// some other number. The answer is never negative.
    pub fn seconds_modulo(&self, other: u32) -> (r: u32)
        requires
            self.wf(),
            other > 0,
        ensures
            r == self.instant() % (other as int),
    {
        rem_floor(self.instant_wide(), other as i128) as u32
    }

    /// Moves this moment forward by a number of seconds. The answer is
    /// `None` exactly where the year reached does not fit in 64 bits.
    pub fn shift_seconds(self, seconds: u64) -> (r: Option<DateTime<'a>>)
        requires
            self.wf(),
        ensures
            r is Some <==> self.date.calendar.instant_is_representable(self.instant() + seconds),
            r matches Some(moment) ==> {
                &&& moment == DateTime::at(self.date.calendar, self.instant() + seconds)
                &&& moment.instant() == self.instant() + seconds
                &&& moment.wf()
            },
    {
        let calendar = self.date.calendar;
        proof {
            calendar.day_lengths().lemma_bounds();
            calendar.lemma_time_of_second_of_day(self.time.time);
        }
        let day_length: u128 = calendar.seconds_in_day() as u128;
        let now: u128 = self.time.seconds() as u128;
        let sum: u128 = now + seconds as u128;
        let days: u128 = sum / day_length;
        let rest: u128 = sum % day_length;
        proof {
            lemma_floor_div_bounds(sum as int, day_length as int);
            assert(days <= seconds) by (nonlinear_arith)
                requires
                    sum == day_length * days + rest,
                    0 <= rest,
                    sum == now + seconds,
                    now < day_length,
                    0 <= seconds,
            ;
            calendar.lemma_instant_plus_seconds(self.raw(), seconds as int);
            vstd::arithmetic::div_mod::lemma_small_mod(rest as nat, day_length as nat);
            assert(days * 1 == days) by (nonlinear_arith);
            assert(0 * calendar.spec_days_in_year() == 0) by (nonlinear_arith);
        }
        let time = Time::from_seconds(rest as u32, calendar);
        match self.date.shift(0, days as u64) {
            Some(date) => {
                proof {
                    calendar.lemma_instant_of_datetime_of(self.instant() + seconds);
                }
                Some(DateTime { date, time })
            },
            None => None,
        }
    }

    /// Puts a date that lies a whole number of days after the date of this
    /// moment in the place of its date.
    fn on_date(self, date: Option<Date<'a>>, Ghost(days): Ghost<int>) -> (r: Option<DateTime<'a>>)
        requires
            self.wf(),
            date is Some <==> self.date.calendar.day_is_representable(
                self.date.day_number() + days,
            ),
            date matches Some(d) ==> d == Date::at(
                self.date.calendar,
                self.date.day_number() + days,
            ) && d.wf(),
        ensures
            r is Some <==> self.date.calendar.instant_is_representable(
                self.instant() + days * self.date.calendar.spec_seconds_in_day(),
            ),
            r matches Some(moment) ==> {
                &&& moment == DateTime::at(
                    self.date.calendar,
                    self.instant() + days * self.date.calendar.spec_seconds_in_day(),
                )
                &&& moment.wf()
            },
    {
        proof {
            self.date.calendar.lemma_instant_plus_days(self.raw(), days);
        }
        match date {
            Some(date) => Some(DateTime { date, time: self.time }),
            None => None,
        }
    }

    /// Moves this moment forward by an amount of a unit. The answer is
    /// `None` exactly where the year reached does not fit in 64 bits.
    pub fn advance(self, amount: u32, unit: Unit) -> (r: Option<DateTime<'a>>)
        requires
            self.wf(),
        ensures
            r is Some <==> self.can_advance(amount as nat, unit),
            r matches Some(moment) ==> {
                &&& moment == self.after(amount as nat, unit)
                &&& moment.wf()
                &&& moment.instant() == self.instant() + self.seconds_in(amount as nat, unit)
                &&& amount > 0 ==> moment.instant() > self.instant()
            },
    {
        let calendar = self.date.calendar;
        let ghost year_length = calendar.spec_days_in_year() as int;
        proof {
            if self.can_advance(amount as nat, unit) {
                crate::laws::law_units_are_not_empty(self, amount as nat, unit);
                crate::laws::law_instant_round_trip(
                    calendar,
                    self.instant() + self.seconds_in(amount as nat, unit),
                );
            }
        }
        let ghost day_length = calendar.spec_seconds_in_day() as int;
        proof {
            calendar.day_lengths().lemma_bounds();
        }
        match unit {
            Unit::Year => {
                proof {
                    assert(amount * year_length * day_length == (amount * year_length)
                        * day_length);
                }
                self.on_date(self.date.shift(amount, 0), Ghost(amount * year_length))
            },
            Unit::Month => {
                let ghost days = cyclic_sum(
                    calendar.month_lengths(),
                    self.date.date.month as int,
                    amount as int,
                ) as int;
                self.on_date(self.date.shift_months(amount), Ghost(days))
            },
            Unit::Week => {
                proof {
                    assert(amount * calendar.week_length() <= 0xffff_ffff * 0xffff_ffff)
                        by (nonlinear_arith)
                        requires
                            amount <= 0xffff_ffff,
                            calendar.week_length() <= 0xffff_ffff,
                    ;
                    assert(0 * year_length == 0) by (nonlinear_arith);
                }
                let days: u64 = amount as u64 * calendar.days_in_week() as u64;
                self.on_date(self.date.shift(0, days), Ghost(days as int))
            },
            Unit::Day => {
                proof {
                    assert(0 * year_length == 0) by (nonlinear_arith);
                }
                self.on_date(self.date.shift(0, amount as u64), Ghost(amount as int))
            },
            Unit::Hour => {
                proof {
                    assert(amount * calendar.day_lengths().seconds_in_hour() <= 0xffff_ffff
                        * 0xffff_ffff) by (nonlinear_arith)
                        requires
                            amount <= 0xffff_ffff,
                            calendar.day_lengths().seconds_in_hour() <= 0xffff_ffff,
                    ;
                }
                self.shift_seconds(amount as u64 * calendar.seconds_in_hour() as u64)
            },
            Unit::Minute => {
                proof {
                    assert(amount * calendar.day_lengths().seconds_in_minute <= 0xffff_ffff
                        * 0xffff_ffff) by (nonlinear_arith)
                        requires
                            amount <= 0xffff_ffff,
                            calendar.day_lengths().seconds_in_minute <= 0xffff_ffff,
                    ;
                }
                self.shift_seconds(amount as u64 * calendar.seconds_in_minute() as u64)
            },
            Unit::Second => self.shift_seconds(amount as u64),
        }
    }

    /// What `wait_until` gives: an error where the target is no time of the
    /// calendar, else the moment that lies `wait_seconds` after this one, or
    /// an error where the year of that moment does not fit in 64 bits.
    pub open spec fn spec_wait_until(self, target: WaitTarget) -> Result<
        DateTime<'a>,
        InvalidWaitError,
    > {
        let calendar = self.date.calendar;
        let goal = target.spec_time(calendar);
        match calendar.time_error(goal) {
            Some(e) => Err(InvalidWaitError::InvalidTime(e)),
            None => {
                let instant = self.instant() + wait_seconds(
                    self.time.second_of_day(),
                    calendar.second_of_day(goal),
                    calendar.spec_seconds_in_day() as int,
                );
                if calendar.instant_is_representable(instant) {
                    Ok(DateTime::at(calendar, instant))
                } else {
                    Err(InvalidWaitError::InvalidDate(InvalidDateError::YearOutOfBounds))
                }
            },
        }
    }

    /// Progress time forward to the next moment at which it is the target
    /// time of the day: later the same day where the target lies ahead of
    /// the time of this moment, the next day where it does not.
    ///
    /// Fails where the target is no time of this calendar, and where the
    /// year reached does not fit in 64 bits.
    pub fn wait_until(self, target: WaitTarget) -> (r: Result<DateTime<'a>, InvalidWaitError>)
        requires
            self.wf(),
        ensures
            r == self.spec_wait_until(target),
            r matches Ok(moment) ==> {
                &&& moment.wf()
                &&& moment.time.time == target.spec_time(self.date.calendar)
                &&& moment.instant() > self.instant()
            },
    {
        let calendar = self.date.calendar;
        let goal = match target.time_in(calendar) {
            Ok(goal) => goal,
            Err(e) => {
                return Err(InvalidWaitError::InvalidTime(e));
            },
        };
        proof {
            calendar.day_lengths().lemma_bounds();
            calendar.lemma_time_of_second_of_day(self.time.time);
            calendar.lemma_time_of_second_of_day(goal.time);
        }
        let current: u32 = self.time.seconds();
        let wanted: u32 = goal.seconds();
        let day_length: u32 = calendar.seconds_in_day();
        let difference: u32 = if wanted > current {
            wanted - current
        } else {
            day_length - current + wanted
        };
        proof {
            calendar.lemma_instant_plus_seconds(self.raw(), difference as int);
            if wanted > current {
                vstd::arithmetic::div_mod::lemma_small_mod(wanted as nat, day_length as nat);
            } else {
                vstd::arithmetic::div_mod::lemma_fundamental_div_mod_converse(
                    day_length + wanted,
                    day_length as int,
                    1,
                    wanted as int,
                );
            }
        }
        match self.shift_seconds(difference as u64) {
            Some(moment) => Ok(moment),
            None => Err(InvalidWaitError::InvalidDate(InvalidDateError::YearOutOfBounds)),
        }
    }

    /// Progress time forward to the target time of the day, on the same day
    /// only.
    ///
    /// Fails where the target is no time of this calendar, and with
    /// `BackwardsWait`, which carries the target and the time of this
    /// moment, where the target does not lie ahead of the time of this
    /// moment.
    pub fn wait_until_same_day(self, target: WaitTarget) -> (r: Result<
        DateTime<'a>,
        InvalidWaitError,
    >)
        requires
            self.wf(),
        ensures
            match r {
                Ok(moment) => {
                    &&& self.date.calendar.valid_time(target.spec_time(self.date.calendar))
                    &&& self.date.calendar.second_of_day(target.spec_time(self.date.calendar))
                        > self.time.second_of_day()
                    &&& moment.date == self.date
                    &&& moment.time.calendar == self.date.calendar
                    &&& moment.time.time == target.spec_time(self.date.calendar)
                    &&& moment.wf()
                    &&& moment.instant() == self.instant() + self.date.calendar.second_of_day(
                        target.spec_time(self.date.calendar),
                    ) - self.time.second_of_day()
                },
                Err(InvalidWaitError::InvalidTime(e)) => self.date.calendar.time_error(
                    target.spec_time(self.date.calendar),
                ) == Some(e),
                Err(InvalidWaitError::InvalidDate(_)) => false,
                Err(InvalidWaitError::BackwardsWait(wanted, current)) => {
                    &&& self.date.calendar.valid_time(target.spec_time(self.date.calendar))
                    &&& self.date.calendar.second_of_day(target.spec_time(self.date.calendar))
                        <= self.time.second_of_day()
                    &&& wanted == target.spec_time(self.date.calendar)
                    &&& current == self.time.time
                },
            },
    {
        let calendar = self.date.calendar;
        let goal = match target.time_in(calendar) {
            Ok(goal) => goal,
            Err(e) => {
                return Err(InvalidWaitError::InvalidTime(e));
            },
        };
        if goal.seconds() > self.time.seconds() {
            Ok(DateTime { date: self.date, time: goal })
        } else {
            Err(InvalidWaitError::BackwardsWait(goal.time, self.time.time))
        }
    }
}

impl<'a> ShowDate for DateTime<'a> {
    open spec fn date_calendar(&self) -> Calendar {
        *self.date.calendar
    }

    open spec fn shown_date(&self) -> RawDate {
        self.date.date
    }

    fn year(&self) -> (r: i64) {
        self.date.year()
    }

    fn month(&self) -> (r: u32) {
        self.date.month()
    }

    fn day(&self) -> (r: u32) {
        self.date.day()
    }

    fn week(&self) -> (r: u32) {
        self.date.week()
    }

    fn month_name(&self) -> (r: &str) {
        self.date.month_name()
    }

    fn week_day(&self) -> (r: u32) {
        self.date.week_day()
    }

    fn week_day_name(&self) -> (r: &str) {
        self.date.week_day_name()
    }

    fn days(&self) -> (r: u32) {
        self.date.days()
    }
}

impl<'a> ShowTime for DateTime<'a> {
    open spec fn time_calendar(&self) -> Calendar {
        *self.time.calendar
    }

    open spec fn shown_time(&self) -> RawTime {
        self.time.time
    }

    fn hour(&self) -> (r: u32) {
        self.time.hour()
    }

    fn minute(&self) -> (r: u32) {
        self.time.minute()
    }

    fn second(&self) -> (r: u32) {
        self.time.second()
    }

    fn seconds(&self) -> (r: u32) {
        self.time.seconds()
    }

    fn time_of_day(self) -> (r: TimeOfDay) {
        self.time.time_of_day()
    }
}

impl<'a> ModifyTime for DateTime<'a> {
    type Item = DateTime<'a>;

    open spec fn with_time(&self, time: RawTime) -> DateTime<'a> {
        DateTime { date: self.date, time: Time { time, calendar: self.time.calendar } }
    }

    fn add_hours(&self, hours: u32) -> (r: (DateTime<'a>, u32)) {
        let (time, days) = self.time.add_hours(hours);
        (DateTime { date: self.date, time }, days)
    }

    fn add_minutes(&self, minutes: u32) -> (r: (DateTime<'a>, u32)) {
        let (time, days) = self.time.add_minutes(minutes);
        (DateTime { date: self.date, time }, days)
    }

    fn add_seconds(&self, seconds: u32) -> (r: (DateTime<'a>, u32)) {
        let (time, days) = self.time.add_seconds(seconds);
        (DateTime { date: self.date, time }, days)
    }
}

impl<'a> ModifyDate for DateTime<'a> {
    type Item = DateTime<'a>;

    open spec fn with_date(&self, date: RawDate) -> DateTime<'a> {
        DateTime { date: Date { date, calendar: self.date.calendar }, time: self.time }
    }

    fn add_years(self, years: u32) -> (r: DateTime<'a>)
        ensures
            self.time.wf() && self.date.calendar == self.time.calendar ==> {
                &&& r == self.after(years as nat, Unit::Year)
                &&& r.wf()
                &&& years > 0 ==> r.instant() > self.instant()
            },
    {
        proof {
            if self.time.wf() && self.date.calendar == self.time.calendar {
                let calendar = self.date.calendar;
                let year = calendar.spec_days_in_year() as int;
                let next = RawDate { year: (self.date.date.year + years) as i64, ..self.date.date };
                calendar.lemma_instant_plus_days(self.raw(), years * year);
                calendar.lemma_date_of_day_number(next);
                assert(calendar.day_number(next) == calendar.day_number(self.date.date) + years
                    * year) by (nonlinear_arith)
                    requires
                        calendar.day_number(next) == (self.date.date.year + years - 1) * year
                            + calendar.day_of_year(self.date.date),
                        calendar.day_number(self.date.date) == (self.date.date.year - 1) * year
                            + calendar.day_of_year(self.date.date),
                ;
                assert(years * year * calendar.spec_seconds_in_day() == (years * year)
                    * calendar.spec_seconds_in_day());
                calendar.lemma_datetime_of_instant_of(
                    RawDateTime { date: next, time: self.time.time },
                );
                if years > 0 {
                    crate::laws::law_add_is_monotonic(self, years as nat, Unit::Year);
                }
            }
        }
        DateTime { date: self.date.add_years(years), time: self.time }
    }

    fn add_months(self, months: u32) -> (r: DateTime<'a>)
        ensures
            self.time.wf() && self.date.calendar == self.time.calendar ==> {
                &&& r == self.after(months as nat, Unit::Month)
                &&& r.wf()
                &&& months > 0 ==> r.instant() > self.instant()
            },
    {
        proof {
            if self.time.wf() && self.date.calendar == self.time.calendar {
                let calendar = self.date.calendar;
                let days = cyclic_sum(
                    calendar.month_lengths(),
                    self.date.date.month as int,
                    months as int,
                ) as int;
                calendar.lemma_instant_plus_days(self.raw(), days);
                calendar.lemma_instant_of_datetime_of(
                    self.instant() + days * calendar.spec_seconds_in_day(),
                );
                if months > 0 {
                    crate::laws::law_add_is_monotonic(self, months as nat, Unit::Month);
                }
            }
        }
        DateTime { date: self.date.add_months(months), time: self.time }
    }

    fn add_weeks(self, weeks: u32) -> (r: DateTime<'a>)
        ensures
            self.time.wf() && self.date.calendar == self.time.calendar ==> {
                &&& r == self.after(weeks as nat, Unit::Week)
                &&& r.wf()
                &&& weeks > 0 ==> r.instant() > self.instant()
            },
    {
        proof {
            if self.time.wf() && self.date.calendar == self.time.calendar {
                let calendar = self.date.calendar;
                let days = weeks * calendar.week_length();
                calendar.lemma_instant_plus_days(self.raw(), days);
                calendar.lemma_instant_of_datetime_of(
                    self.instant() + days * calendar.spec_seconds_in_day(),
                );
                if weeks > 0 {
                    crate::laws::law_add_is_monotonic(self, weeks as nat, Unit::Week);
                }
            }
        }
        DateTime { date: self.date.add_weeks(weeks), time: self.time }
    }

    fn add_days(self, days: u32) -> (r: DateTime<'a>)
        ensures
            self.time.wf() && self.date.calendar == self.time.calendar ==> {
                &&& r == self.after(days as nat, Unit::Day)
                &&& r.wf()
                &&& days > 0 ==> r.instant() > self.instant()
            },
    {
        proof {
            if self.time.wf() && self.date.calendar == self.time.calendar {
                let calendar = self.date.calendar;
                calendar.lemma_instant_plus_days(self.raw(), days as int);
                calendar.lemma_instant_of_datetime_of(
                    self.instant() + days * calendar.spec_seconds_in_day(),
                );
                if days > 0 {
                    crate::laws::law_add_is_monotonic(self, days as nat, Unit::Day);
                }
            }
        }
        DateTime { date: self.date.add_days(days), time: self.time }
    }
}

impl<'a> ModifyDateTime for DateTime<'a> {
    type Item = DateTime<'a>;

    open spec fn at_instant(&self, instant: int) -> DateTime<'a> {
        DateTime::at(self.date.calendar, instant)
    }

    fn add_seconds(&self, seconds: u32) -> (r: DateTime<'a>) {
        match self.advance(seconds, Unit::Second) {
            Some(moment) => moment,
            None => vstd::pervasive::unreached(),
        }
    }

    fn add_minutes(&self, minutes: u32) -> (r: DateTime<'a>) {
        match self.advance(minutes, Unit::Minute) {
            Some(moment) => moment,
            None => vstd::pervasive::unreached(),
        }
    }

    fn add_hours(&self, hours: u32) -> (r: DateTime<'a>) {
        match self.advance(hours, Unit::Hour) {
            Some(moment) => moment,
            None => vstd::pervasive::unreached(),
        }
    }
}

} // verus!
