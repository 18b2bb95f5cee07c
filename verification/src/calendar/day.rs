//! The day cycle.

use super::traits::{DayCycle, DayLengths};
use vstd::prelude::*;

verus! {

/// Represents a day: how many seconds make a minute, minutes an hour and
/// hours a day.
#[derive(Clone, Copy, Debug, Eq, PartialEq, Structural)]
pub struct Day {
    seconds_in_minute: u32,
    minutes_in_hour: u32,
    hours_in_day: u32,
}

impl Day {
    /// Creates a new `Day`.
    pub fn new(seconds_in_minute: u32, minutes_in_hour: u32, hours_in_day: u32) -> (r: Self)
        ensures
            r.day_lengths() == (DayLengths {
                seconds_in_minute: seconds_in_minute as nat,
                minutes_in_hour: minutes_in_hour as nat,
                hours_in_day: hours_in_day as nat,
            }),
    {
        Self { seconds_in_minute, minutes_in_hour, hours_in_day }
    }

    /// Tells whether the three lengths are positive and the seconds of a day
    /// fit in 32 bits.
    pub fn is_valid(&self) -> (r: bool)
        ensures
            r == self.day_lengths().wf(),
    {
        if self.seconds_in_minute == 0 || self.minutes_in_hour == 0 || self.hours_in_day == 0 {
            return false;
        }
        proof {
            assert(self.seconds_in_minute * self.minutes_in_hour <= 0xffff_ffff * 0xffff_ffff)
                by (nonlinear_arith)
                requires
                    self.seconds_in_minute <= 0xffff_ffff,
                    self.minutes_in_hour <= 0xffff_ffff,
            ;
        }
        let per_hour: u64 = self.seconds_in_minute as u64 * self.minutes_in_hour as u64;
        if per_hour > u32::MAX as u64 {
            proof {
                assert(per_hour * self.hours_in_day >= per_hour) by (nonlinear_arith)
                    requires
                        self.hours_in_day >= 1,
                        per_hour >= 0,
                ;
            }
            return false;
        }
        proof {
            assert(per_hour * self.hours_in_day <= 0xffff_ffff * 0xffff_ffff) by (nonlinear_arith)
                requires
                    per_hour <= 0xffff_ffff,
                    self.hours_in_day <= 0xffff_ffff,
            ;
        }
        let per_day: u64 = per_hour * self.hours_in_day as u64;
        per_day <= u32::MAX as u64
    }
}

impl DayCycle for Day {
    closed spec fn day_lengths(&self) -> DayLengths {
        DayLengths {
            seconds_in_minute: self.seconds_in_minute as nat,
            minutes_in_hour: self.minutes_in_hour as nat,
            hours_in_day: self.hours_in_day as nat,
        }
    }

    fn hours_in_day(&self) -> (r: u32) {
        self.hours_in_day
    }

    fn minutes_in_hour(&self) -> (r: u32) {
        self.minutes_in_hour
    }

    fn seconds_in_minute(&self) -> (r: u32) {
        self.seconds_in_minute
    }
}

impl Default for Day {
    /// Sixty seconds, sixty minutes, twenty-four hours.
    fn default() -> (r: Self)
        ensures
            r.day_lengths() == (DayLengths {
                seconds_in_minute: 60,
                minutes_in_hour: 60,
                hours_in_day: 24,
            }),
    {
        Self::new(60, 60, 24)
    }
}

} // verus!
