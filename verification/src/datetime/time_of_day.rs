//! The eight parts of a day.

use vstd::prelude::*;

verus! {

/// A part of the day. The day is cut into eight parts of equal length,
/// whatever the number of its hours.
#[derive(Clone, Copy, Debug, Eq, PartialEq, Structural)]
pub enum TimeOfDay {
    /// The first eighth of the day.
    LateNight,
    /// The second eighth of the day.
    Dawn,
    /// The third eighth of the day.
    Sunrise,
    /// The fourth eighth of the day.
    Morning,
    /// The fifth eighth of the day.
    Afternoon,
    /// The sixth eighth of the day.
    Sunset,
    /// The seventh eighth of the day.
    Dusk,
    /// The last eighth of the day.
    Night,
}

impl TimeOfDay {
    /// The place of this part in the day, from 0 to 7.
    pub open spec fn spec_index(self) -> int {
        match self {
            TimeOfDay::LateNight => 0,
            TimeOfDay::Dawn => 1,
            TimeOfDay::Sunrise => 2,
            TimeOfDay::Morning => 3,
            TimeOfDay::Afternoon => 4,
            TimeOfDay::Sunset => 5,
            TimeOfDay::Dusk => 6,
            TimeOfDay::Night => 7,
        }
    }

    /// The part of the day at place `index`, where there is one.
    pub open spec fn spec_from_index(index: int) -> Option<TimeOfDay> {
        if index == 0 {
            Some(TimeOfDay::LateNight)
        } else if index == 1 {
            Some(TimeOfDay::Dawn)
        } else if index == 2 {
            Some(TimeOfDay::Sunrise)
        } else if index == 3 {
            Some(TimeOfDay::Morning)
        } else if index == 4 {
            Some(TimeOfDay::Afternoon)
        } else if index == 5 {
            Some(TimeOfDay::Sunset)
        } else if index == 6 {
            Some(TimeOfDay::Dusk)
        } else if index == 7 {
            Some(TimeOfDay::Night)
        } else {
            None
        }
    }

    /// The part of the day that holds `hour` in a day of `hours_in_day`
    /// hours: the eighth numbered `hour * 8 / hours_in_day`, rounded down.
    /// There is none where `hour` is no hour of such a day.
    pub open spec fn spec_from_time(hour: nat, hours_in_day: nat) -> Option<TimeOfDay> {
        if hour < hours_in_day {
            Self::spec_from_index((hour * 8) as int / (hours_in_day as int))
        } else {
            None
        }
    }

    /// Whether the sun is up during this part of the day.
    pub open spec fn spec_is_day(self) -> bool {
        2 <= self.spec_index() <= 5
    }

    /// Gets the place of this part in the day, from 0 to 7.
    pub fn index(self) -> (r: u8)
        ensures
            r == self.spec_index(),
    {
        match self {
            TimeOfDay::LateNight => 0,
            TimeOfDay::Dawn => 1,
            TimeOfDay::Sunrise => 2,
            TimeOfDay::Morning => 3,
            TimeOfDay::Afternoon => 4,
            TimeOfDay::Sunset => 5,
            TimeOfDay::Dusk => 6,
            TimeOfDay::Night => 7,
        }
    }

    /// Gets the part of the day at place `index`, or `None` where `index` is
    /// above 7.
    pub fn from_index(index: u8) -> (r: Option<Self>)
        ensures
            r == Self::spec_from_index(index as int),
            r matches Some(part) ==> part.spec_index() == index,
            r is Some <==> index <= 7,
    {
        if index == 0 {
            Some(TimeOfDay::LateNight)
        } else if index == 1 {
            Some(TimeOfDay::Dawn)
        } else if index == 2 {
            Some(TimeOfDay::Sunrise)
        } else if index == 3 {
            Some(TimeOfDay::Morning)
        } else if index == 4 {
            Some(TimeOfDay::Afternoon)
        } else if index == 5 {
            Some(TimeOfDay::Sunset)
        } else if index == 6 {
            Some(TimeOfDay::Dusk)
        } else if index == 7 {
            Some(TimeOfDay::Night)
        } else {
            None
        }
    }

    /// Gets the time of day for a given hour.
    ///
    /// Returns `Some` when `curr_hour < max_hour`, else `None`.
    pub fn from_time(curr_hour: u32, max_hour: u32) -> (r: Option<Self>)
        ensures
            r == Self::spec_from_time(curr_hour as nat, max_hour as nat),
            r is Some <==> curr_hour < max_hour,
    {
        if curr_hour >= max_hour {
            return None;
        }
        let scaled: u64 = curr_hour as u64 * 8;
        let index: u64 = scaled / (max_hour as u64);
        proof {
            assert(index < 8) by (nonlinear_arith)
                requires
                    index == scaled / (max_hour as u64),
                    scaled < max_hour * 8,
                    max_hour > 0,
            ;
        }
        Self::from_index(index as u8)
    }

    /// Checks if a given `TimeOfDay` is during day or night.
    pub fn is_day(self) -> (r: bool)
        ensures
            r == self.spec_is_day(),
    {
        match self {
            TimeOfDay::LateNight => false,
            TimeOfDay::Dawn => false,
            TimeOfDay::Sunrise => true,
            TimeOfDay::Morning => true,
            TimeOfDay::Afternoon => true,
            TimeOfDay::Sunset => true,
            TimeOfDay::Dusk => false,
            TimeOfDay::Night => false,
        }
    }

    /// The words that describe this part of the day.
    pub open spec fn spec_description(self) -> Seq<char> {
        match self {
            TimeOfDay::LateNight => "late in the night"@,
            TimeOfDay::Dawn => "at dawn"@,
            TimeOfDay::Sunrise => "just after sunrise"@,
            TimeOfDay::Morning => "in the morning"@,
            TimeOfDay::Afternoon => "in the afternoon"@,
            TimeOfDay::Sunset => "just before sunset"@,
            TimeOfDay::Dusk => "in the evening"@,
            TimeOfDay::Night => "at night"@,
        }
    }

    /// Describes this part of the day in words.
    pub fn to_string(&self) -> (r: String)
        ensures
            r@ == self.spec_description(),
    {
        match self {
            TimeOfDay::LateNight => String::from_str("late in the night"),
            TimeOfDay::Dawn => String::from_str("at dawn"),
            TimeOfDay::Sunrise => String::from_str("just after sunrise"),
            TimeOfDay::Morning => String::from_str("in the morning"),
            TimeOfDay::Afternoon => String::from_str("in the afternoon"),
            TimeOfDay::Sunset => String::from_str("just before sunset"),
            TimeOfDay::Dusk => String::from_str("in the evening"),
            TimeOfDay::Night => String::from_str("at night"),
        }
    }
}

} // verus!
