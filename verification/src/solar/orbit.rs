//! Orbits: a body, the body it goes round, and how long that takes.

use super::planet::PlanetId;
use crate::calendar::Calendar;
use crate::calendar::traits::ConvertDate;
use vstd::prelude::*;

verus! {

/// The whole-number part of the orbit of a body.
///
/// For the sake of simplicity, orbits are a whole number of turns of the
/// body long. This makes calendar calculation much simpler.
#[derive(Clone, Copy, Debug, Eq, PartialEq, Structural)]
pub struct Orbit {
    /// The id of the parent body.
    pub parent: PlanetId,
    /// The body that is orbiting.
    pub body: PlanetId,
    /// The starting offset of the orbit in seconds.
    pub shift: u32,
    /// The amount of time a single orbit takes in seconds.
    pub period: u32,
}

impl Orbit {
    /// Create the orbit of a body that turns once in `rotational_period`
    /// seconds, around `parent`, that takes `period` turns, starting `shift`
    /// turns into it.
    pub fn from_period(
        body: PlanetId,
        rotational_period: u32,
        parent: PlanetId,
        period: u32,
        shift: u32,
    ) -> (r: Self)
        requires
            period > 0,
            period * rotational_period <= u32::MAX,
            shift * rotational_period <= u32::MAX,
        ensures
            r.parent == parent,
            r.body == body,
            r.period == period * rotational_period,
            r.shift == (shift * rotational_period) % (period as int),
    {
        Orbit {
            parent,
            body,
            period: period * rotational_period,
            shift: shift * rotational_period % period,
        }
    }

    /// Validates an orbit against a calendar, ensuring the period is a year
    /// of the calendar.
    pub fn validate_calendar(&self, calendar: &Calendar) -> (r: Result<bool, ValidationError>)
        requires
            calendar.spec_days_in_year() * calendar.spec_seconds_in_day() <= u32::MAX,
        ensures
            r == if self.period == calendar.spec_days_in_year() * calendar.spec_seconds_in_day() {
                Ok::<bool, ValidationError>(true)
            } else {
                Err(
                    ValidationError::InconsistentPeriod(
                        self.period,
                        (calendar.spec_days_in_year() * calendar.spec_seconds_in_day()) as u32,
                    ),
                )
            },
    {
        proof {
            use_type_invariant(calendar);
            assert(calendar.spec_days_in_year() * calendar.spec_seconds_in_day() * 1
                == calendar.spec_days_in_year() * calendar.spec_seconds_in_day())
                by (nonlinear_arith);
        }
        let calendar_period: u32 = calendar.years_to_seconds(1);
        if self.period != calendar_period {
            Err(ValidationError::InconsistentPeriod(self.period, calendar_period))
        } else {
            Ok(true)
        }
    }
}

/// Why an orbit does not agree with a calendar.
#[derive(Clone, Copy, Debug, Eq, PartialEq, Structural)]
pub enum ValidationError {
    /// The period of the orbit, given first, is not the length of the
    /// calendar's year, given second, both in seconds.
    InconsistentPeriod(u32, u32),
}

/// A phase is exhibited by bodies in orbit of a body that is itself in
/// orbit of a light.
#[derive(Clone, Copy, Debug, Eq, PartialEq, Structural)]
pub enum Phase {
    Full,
    WaningGibbous,
    ThirdQuarter,
    WaningCrescent,
    New,
    WaxingCrescent,
    FirstQuarter,
    WaxingGibbous,
}

impl Phase {
    /// The place of the phase in the cycle, from 0 to 7.
    pub open spec fn spec_index(self) -> int {
        match self {
            Phase::Full => 0,
            Phase::WaningGibbous => 1,
            Phase::ThirdQuarter => 2,
            Phase::WaningCrescent => 3,
            Phase::New => 4,
            Phase::WaxingCrescent => 5,
            Phase::FirstQuarter => 6,
            Phase::WaxingGibbous => 7,
        }
    }

    /// Gets the place of the phase in the cycle, from 0 to 7.
    pub fn index(self) -> (r: u8)
        ensures
            r == self.spec_index(),
    {
        match self {
            Phase::Full => 0,
            Phase::WaningGibbous => 1,
            Phase::ThirdQuarter => 2,
            Phase::WaningCrescent => 3,
            Phase::New => 4,
            Phase::WaxingCrescent => 5,
            Phase::FirstQuarter => 6,
            Phase::WaxingGibbous => 7,
        }
    }

    /// Gets the phase at place `index` of the cycle, or `None` where `index`
    /// is above 7.
    pub fn from_index(index: u8) -> (r: Option<Self>)
        ensures
            r is Some <==> index <= 7,
            r matches Some(phase) ==> phase.spec_index() == index,
    {
        if index == 0 {
            Some(Phase::Full)
        } else if index == 1 {
            Some(Phase::WaningGibbous)
        } else if index == 2 {
            Some(Phase::ThirdQuarter)
        } else if index == 3 {
            Some(Phase::WaningCrescent)
        } else if index == 4 {
            Some(Phase::New)
        } else if index == 5 {
            Some(Phase::WaxingCrescent)
        } else if index == 6 {
            Some(Phase::FirstQuarter)
        } else if index == 7 {
            Some(Phase::WaxingGibbous)
        } else {
            None
        }
    }

    /// The picture of the phase.
    pub open spec fn spec_unicode(self) -> Seq<char> {
        match self {
            Phase::Full => "\u{1F315}"@,
            Phase::WaningGibbous => "\u{1F316}"@,
            Phase::ThirdQuarter => "\u{1F317}"@,
            Phase::WaningCrescent => "\u{1F318}"@,
            Phase::New => "\u{1F311}"@,
            Phase::WaxingCrescent => "\u{1F312}"@,
            Phase::FirstQuarter => "\u{1F313}"@,
            Phase::WaxingGibbous => "\u{1F314}"@,
        }
    }

    /// Maps the moon phases to unicode images.
    pub fn unicode(&self) -> (r: &'static str)
        ensures
            r@ == self.spec_unicode(),
    {
        match self {
            Phase::Full => "\u{1F315}",
            Phase::WaningGibbous => "\u{1F316}",
            Phase::ThirdQuarter => "\u{1F317}",
            Phase::WaningCrescent => "\u{1F318}",
            Phase::New => "\u{1F311}",
            Phase::WaxingCrescent => "\u{1F312}",
            Phase::FirstQuarter => "\u{1F313}",
            Phase::WaxingGibbous => "\u{1F314}",
        }
    }

    /// The words that describe the phase.
    pub open spec fn spec_description(self) -> Seq<char> {
        match self {
            Phase::Full => "a brilliant gleaming disk in the dark"@,
            Phase::WaningGibbous => "in waning gibbous, beginning to retreat into darkness"@,
            Phase::ThirdQuarter => "in the half-shadow of the third quarter"@,
            Phase::WaningCrescent => "in waning crescent, nearly covered in darkness"@,
            Phase::New => "a silky hole in the starry sky"@,
            Phase::WaxingCrescent => "in waxing crescent, light creeping out"@,
            Phase::FirstQuarter => "in the half-light of the first quarter"@,
            Phase::WaxingGibbous => "in waxing gibbous, nearly fully lit"@,
        }
    }

    /// Describes the phase in words.
    pub fn to_string(&self) -> (r: String)
        ensures
            r@ == self.spec_description(),
    {
        match self {
            Phase::Full => String::from_str("a brilliant gleaming disk in the dark"),
            Phase::WaningGibbous => String::from_str(
                "in waning gibbous, beginning to retreat into darkness",
            ),
            Phase::ThirdQuarter => String::from_str("in the half-shadow of the third quarter"),
            Phase::WaningCrescent => String::from_str(
                "in waning crescent, nearly covered in darkness",
            ),
            Phase::New => String::from_str("a silky hole in the starry sky"),
            Phase::WaxingCrescent => String::from_str("in waxing crescent, light creeping out"),
            Phase::FirstQuarter => String::from_str("in the half-light of the first quarter"),
            Phase::WaxingGibbous => String::from_str("in waxing gibbous, nearly fully lit"),
        }
    }
}

} // verus!
