//! Celestial bodies and their agreement with a calendar.

use super::color::Color;
use super::orbit::{self, Orbit};
use crate::calendar::Calendar;
use crate::calendar::traits::ConvertTime;
use vstd::prelude::*;

verus! {

/// A unique identifier for celestial bodies.
#[derive(Clone, Copy, Debug, Eq, PartialEq, Structural)]
pub struct PlanetId(pub u128);

/// A celestial body.
#[derive(Clone, Debug)]
pub struct CelestialBody {
    /// The id of the body.
    pub id: PlanetId,
    /// The name of the body.
    pub name: String,
    /// The orbit of the body.
    pub orbit: Option<Orbit>,
    /// The color of the body.
    pub color: Color,
    /// The ids of the bodies in orbit of this one.
    pub children: Vec<PlanetId>,
    /// The number of seconds the body takes to rotate.
    pub rotational_period: u32,
    /// The temperature in degrees kelvin.
    pub temperature: i32,
}

impl CelestialBody {
    /// What validating this body against a calendar gives: the turn of the
    /// body must be a day of the calendar, and its orbit, where it has one,
    /// a year. A wrong turn is reported before a wrong orbit.
    pub open spec fn spec_validate_calendar(&self, calendar: &Calendar) -> Result<
        bool,
        ValidationError,
    > {
        let year = calendar.spec_days_in_year() * calendar.spec_seconds_in_day();
        if self.rotational_period != calendar.spec_seconds_in_day() {
            Err(
                ValidationError::InconsistentRotationalPeriod(
                    self.rotational_period,
                    calendar.spec_seconds_in_day() as u32,
                ),
            )
        } else {
            match self.orbit {
                Some(orbit) if orbit.period != year => Err(
                    ValidationError::OrbitValidationError(
                        orbit::ValidationError::InconsistentPeriod(orbit.period, year as u32),
                    ),
                ),
                _ => Ok(true),
            }
        }
    }

    /// Creates a new `CelestialBody` without an orbit and without children.
    pub fn new(
        id: PlanetId,
        name: String,
        temperature: i32,
        rotational_period: u32,
        color: Color,
    ) -> (r: Self)
        ensures
            r.id == id,
            r.name == name,
            r.color == color,
            r.temperature == temperature,
            r.rotational_period == rotational_period,
            r.orbit is None,
            r.children@.len() == 0,
    {
        Self {
            id,
            name,
            color,
            temperature,
            rotational_period,
            orbit: None,
            children: Vec::new(),
        }
    }

    /// Calculates whether a body is luminous: whether it is hotter than
    /// 3500 kelvin.
    pub fn is_luminous(&self) -> (r: bool)
        ensures
            r == (self.temperature > 3500),
    {
        self.temperature > 3500
    }

    /// Adds a new moon to this body: the moon gets an orbit of `period` of
    /// its own turns around this body, and this body gets the moon as its
    /// last child.
    pub fn with_moon(&mut self, moon: &mut CelestialBody, period: u32)
        requires
            period > 0,
            period * old(moon).rotational_period <= u32::MAX,
        ensures
            final(moon).orbit == Some(
                Orbit {
                    parent: old(self).id,
                    body: old(moon).id,
                    shift: 0,
                    period: (period * old(moon).rotational_period) as u32,
                },
            ),
            final(moon).id == old(moon).id,
            final(moon).name == old(moon).name,
            final(moon).color == old(moon).color,
            final(moon).children == old(moon).children,
            final(moon).rotational_period == old(moon).rotational_period,
            final(moon).temperature == old(moon).temperature,
            final(self).children@ == old(self).children@.push(old(moon).id),
            final(self).id == old(self).id,
            final(self).name == old(self).name,
            final(self).orbit == old(self).orbit,
            final(self).color == old(self).color,
            final(self).rotational_period == old(self).rotational_period,
            final(self).temperature == old(self).temperature,
    {
        proof {
            assert(0 * moon.rotational_period == 0) by (nonlinear_arith);
            vstd::arithmetic::div_mod::lemma_small_mod(0, period as nat);
        }
        let orbit = Orbit::from_period(moon.id, moon.rotational_period, self.id, period, 0);
        moon.orbit = Some(orbit);
        self.children.push(moon.id);
    }

    /// Sets the parent of this body: this body gets an orbit of `period` of
    /// its own turns around the parent, and the parent gets this body as its
    /// last child.
    pub fn with_parent(&mut self, parent: &mut CelestialBody, period: u32)
        requires
            period > 0,
            period * old(self).rotational_period <= u32::MAX,
        ensures
            final(self).orbit == Some(
                Orbit {
                    parent: old(parent).id,
                    body: old(self).id,
                    shift: 0,
                    period: (period * old(self).rotational_period) as u32,
                },
            ),
            final(self).id == old(self).id,
            final(self).name == old(self).name,
            final(self).color == old(self).color,
            final(self).children == old(self).children,
            final(self).rotational_period == old(self).rotational_period,
            final(self).temperature == old(self).temperature,
            final(parent).children@ == old(parent).children@.push(old(self).id),
            final(parent).id == old(parent).id,
            final(parent).name == old(parent).name,
            final(parent).orbit == old(parent).orbit,
            final(parent).color == old(parent).color,
            final(parent).rotational_period == old(parent).rotational_period,
            final(parent).temperature == old(parent).temperature,
    {
        proof {
            assert(0 * self.rotational_period == 0) by (nonlinear_arith);
            vstd::arithmetic::div_mod::lemma_small_mod(0, period as nat);
        }
        let orbit = Orbit::from_period(self.id, self.rotational_period, parent.id, period, 0);
        self.orbit = Some(orbit);
        parent.children.push(self.id);
    }

    /// Validates a body against a calendar, ensuring the rotational and
    /// orbital periods are correct.
    pub fn validate_calendar(&self, calendar: &Calendar) -> (r: Result<bool, ValidationError>)
        requires
            self.orbit is Some ==> calendar.spec_days_in_year() * calendar.spec_seconds_in_day()
                <= u32::MAX,
        ensures
            r == self.spec_validate_calendar(calendar),
    {
        proof {
            use_type_invariant(calendar);
            assert(1 * calendar.spec_seconds_in_day() == calendar.spec_seconds_in_day())
                by (nonlinear_arith);
        }
        let planet_period: u32 = self.rotational_period;
        let calendar_period: u32 = calendar.days_to_seconds(1);
        if planet_period != calendar_period {
            return Err(
                ValidationError::InconsistentRotationalPeriod(planet_period, calendar_period),
            );
        }
        match self.orbit {
            Some(orbit) => match orbit.validate_calendar(calendar) {
                Ok(fine) => Ok(fine),
                Err(e) => Err(ValidationError::OrbitValidationError(e)),
            },
            None => Ok(true),
        }
    }
}

/// Why a body does not agree with a calendar.
#[derive(Clone, Copy, Debug, Eq, PartialEq, Structural)]
pub enum ValidationError {
    /// The time the body takes to turn, given first, is not the length of
    /// the calendar's day, given second, both in seconds.
    InconsistentRotationalPeriod(u32, u32),
    /// The orbit of the body does not agree with the calendar.
    OrbitValidationError(orbit::ValidationError),
}

impl From<orbit::ValidationError> for ValidationError {
    fn from(val: orbit::ValidationError) -> (r: Self) {
        ValidationError::OrbitValidationError(val)
    }
}

impl vstd::std_specs::convert::FromSpecImpl<orbit::ValidationError> for ValidationError {
    open spec fn obeys_from_spec() -> bool {
        true
    }

    open spec fn from_spec(val: orbit::ValidationError) -> Self {
        ValidationError::OrbitValidationError(val)
    }
}

} // verus!
