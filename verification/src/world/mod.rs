//! The world: a calendar, the present time, and the bodies, characters,
//! locations and records in it.

pub mod records;
pub mod stores;
pub mod time;

pub use records::{names_in, TimelineEntry, CHARACTER_PATTERN, LOCATION_PATTERN};
pub use stores::{
    phase_parent, CharacterStore, LocationStore, PlanetStore, NEW_LOCATION_PLANET,
};

use crate::calendar::{Calendar, ParseDateTimeError};
use crate::character::{Character, Location};
use crate::datetime::{Date, DateTime, RawDate, RawDateTime, RawTime, Time};
use crate::record::RawRecord;
use crate::solar::planet::ValidationError;
use crate::solar::{CelestialBody, Color, Orbit, PlanetId};
use stores::{lemma_place_of_planet, lemma_planet_is_at, lemma_planet_is_found, place_of_planet};
use vstd::prelude::*;

verus! {

/// The data structure for the world.
///
/// The times are stored raw, without a reference to the calendar, which the
/// world holds beside them.
#[derive(Debug)]
pub struct World {
    /// The name of the world.
    pub name: String,
    /// The calendar of the world.
    pub calendar: Calendar,
    /// The present time.
    pub time: RawDateTime,
    /// If `Some`, it means we have jumped to a different location in time,
    /// and this is the time we left.
    pub canonical_time: Option<RawDateTime>,
    /// The body that the world is seen from.
    pub home_planet: PlanetId,
    /// The celestial bodies.
    pub bodies: Vec<CelestialBody>,
    /// The records, in the order in which they were taken.
    pub records: Vec<RawRecord>,
    /// The characters.
    pub characters: Vec<Character>,
    /// The locations.
    pub locations: Vec<Location>,
}

/// What can go wrong in a world.
#[derive(Clone, Copy, Debug, Eq, PartialEq, Structural)]
pub enum WorldError {
    /// The time expression could not be turned into a moment.
    Time(ParseDateTimeError),
    /// The moment lies before the present: one can't go back in time.
    BackInTime,
    /// There is no other time to return to: the world is in its canonical
    /// time already.
    AlreadyCanonical,
    /// The home planet is none of the bodies of the world.
    NoHomePlanet,
    /// The home planet does not agree with the calendar.
    Invalid(ValidationError),
    /// A note mentions a character that the world does not know.
    UnknownCharacter,
}

impl World {
    /// Everything but the bodies of `other` is as in this world.
    pub open spec fn same_but_bodies(&self, other: &World) -> bool {
        &&& self.name == other.name
        &&& self.calendar == other.calendar
        &&& self.time == other.time
        &&& self.canonical_time == other.canonical_time
        &&& self.home_planet == other.home_planet
        &&& self.records == other.records
        &&& self.characters == other.characters
        &&& self.locations == other.locations
    }

    /// Everything but the locations of `other` is as in this world.
    pub open spec fn same_but_locations(&self, other: &World) -> bool {
        &&& self.name == other.name
        &&& self.calendar == other.calendar
        &&& self.time == other.time
        &&& self.canonical_time == other.canonical_time
        &&& self.home_planet == other.home_planet
        &&& self.bodies == other.bodies
        &&& self.records == other.records
        &&& self.characters == other.characters
    }

    /// Everything but the two times of `other` is as in this world.
    pub open spec fn same_but_times(&self, other: &World) -> bool {
        &&& self.name == other.name
        &&& self.calendar == other.calendar
        &&& self.home_planet == other.home_planet
        &&& self.bodies == other.bodies
        &&& self.records == other.records
        &&& self.characters == other.characters
        &&& self.locations == other.locations
    }

    /// The present time exists in the calendar of the world.
    pub open spec fn wf(&self) -> bool {
        self.calendar.wf() && self.calendar.valid_datetime(self.time)
    }

    /// The present time as a moment of the calendar of the world.
    pub open spec fn now(&self) -> DateTime<'_> {
        DateTime {
            date: Date { date: self.time.date, calendar: &self.calendar },
            time: Time { time: self.time.time, calendar: &self.calendar },
        }
    }

    /// Creates a world that starts at midnight of the first day of year one,
    /// with the home planet as its only body and nothing else in it.
    pub fn new(name: String, calendar: Calendar, home_planet: CelestialBody) -> (r: Self)
        ensures
            r.name == name,
            r.calendar == calendar,
            r.time == (RawDateTime {
                date: RawDate { year: 1, month: 0, day: 0 },
                time: RawTime { hour: 0, minute: 0, second: 0 },
            }),
            r.canonical_time is None,
            r.home_planet == home_planet.id,
            r.bodies@ == seq![home_planet],
            r.records@.len() == 0,
            r.characters@.len() == 0,
            r.locations@.len() == 0,
            r.wf(),
    {
        proof {
            use_type_invariant(&calendar);
        }
        let home_planet_id = home_planet.id;
        let mut bodies: Vec<CelestialBody> = Vec::new();
        bodies.push(home_planet);
        Self {
            name,
            time: RawDateTime {
                date: RawDate { year: 1, month: 0, day: 0 },
                time: RawTime { hour: 0, minute: 0, second: 0 },
            },
            canonical_time: None,
            calendar,
            home_planet: home_planet_id,
            bodies,
            records: Vec::new(),
            characters: Vec::new(),
            locations: Vec::new(),
        }
    }

    /// Tells whether the world has jumped away from its canonical time.
    pub fn jumped(&self) -> (r: bool)
        ensures
            r == self.canonical_time is Some,
    {
        self.canonical_time.is_some()
    }

    /// Validates the world: its home planet must be one of its bodies, and
    /// agree with its calendar.
    pub fn validate(&self) -> (r: Result<bool, WorldError>)
        requires
            place_of_planet(self.bodies@, self.home_planet, 0) matches Some(place)
                && self.bodies@[place].orbit is Some ==> self.calendar.spec_days_in_year()
                * self.calendar.spec_seconds_in_day() <= u32::MAX,
        ensures
            r == match place_of_planet(self.bodies@, self.home_planet, 0) {
                Some(place) => match self.bodies@[place].spec_validate_calendar(&self.calendar) {
                    Ok(fine) => Ok::<bool, WorldError>(fine),
                    Err(e) => Err(WorldError::Invalid(e)),
                },
                None => Err(WorldError::NoHomePlanet),
            },
    {
        match self.get_planet(self.home_planet) {
            Some(planet) => match planet.validate_calendar(&self.calendar) {
                Ok(fine) => Ok(fine),
                Err(e) => Err(WorldError::Invalid(e)),
            },
            None => Err(WorldError::NoHomePlanet),
        }
    }
}

impl Default for World {
    /// A world called "World" with the default calendar and three bodies:
    /// the Earth, which is home, its Moon, and the Sun that it goes round.
    fn default() -> (r: Self)
        ensures
            r.wf(),
            r.name@ == "World"@,
            r.calendar.is_default(),
            r.canonical_time is None,
            r.bodies@.len() == 3,
            r.bodies@[0].name@ == "Earth"@,
            r.bodies@[1].name@ == "Moon"@,
            r.bodies@[2].name@ == "Sun"@,
            r.records@.len() == 0,
            r.characters@.len() == 0,
            r.locations@.len() == 0,
            r.time == (RawDateTime {
                date: RawDate { year: 1, month: 0, day: 0 },
                time: RawTime { hour: 0, minute: 0, second: 0 },
            }),
            r.home_planet == r.bodies@[0].id,
            r.bodies@[0].temperature == 290,
            r.bodies@[1].temperature == 240,
            r.bodies@[2].temperature == 5800,
            r.bodies@[0].rotational_period == 86400,
            r.bodies@[1].rotational_period == 2419200,
            r.bodies@[2].rotational_period == 2419200,
            r.bodies@[0].color == Color::Green,
            r.bodies@[1].color == Color::White,
            r.bodies@[2].color == Color::Yellow,
            r.bodies@[0].id != r.bodies@[1].id && r.bodies@[0].id != r.bodies@[2].id
                && r.bodies@[1].id != r.bodies@[2].id ==> {
                &&& r.bodies@[0].orbit == Some(
                    Orbit {
                        parent: r.bodies@[2].id,
                        body: r.bodies@[0].id,
                        shift: 0,
                        period: 31536000,
                    },
                )
                &&& r.bodies@[1].orbit == Some(
                    Orbit {
                        parent: r.bodies@[0].id,
                        body: r.bodies@[1].id,
                        shift: 0,
                        period: 2419200,
                    },
                )
                &&& r.bodies@[2].orbit is None
                &&& r.bodies@[0].children@ == seq![r.bodies@[1].id]
                &&& r.bodies@[1].children@.len() == 0
                &&& r.bodies@[2].children@ == seq![r.bodies@[0].id]
            },
    {
        let earth = CelestialBody::new(
            PlanetId(crate::outside::fresh_id()),
            String::from_str("Earth"),
            290,
            86400,
            Color::Green,
        );
        let mut world = Self::new(String::from_str("World"), Calendar::default(), earth);
        let home = world.home_planet;
        let moon = world.create_planet(String::from_str("Moon"), 240, 2419200, Color::White).id;
        proof {
            lemma_planet_is_found(world.bodies@, home, 0);
            lemma_planet_is_found(world.bodies@, moon, 1);
            lemma_place_of_planet(world.bodies@, moon, 0);
        }
        let ghost first = world.bodies@;
        world.add_orbit(home, moon, 1);
        let ghost second = world.bodies@;
        let sun = world.create_planet(String::from_str("Sun"), 5800, 2419200, Color::Yellow).id;
        proof {
            lemma_planet_is_found(world.bodies@, home, 0);
            lemma_planet_is_found(world.bodies@, sun, 2);
            lemma_place_of_planet(world.bodies@, home, 0);
        }
        let ghost third = world.bodies@;
        world.add_orbit(sun, home, 365);
        proof {
            let last = world.bodies@;
            if last[0].id != last[1].id && last[0].id != last[2].id && last[1].id != last[2].id {
                lemma_planet_is_at(first, moon, 1);
                lemma_planet_is_at(third, sun, 2);
                assert(place_of_planet(first, home, 0) == Some(0int));
                assert(place_of_planet(third, home, 0) == Some(0int));
                assert(second[0].children@ =~= seq![moon]);
                assert(third[0] == second[0]);
                assert(third[1] == second[1]);
                assert(last[2].children@ =~= seq![home]);
                assert(last[0].children@ =~= seq![moon]);
            }
        }
        world
    }
}

} // verus!
