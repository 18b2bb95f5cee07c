//! The health of a character: hit points, death saves, and what damage and
//! healing do to them.

use crate::outside::{fresh_id, is_random_identifier};
use crate::solar::PlanetId;
use vstd::prelude::*;

verus! {

/// The class of a character, with its subclass.
#[derive(Clone, Copy, Debug, Eq, PartialEq, Structural)]
pub enum Class {
    Fighter(Fighter),
    Warlock(Warlock),
}

/// The race of a character.
#[derive(Clone, Copy, Debug, Eq, PartialEq, Structural)]
pub enum Race {
    Unknown,
    Human,
    Dwarf,
}

impl Default for Race {
    fn default() -> (r: Self)
        ensures
            r == Race::Unknown,
    {
        Self::Unknown
    }
}

/// The subclasses of a fighter.
#[derive(Clone, Copy, Debug, Eq, PartialEq, Structural)]
pub enum Fighter {
    Champion,
    BattleMaster,
    EldrichKnight,
}

/// The subclasses of a warlock.
#[derive(Clone, Copy, Debug, Eq, PartialEq, Structural)]
pub enum Warlock {
    ArchFey,
    Fiend,
    GreatOldOne,
}

/// What is known of the looks and the past of a character.
#[derive(Debug)]
pub struct Description {
    /// Age in years.
    pub age: Option<u32>,
    /// Height in cm.
    pub height: Option<u32>,
    /// Weight in kg.
    pub weight: Option<u32>,
    /// Where the character comes from.
    pub backstory: Option<String>,
}

/// The death saves of an unconscious character.
#[derive(Clone, Copy, Debug, Default, Eq, PartialEq, Structural)]
pub struct DeathSaves {
    /// Saves made.
    pub successes: u8,
    /// Saves failed. The third is death.
    pub failures: u8,
}

/// The hit points of a conscious character.
#[derive(Clone, Copy, Debug, Eq, PartialEq, Structural)]
pub struct Hitpoints {
    /// Hit points of the character's own.
    pub current: u32,
    /// Hit points on top of them, which damage takes first.
    pub bonus: u32,
}

/// How a character is.
#[derive(Clone, Copy, Debug, Eq, PartialEq, Structural)]
pub enum HealthStatus {
    Alive(Hitpoints),
    Unconscious(DeathSaves),
    Dead,
}

impl Default for HealthStatus {
    /// Alive, with one hit point.
    fn default() -> (r: Self)
        ensures
            r == HealthStatus::Alive(Hitpoints { current: 1, bonus: 0 }),
    {
        Self::Alive(Hitpoints::default())
    }
}

impl DeathSaves {
    /// What damage does to an unconscious character: one failed save for a
    /// critical hit and two for any other. With the third failed save the
    /// character is dead.
    pub open spec fn spec_damage(self, critical: bool) -> HealthStatus {
        let failures = self.failures + if critical {
            1int
        } else {
            2int
        };
        if failures < 3 {
            HealthStatus::Unconscious(
                DeathSaves { failures: failures as u8, successes: self.successes },
            )
        } else {
            HealthStatus::Dead
        }
    }

    /// Deals damage to an unconscious character.
    pub fn damage(self, critical: bool) -> (r: HealthStatus)
        ensures
            r == self.spec_damage(critical),
    {
        let added: u16 = if critical {
            1
        } else {
            2
        };
        let failures: u16 = self.failures as u16 + added;
        if failures < 3 {
            HealthStatus::Unconscious(
                Self { failures: failures as u8, successes: self.successes },
            )
        } else {
            HealthStatus::Dead
        }
    }

    /// Heals an unconscious character: it wakes with as many hit points as
    /// it was healed by.
    pub fn heal(self, heal: u32) -> (r: HealthStatus)
        ensures
            r == HealthStatus::Alive(Hitpoints { current: heal, bonus: 0 }),
    {
        HealthStatus::Alive(Hitpoints { current: heal, bonus: 0 })
    }
}

impl Default for Hitpoints {
    /// One hit point and no bonus.
    fn default() -> (r: Self)
        ensures
            r == (Hitpoints { current: 1, bonus: 0 }),
    {
        Self { current: 1, bonus: 0 }
    }
}

impl Hitpoints {
    /// What damage does to a conscious character: it is taken from the
    /// bonus first and then from the character's own hit points, and none
    /// of the two goes below zero. With no hit points left the character is
    /// unconscious, with no death saves made or failed.
    pub open spec fn spec_damage(self, amount: u32) -> HealthStatus {
        let absorbed = if amount < self.bonus {
            amount
        } else {
            self.bonus
        };
        let rest = amount - absorbed;
        let current = if rest < self.current {
            self.current - rest
        } else {
            0
        };
        if current == 0 && self.bonus - absorbed == 0 {
            HealthStatus::Unconscious(DeathSaves { successes: 0, failures: 0 })
        } else {
            HealthStatus::Alive(
                Hitpoints { current: current as u32, bonus: (self.bonus - absorbed) as u32 },
            )
        }
    }

    /// Gets the hit points, bonus included.
    pub fn hp(self) -> (r: u32)
        requires
            self.current + self.bonus <= u32::MAX,
        ensures
            r == self.current + self.bonus,
    {
        self.current + self.bonus
    }

    /// Deals damage to a conscious character.
    pub fn damage(self, amount: u32) -> (r: HealthStatus)
        ensures
            r == self.spec_damage(amount),
    {
        let bonus: u32 = self.bonus.saturating_sub(amount);
        let amount: u32 = amount - (self.bonus - bonus);
        let next = Self { current: self.current.saturating_sub(amount), bonus };
        if next.current == 0 && next.bonus == 0 {
            HealthStatus::Unconscious(DeathSaves { successes: 0, failures: 0 })
        } else {
            HealthStatus::Alive(next)
        }
    }

    /// Heals a conscious character: the amount is added to its own hit
    /// points.
    pub fn heal(self, amount: u32) -> (r: HealthStatus)
        requires
            self.current + amount <= u32::MAX,
        ensures
            r == HealthStatus::Alive(
                Hitpoints { current: (self.current + amount) as u32, bonus: self.bonus },
            ),
    {
        HealthStatus::Alive(Hitpoints { current: self.current + amount, bonus: self.bonus })
    }
}

/// The health of a character: the most hit points it can have, and how it
/// is.
#[derive(Clone, Copy, Debug)]
pub struct Health {
    max: u32,
    status: HealthStatus,
}

impl HealthStatus {
    /// What damage does to a character: to a conscious one what it does to
    /// its hit points, to an unconscious one what it does to its death
    /// saves, and nothing to a dead one.
    pub open spec fn spec_damage(self, damage: u32, critical: bool) -> HealthStatus {
        match self {
            HealthStatus::Alive(hp) => hp.spec_damage(damage),
            HealthStatus::Unconscious(saves) => saves.spec_damage(critical),
            HealthStatus::Dead => HealthStatus::Dead,
        }
    }

    /// What healing does to a character: a conscious one gains the hit
    /// points, an unconscious one wakes with them, a dead one stays dead.
    pub open spec fn spec_heal(self, health: u32) -> HealthStatus {
        match self {
            HealthStatus::Alive(hp) => HealthStatus::Alive(
                Hitpoints { current: (hp.current + health) as u32, bonus: hp.bonus },
            ),
            HealthStatus::Unconscious(_) => HealthStatus::Alive(
                Hitpoints { current: health, bonus: 0 },
            ),
            HealthStatus::Dead => HealthStatus::Dead,
        }
    }
}

impl Health {
    /// The most hit points the character can have.
    pub closed spec fn spec_max(&self) -> u32 {
        self.max
    }

    /// How the character is.
    pub closed spec fn spec_status(&self) -> HealthStatus {
        self.status
    }

    /// Creates the health of a character that can have `max` hit points. It
    /// starts alive, with one hit point.
    pub fn new(max: u32) -> (r: Self)
        ensures
            r.spec_max() == max,
            r.spec_status() == HealthStatus::Alive(Hitpoints { current: 1, bonus: 0 }),
    {
        Health { max, status: HealthStatus::default() }
    }

    /// Puts a health back together from the most hit points the character
    /// can have and how it is.
    pub fn restore(max: u32, status: HealthStatus) -> (r: Self)
        ensures
            r.spec_max() == max,
            r.spec_status() == status,
    {
        Health { max, status }
    }

    /// Gets the most hit points the character can have.
    pub fn max(&self) -> (r: u32)
        ensures
            r == self.spec_max(),
    {
        self.max
    }

    /// Gets how the character is.
    pub fn status(&self) -> (r: HealthStatus)
        ensures
            r == self.spec_status(),
    {
        self.status
    }

    /// Deals damage to the character and gets how it is afterwards.
    pub fn damage(&mut self, damage: u32, critical: bool) -> (r: HealthStatus)
        ensures
            final(self).spec_max() == old(self).spec_max(),
            final(self).spec_status() == old(self).spec_status().spec_damage(damage, critical),
            r == final(self).spec_status(),
    {
        self.status = match self.status {
            HealthStatus::Alive(hp) => hp.damage(damage),
            HealthStatus::Unconscious(saves) => saves.damage(critical),
            HealthStatus::Dead => HealthStatus::Dead,
        };
        self.status
    }

    /// Heals the character and gets how it is afterwards.
    pub fn heal(&mut self, health: u32) -> (r: HealthStatus)
        requires
            old(self).spec_status() matches HealthStatus::Alive(hp) ==> hp.current + health
                <= u32::MAX,
        ensures
            final(self).spec_max() == old(self).spec_max(),
            final(self).spec_status() == old(self).spec_status().spec_heal(health),
            r == final(self).spec_status(),
    {
        self.status = match self.status {
            HealthStatus::Alive(hp) => hp.heal(health),
            HealthStatus::Unconscious(saves) => saves.heal(health),
            HealthStatus::Dead => HealthStatus::Dead,
        };
        self.status
    }

    /// Tells whether the character is dead.
    pub fn dead(self) -> (r: bool)
        ensures
            r == (self.spec_status() is Dead),
    {
        match self.status {
            HealthStatus::Dead => true,
            _ => false,
        }
    }

    /// Tells whether the character is alive with exactly as many hit points
    /// of its own as it can have.
    pub fn full(self) -> (r: bool)
        ensures
            r == (self.spec_status() matches HealthStatus::Alive(hp) && hp.current
                == self.spec_max()),
    {
        match self.status {
            HealthStatus::Alive(hp) => hp.current == self.max,
            _ => false,
        }
    }
}

impl Default for Health {
    /// One hit point of one.
    fn default() -> (r: Self)
        ensures
            r.spec_max() == 1,
            r.spec_status() == HealthStatus::Alive(Hitpoints { current: 1, bonus: 0 }),
    {
        Self { max: 1, status: HealthStatus::default() }
    }
}

/// A unique identifier for characters.
#[derive(Clone, Copy, Debug, Eq, PartialEq, Structural)]
pub struct CharacterId(pub u128);

impl CharacterId {
    /// Makes a new identifier, drawn at random and marked as such.
    pub fn fresh() -> (r: Self)
        ensures
            is_random_identifier(r.0),
    {
        CharacterId(fresh_id())
    }
}

/// A unique identifier for locations.
#[derive(Clone, Copy, Debug, Eq, PartialEq, Structural)]
pub struct LocationId(pub u128);

impl LocationId {
    /// Makes a new identifier, drawn at random and marked as such.
    pub fn fresh() -> (r: Self)
        ensures
            is_random_identifier(r.0),
    {
        LocationId(fresh_id())
    }
}

/// A place in the world.
#[derive(Debug)]
pub struct Location {
    /// The id of the location.
    pub id: LocationId,
    /// The word by which notes refer to the location.
    pub identifier: String,
    /// The body that the location lies on.
    pub planet: PlanetId,
}

impl Clone for Location {
    fn clone(&self) -> (r: Self)
        ensures
            r == *self,
    {
        Location { id: self.id, identifier: self.identifier.clone(), planet: self.planet }
    }
}

/// Tracks a character reference inside a record string.
#[derive(Debug)]
pub struct CharacterReference {
    /// The character referred to.
    pub id: CharacterId,
    /// The word that refers to it.
    pub string: String,
    /// The byte of the note at which the word starts.
    pub start: usize,
    /// The byte of the note before which the word ends.
    pub end: usize,
}

impl Clone for CharacterReference {
    fn clone(&self) -> (r: Self)
        ensures
            r == *self,
    {
        CharacterReference {
            id: self.id,
            string: self.string.clone(),
            start: self.start,
            end: self.end,
        }
    }
}

/// Tracks a location reference inside a record string.
#[derive(Debug)]
pub struct LocationReference {
    /// The location referred to.
    pub id: LocationId,
    /// The word that refers to it.
    pub string: String,
    /// The byte of the note at which the word starts.
    pub start: usize,
    /// The byte of the note before which the word ends.
    pub end: usize,
}

impl Clone for LocationReference {
    fn clone(&self) -> (r: Self)
        ensures
            r == *self,
    {
        LocationReference {
            id: self.id,
            string: self.string.clone(),
            start: self.start,
            end: self.end,
        }
    }
}

impl Clone for Description {
    fn clone(&self) -> (r: Self)
        ensures
            r == *self,
    {
        Description {
            age: self.age,
            height: self.height,
            weight: self.weight,
            backstory: match &self.backstory {
                Some(story) => Some(story.clone()),
                None => None,
            },
        }
    }
}

impl Default for Description {
    /// Nothing known.
    fn default() -> (r: Self)
        ensures
            r.age is None,
            r.height is None,
            r.weight is None,
            r.backstory is None,
    {
        Description { age: None, height: None, weight: None, backstory: None }
    }
}

/// A character of the world.
#[derive(Debug)]
pub struct Character {
    /// The id of the character.
    pub id: CharacterId,
    /// The word by which notes refer to the character.
    pub identifier: String,
    /// Where the character is.
    pub location: Option<LocationId>,
    /// The name of the character.
    pub name: String,
    /// The looks and the past of the character.
    pub description: Description,
    /// The race of the character.
    pub race: Race,
    /// The health of the character.
    pub health: Health,
    /// Whether the character is inspired.
    pub inspiration: bool,
    /// The classes of the character, at most four, with the levels taken in
    /// each.
    pub classes: [(Option<Class>, u8); 4],
    /// The experience gathered since the last level. Only set if working
    /// with experience.
    pub experience: Option<u32>,
}

impl Clone for Character {
    fn clone(&self) -> (r: Self)
        ensures
            r == *self,
    {
        Character {
            id: self.id,
            identifier: self.identifier.clone(),
            location: self.location,
            name: self.name.clone(),
            description: self.description.clone(),
            race: self.race,
            health: self.health,
            inspiration: self.inspiration,
            classes: self.classes,
            experience: self.experience,
        }
    }
}

impl Character {
    /// The levels of the first `count` places that hold a class, added up.
    pub open spec fn levels(self, count: int) -> int
        decreases count,
    {
        if count <= 0 {
            0
        } else {
            self.levels(count - 1) + if self.classes[count - 1].0 is Some {
                self.classes[count - 1].1 as int
            } else {
                0
            }
        }
    }

    /// The place of the first entry from place `from` on that holds `class`.
    pub open spec fn place_of(self, class: Class, from: int) -> Option<int>
        decreases 4 - from,
    {
        if from < 0 || from >= 4 {
            None
        } else if self.classes[from].0 == Some(class) {
            Some(from)
        } else {
            self.place_of(class, from + 1)
        }
    }

    /// Creates a character with a new, random id. It is called by its
    /// identifier where no name is given, has the untouched health of one
    /// that can have `max_health` hit points, or of one that can have one
    /// where none is given, and is of unknown race where none is given. It
    /// is nowhere, has no class, and counts no experience.
    pub fn new(
        identifier: String,
        name: Option<String>,
        max_health: Option<u32>,
        race: Option<Race>,
    ) -> (r: Self)
        ensures
            r.identifier == identifier,
            r.name@ == match name {
                Some(name) => name@,
                None => identifier@,
            },
            r.health.spec_max() == match max_health {
                Some(max) => max,
                None => 1,
            },
            r.health.spec_status() == HealthStatus::Alive(Hitpoints { current: 1, bonus: 0 }),
            r.race == match race {
                Some(race) => race,
                None => Race::Unknown,
            },
            r.location is None,
            r.description.age is None,
            r.description.height is None,
            r.description.weight is None,
            r.description.backstory is None,
            !r.inspiration,
            forall|i: int| 0 <= i < 4 ==> r.classes[i] == (None::<Class>, 0u8),
            r.experience is None,
    {
        let name = match name {
            Some(name) => name,
            None => identifier.clone(),
        };
        let health = match max_health {
            Some(max) => Health::new(max),
            None => Health::default(),
        };
        let race = match race {
            Some(race) => race,
            None => Race::default(),
        };
        Character {
            id: CharacterId::fresh(),
            name,
            identifier,
            health,
            race,
            location: None,
            description: Description::default(),
            inspiration: false,
            classes: [(None, 0), (None, 0), (None, 0), (None, 0)],
            experience: None,
        }
    }

    /// Gets the level of the character: the levels of all its classes added
    /// up.
    pub fn level(&self) -> (r: u8)
        requires
            self.levels(4) <= u8::MAX,
        ensures
            r == self.levels(4),
    {
        let mut sum: u8 = 0;
        let mut i: usize = 0;
        while i < 4
            invariant
                0 <= i <= 4,
                sum == self.levels(i as int),
                self.levels(4) <= u8::MAX,
            decreases 4 - i,
        {
            proof {
                reveal_with_fuel(Character::levels, 5);
            }
            if self.classes[i].0.is_some() {
                sum = sum + self.classes[i].1;
            }
            i = i + 1;
        }
        sum
    }

    /// Takes one more level in a class that the character already has: the
    /// first entry that holds the class gains a level, and the experience,
    /// where it is counted, starts again at zero. Fails, and changes
    /// nothing, where the character has no such class.
    pub fn level_up(&mut self, class: Class) -> (r: Result<(), ()>)
        requires
            old(self).place_of(class, 0) matches Some(place) ==> old(self).classes[place].1
                < u8::MAX,
        ensures
            match old(self).place_of(class, 0) {
                Some(place) => {
                    &&& r is Ok
                    &&& final(self).classes@ == old(self).classes@.update(
                        place,
                        (Some(class), (old(self).classes[place].1 + 1) as u8),
                    )
                    &&& final(self).experience == if old(self).experience is Some {
                        Some(0u32)
                    } else {
                        None
                    }
                    &&& final(self).id == old(self).id
                    &&& final(self).identifier == old(self).identifier
                    &&& final(self).location == old(self).location
                    &&& final(self).name == old(self).name
                    &&& final(self).description == old(self).description
                    &&& final(self).race == old(self).race
                    &&& final(self).health == old(self).health
                    &&& final(self).inspiration == old(self).inspiration
                },
                None => r is Err && *final(self) == *old(self),
            },
    {
        let mut i: usize = 0;
        while i < 4
            invariant
                0 <= i <= 4,
                *self == *old(self),
                self.place_of(class, 0) matches Some(place) ==> self.classes[place].1 < u8::MAX,
                self.place_of(class, 0) == self.place_of(class, i as int),
            decreases 4 - i,
        {
            let entry = self.classes[i];
            let found = match entry.0 {
                Some(held) => held == class,
                None => false,
            };
            if found {
                self.classes[i] = (Some(class), entry.1 + 1);
                if self.experience.is_some() {
                    self.experience = Some(0);
                }
                return Ok(());
            }
            i = i + 1;
        }
        Err(())
    }
}

} // verus!
