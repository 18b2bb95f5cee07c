//! The bodies, characters and locations that a world keeps, and how they
//! are looked up.

use super::World;
use crate::character::{Character, CharacterId, Location, LocationId};
use crate::outside::fresh_id;
use crate::solar::{CelestialBody, Color, Orbit, PlanetId};
use vstd::prelude::*;

verus! {

/// The place of the first body from place `from` on with the id `id`.
pub open spec fn place_of_planet(bodies: Seq<CelestialBody>, id: PlanetId, from: int) -> Option<int>
    decreases bodies.len() - from,
{
    if from < 0 || from >= bodies.len() {
        None
    } else if bodies[from].id == id {
        Some(from)
    } else {
        place_of_planet(bodies, id, from + 1)
    }
}

/// The place of the first character from place `from` on with the id `id`.
pub open spec fn place_of_character(characters: Seq<Character>, id: CharacterId, from: int) -> Option<
    int,
>
    decreases characters.len() - from,
{
    if from < 0 || from >= characters.len() {
        None
    } else if characters[from].id == id {
        Some(from)
    } else {
        place_of_character(characters, id, from + 1)
    }
}

/// The place of the first character from place `from` on that notes refer
/// to by `word`.
pub open spec fn place_of_character_called(
    characters: Seq<Character>,
    word: Seq<char>,
    from: int,
) -> Option<int>
    decreases characters.len() - from,
{
    if from < 0 || from >= characters.len() {
        None
    } else if characters[from].identifier@ == word {
        Some(from)
    } else {
        place_of_character_called(characters, word, from + 1)
    }
}

/// The place of the first location from place `from` on with the id `id`.
pub open spec fn place_of_location(locations: Seq<Location>, id: LocationId, from: int) -> Option<
    int,
>
    decreases locations.len() - from,
{
    if from < 0 || from >= locations.len() {
        None
    } else if locations[from].id == id {
        Some(from)
    } else {
        place_of_location(locations, id, from + 1)
    }
}

/// The place of the first location from place `from` on that notes refer to
/// by `word`.
pub open spec fn place_of_location_called(
    locations: Seq<Location>,
    word: Seq<char>,
    from: int,
) -> Option<int>
    decreases locations.len() - from,
{
    if from < 0 || from >= locations.len() {
        None
    } else if locations[from].identifier@ == word {
        Some(from)
    } else {
        place_of_location_called(locations, word, from + 1)
    }
}

/// What is found lies at or after the place where the search began, and
/// inside the list.
pub proof fn lemma_place_of_planet(bodies: Seq<CelestialBody>, id: PlanetId, from: int)
    requires
        0 <= from,
    ensures
        place_of_planet(bodies, id, from) matches Some(place) ==> from <= place < bodies.len()
            && bodies[place].id == id,
    decreases bodies.len() - from,
{
    if from < bodies.len() && bodies[from].id != id {
        lemma_place_of_planet(bodies, id, from + 1);
    }
}

/// Keeps track of celestial bodies.
pub trait PlanetStore {
    /// The bodies kept, in the order in which they were made.
    spec fn planets(&self) -> Seq<CelestialBody>;

    /// Get the first body with the id `id`.
    fn get_planet(&self, id: PlanetId) -> (r: Option<&CelestialBody>)
        ensures
            match r {
                Some(body) => place_of_planet(self.planets(), id, 0) matches Some(place)
                    && self.planets()[place] == *body,
                None => place_of_planet(self.planets(), id, 0) is None,
            },
    ;

    /// Create a new body without an orbit and without children, with a new,
    /// random id, and put it after the ones kept.
    fn create_planet(
        &mut self,
        name: String,
        temperature: i32,
        rotational_period: u32,
        color: Color,
    ) -> (r: &CelestialBody)
        ensures
            final(self).planets() == old(self).planets().push(*r),
            r.name == name,
            r.color == color,
            r.temperature == temperature,
            r.rotational_period == rotational_period,
            r.orbit is None,
            r.children@.len() == 0,
    ;

    /// Adds an orbit: the first body with the id `child_id` gets an orbit of
    /// `period` of its own turns around `parent_id`, and the first body with
    /// the id `parent_id` gets `child_id` as its last child.
    fn add_orbit(&mut self, parent_id: PlanetId, child_id: PlanetId, period: u32)
        requires
            place_of_planet(old(self).planets(), parent_id, 0) is Some,
            place_of_planet(old(self).planets(), child_id, 0) matches Some(child) && period
                * old(self).planets()[child].rotational_period <= u32::MAX,
            period > 0,
        ensures
            final(self).planets().len() == old(self).planets().len(),
            forall|i: int|
                0 <= i < old(self).planets().len() ==> {
                    &&& (#[trigger] final(self).planets()[i]).id == old(self).planets()[i].id
                    &&& final(self).planets()[i].name == old(self).planets()[i].name
                    &&& final(self).planets()[i].color == old(self).planets()[i].color
                    &&& final(self).planets()[i].rotational_period
                        == old(self).planets()[i].rotational_period
                    &&& final(self).planets()[i].temperature == old(self).planets()[i].temperature
                    &&& final(self).planets()[i].orbit == if place_of_planet(
                        old(self).planets(),
                        child_id,
                        0,
                    ) == Some(i) {
                        Some(
                            Orbit {
                                parent: parent_id,
                                body: child_id,
                                shift: 0,
                                period: (period * old(self).planets()[i].rotational_period) as u32,
                            },
                        )
                    } else {
                        old(self).planets()[i].orbit
                    }
                    &&& final(self).planets()[i].children@ == if place_of_planet(
                        old(self).planets(),
                        parent_id,
                        0,
                    ) == Some(i) {
                        old(self).planets()[i].children@.push(child_id)
                    } else {
                        old(self).planets()[i].children@
                    }
                },
    ;
}

/// Keeps track of characters.
pub trait CharacterStore {
    /// The characters kept.
    spec fn spec_characters(&self) -> Seq<Character>;

    /// Gets the first character with the id `id`.
    fn get_character(&self, id: CharacterId) -> (r: Option<Character>)
        ensures
            match r {
                Some(found) => place_of_character(self.spec_characters(), id, 0) matches Some(
                    place,
                ) && self.spec_characters()[place] == found,
                None => place_of_character(self.spec_characters(), id, 0) is None,
            },
    ;

    /// Gets all characters.
    fn list_characters(&self) -> (r: Vec<Character>)
        ensures
            r@ == self.spec_characters(),
    ;

    /// Gets the first character that notes refer to by `search`.
    fn lookup_character(&self, search: &str) -> (r: Option<Character>)
        ensures
            match r {
                Some(found) => place_of_character_called(self.spec_characters(), search@, 0) matches Some(
                    place,
                ) && self.spec_characters()[place] == found,
                None => place_of_character_called(self.spec_characters(), search@, 0) is None,
            },
    ;
}

/// Keeps track of locations.
pub trait LocationStore {
    /// The locations kept.
    spec fn spec_locations(&self) -> Seq<Location>;

    /// Gets the first location with the id `id`.
    fn get_location(&self, id: LocationId) -> (r: Option<Location>)
        ensures
            match r {
                Some(found) => place_of_location(self.spec_locations(), id, 0) matches Some(place)
                    && self.spec_locations()[place] == found,
                None => place_of_location(self.spec_locations(), id, 0) is None,
            },
    ;

    /// Gets all locations.
    fn list_locations(&self) -> (r: Vec<Location>)
        ensures
            r@ == self.spec_locations(),
    ;

    /// Gets the first location that notes refer to by `search`.
    fn lookup_location(&self, search: &str) -> (r: Option<Location>)
        ensures
            match r {
                Some(found) => place_of_location_called(self.spec_locations(), search@, 0) matches Some(
                    place,
                ) && self.spec_locations()[place] == found,
                None => place_of_location_called(self.spec_locations(), search@, 0) is None,
            },
    ;

    /// Creates a location that notes refer to by `ident`, with a new, random
    /// id, on the body that new locations lie on, and puts it after the
    /// ones kept.
    fn create_location(&mut self, ident: &str) -> (r: Location)
        ensures
            final(self).spec_locations() == old(self).spec_locations().push(r),
            r.identifier@ == ident@,
            r.planet == PlanetId(NEW_LOCATION_PLANET),
    ;
}

/// The number of the body that new locations lie on.
pub const NEW_LOCATION_PLANET: u128 = 0x68f83dbc_1894_4d2f_b3a2_ec9fe59f8071;

impl PlanetStore for World {
    open spec fn planets(&self) -> Seq<CelestialBody> {
        self.bodies@
    }

    fn get_planet(&self, id: PlanetId) -> (r: Option<&CelestialBody>) {
        match self.find_planet(id) {
            Some(place) => Some(&self.bodies[place]),
            None => None,
        }
    }

    fn create_planet(
        &mut self,
        name: String,
        temperature: i32,
        rotational_period: u32,
        color: Color,
    ) -> (r: &CelestialBody)
        ensures
            final(self).same_but_bodies(old(self)),
    {
        let planet = CelestialBody::new(
            PlanetId(fresh_id()),
            name,
            temperature,
            rotational_period,
            color,
        );
        let index: usize = self.bodies.len();
        self.bodies.push(planet);
        &self.bodies[index]
    }

    fn add_orbit(&mut self, parent_id: PlanetId, child_id: PlanetId, period: u32)
        ensures
            final(self).same_but_bodies(old(self)),
    {
        proof {
            lemma_place_of_planet(self.bodies@, child_id, 0);
            lemma_place_of_planet(self.bodies@, parent_id, 0);
        }
        let child: usize = match self.find_planet(child_id) {
            Some(child) => child,
            None => vstd::pervasive::unreached(),
        };
        let parent: usize = match self.find_planet(parent_id) {
            Some(parent) => parent,
            None => vstd::pervasive::unreached(),
        };
        proof {
            assert(0 * self.bodies@[child as int].rotational_period == 0) by (nonlinear_arith);
            vstd::arithmetic::div_mod::lemma_small_mod(0, period as nat);
        }
        let orbit = Orbit::from_period(
            self.bodies[child].id,
            self.bodies[child].rotational_period,
            parent_id,
            period,
            0,
        );
        self.bodies[child].orbit = Some(orbit);
        self.bodies[parent].children.push(child_id);
    }
}

impl CharacterStore for World {
    open spec fn spec_characters(&self) -> Seq<Character> {
        self.characters@
    }

    fn get_character(&self, id: CharacterId) -> (r: Option<Character>) {
        let mut i: usize = 0;
        while i < self.characters.len()
            invariant
                0 <= i <= self.characters.len(),
                place_of_character(self.characters@, id, 0) == place_of_character(
                    self.characters@,
                    id,
                    i as int,
                ),
            decreases self.characters.len() - i,
        {
            if self.characters[i].id.0 == id.0 {
                return Some(self.characters[i].clone());
            }
            i = i + 1;
        }
        None
    }

    fn lookup_character(&self, search: &str) -> (r: Option<Character>) {
        match self.find_character_called(&String::from_str(search)) {
            Some(place) => Some(self.characters[place].clone()),
            None => None,
        }
    }

    fn list_characters(&self) -> (r: Vec<Character>) {
        let mut all: Vec<Character> = Vec::new();
        let mut i: usize = 0;
        while i < self.characters.len()
            invariant
                0 <= i <= self.characters.len(),
                all@ == self.characters@.take(i as int),
            decreases self.characters.len() - i,
        {
            all.push(self.characters[i].clone());
            i = i + 1;
            assert(all@ =~= self.characters@.take(i as int));
        }
        assert(all@ =~= self.characters@);
        all
    }
}

impl LocationStore for World {
    open spec fn spec_locations(&self) -> Seq<Location> {
        self.locations@
    }

    fn get_location(&self, id: LocationId) -> (r: Option<Location>) {
        let mut i: usize = 0;
        while i < self.locations.len()
            invariant
                0 <= i <= self.locations.len(),
                place_of_location(self.locations@, id, 0) == place_of_location(
                    self.locations@,
                    id,
                    i as int,
                ),
            decreases self.locations.len() - i,
        {
            if self.locations[i].id.0 == id.0 {
                return Some(self.locations[i].clone());
            }
            i = i + 1;
        }
        None
    }

    fn lookup_location(&self, search: &str) -> (r: Option<Location>) {
        match self.find_location_called(&String::from_str(search)) {
            Some(place) => Some(self.locations[place].clone()),
            None => None,
        }
    }

    fn create_location(&mut self, ident: &str) -> (r: Location)
        ensures
            final(self).same_but_locations(old(self)),
    {
        let loc = Location {
            id: LocationId::fresh(),
            identifier: String::from_str(ident),
            planet: PlanetId(NEW_LOCATION_PLANET),
        };
        self.locations.push(loc.clone());
        loc
    }

    fn list_locations(&self) -> (r: Vec<Location>) {
        let mut all: Vec<Location> = Vec::new();
        let mut i: usize = 0;
        while i < self.locations.len()
            invariant
                0 <= i <= self.locations.len(),
                all@ == self.locations@.take(i as int),
            decreases self.locations.len() - i,
        {
            all.push(self.locations[i].clone());
            i = i + 1;
            assert(all@ =~= self.locations@.take(i as int));
        }
        assert(all@ =~= self.locations@);
        all
    }
}

/// A location put after `locations` is found by its word where no location
/// of that word stood there before; what was found before is found still.
pub proof fn lemma_location_after_push(
    locations: Seq<Location>,
    added: Location,
    word: Seq<char>,
    from: int,
)
    requires
        0 <= from <= locations.len(),
    ensures
        place_of_location_called(locations.push(added), word, from) == match place_of_location_called(
            locations,
            word,
            from,
        ) {
            Some(place) => Some(place),
            None => if added.identifier@ == word {
                Some(locations.len() as int)
            } else {
                None
            },
        },
    decreases locations.len() - from,
{
    let longer = locations.push(added);
    if from < locations.len() {
        assert(longer[from] == locations[from]);
        if locations[from].identifier@ != word {
            lemma_location_after_push(locations, added, word, from + 1);
        }
    } else {
        assert(longer[from] == added);
        assert(place_of_location_called(longer, word, from + 1) is None);
    }
}

/// What is found lies at or after the place where the search began, inside
/// the list, and is called by the word.
pub proof fn lemma_place_of_location_called(locations: Seq<Location>, word: Seq<char>, from: int)
    requires
        0 <= from,
    ensures
        place_of_location_called(locations, word, from) matches Some(place) ==> from <= place
            < locations.len() && locations[place].identifier@ == word,
    decreases locations.len() - from,
{
    if from < locations.len() && locations[from].identifier@ != word {
        lemma_place_of_location_called(locations, word, from + 1);
    }
}

/// A body that stands in the list, with no body of its id before it, is
/// found at its place.
pub proof fn lemma_planet_is_at(bodies: Seq<CelestialBody>, id: PlanetId, place: int)
    requires
        0 <= place < bodies.len(),
        bodies[place].id == id,
        forall|i: int| 0 <= i < place ==> (#[trigger] bodies[i]).id != id,
    ensures
        place_of_planet(bodies, id, 0) == Some(place),
{
    lemma_planet_is_found(bodies, id, place);
    lemma_place_of_planet(bodies, id, 0);
}

/// A body that stands in the list is found, at its place or before it.
pub proof fn lemma_planet_is_found(bodies: Seq<CelestialBody>, id: PlanetId, place: int)
    requires
        0 <= place < bodies.len(),
        bodies[place].id == id,
    ensures
        place_of_planet(bodies, id, 0) matches Some(found) && found <= place,
{
    lemma_planet_is_found_from(bodies, id, place, 0);
}

/// A body that stands in the list at or after the place where the search
/// begins is found, at its place or before it.
pub proof fn lemma_planet_is_found_from(
    bodies: Seq<CelestialBody>,
    id: PlanetId,
    place: int,
    from: int,
)
    requires
        0 <= from <= place < bodies.len(),
        bodies[place].id == id,
    ensures
        place_of_planet(bodies, id, from) matches Some(found) && found <= place,
    decreases place - from,
{
    if bodies[from].id != id {
        lemma_planet_is_found_from(bodies, id, place, from + 1);
    }
}

impl World {
    /// Gets the place of the first body with the id `id`.
    pub fn find_planet(&self, id: PlanetId) -> (r: Option<usize>)
        ensures
            match r {
                Some(place) => place_of_planet(self.bodies@, id, 0) == Some(place as int)
                    && place < self.bodies@.len(),
                None => place_of_planet(self.bodies@, id, 0) is None,
            },
    {
        let mut i: usize = 0;
        while i < self.bodies.len()
            invariant
                0 <= i <= self.bodies.len(),
                place_of_planet(self.bodies@, id, 0) == place_of_planet(self.bodies@, id, i as int),
            decreases self.bodies.len() - i,
        {
            if self.bodies[i].id.0 == id.0 {
                return Some(i);
            }
            i = i + 1;
        }
        None
    }

    /// Gets the place of the first character that notes refer to by `word`.
    pub fn find_character_called(&self, word: &String) -> (r: Option<usize>)
        ensures
            match r {
                Some(place) => place_of_character_called(self.characters@, word@, 0) == Some(
                    place as int,
                ) && place < self.characters@.len(),
                None => place_of_character_called(self.characters@, word@, 0) is None,
            },
    {
        let mut i: usize = 0;
        while i < self.characters.len()
            invariant
                0 <= i <= self.characters.len(),
                place_of_character_called(self.characters@, word@, 0)
                    == place_of_character_called(self.characters@, word@, i as int),
            decreases self.characters.len() - i,
        {
            if self.characters[i].identifier == *word {
                return Some(i);
            }
            i = i + 1;
        }
        None
    }

    /// Gets the place of the first location that notes refer to by `word`.
    pub fn find_location_called(&self, word: &String) -> (r: Option<usize>)
        ensures
            match r {
                Some(place) => place_of_location_called(self.locations@, word@, 0) == Some(
                    place as int,
                ) && place < self.locations@.len(),
                None => place_of_location_called(self.locations@, word@, 0) is None,
            },
    {
        let mut i: usize = 0;
        while i < self.locations.len()
            invariant
                0 <= i <= self.locations.len(),
                place_of_location_called(self.locations@, word@, 0) == place_of_location_called(
                    self.locations@,
                    word@,
                    i as int,
                ),
            decreases self.locations.len() - i,
        {
            if self.locations[i].identifier == *word {
                return Some(i);
            }
            i = i + 1;
        }
        None
    }
}

/// The orbit of the parent of the body of `orbit`, where the body shows a
/// phase: where the body is kept and is not luminous, its parent is kept and
/// has an orbit of its own, and what the parent goes round is kept and is
/// luminous.
pub open spec fn lit_parent_orbit(bodies: Seq<CelestialBody>, orbit: Orbit) -> Option<Orbit> {
    match place_of_planet(bodies, orbit.body, 0) {
        Some(body) if bodies[body].temperature <= 3500 => match place_of_planet(
            bodies,
            orbit.parent,
            0,
        ) {
            Some(parent) => match bodies[parent].orbit {
                Some(parent_orbit) => match place_of_planet(bodies, parent_orbit.parent, 0) {
                    Some(light) if bodies[light].temperature > 3500 => Some(parent_orbit),
                    _ => None,
                },
                None => None,
            },
            None => None,
        },
        _ => None,
    }
}

/// Tells whether the body of an orbit shows a phase, and gets the orbit of
/// its parent where it does. Luminous bodies show no phase, and neither do
/// bodies on which no light falls.
pub fn phase_parent<S: PlanetStore>(lookup: &S, orbit: &Orbit) -> (r: Option<Orbit>)
    ensures
        r == lit_parent_orbit(lookup.planets(), *orbit),
{
    let body = match lookup.get_planet(orbit.body) {
        Some(body) => body,
        None => {
            return None;
        },
    };
    if body.is_luminous() {
        return None;
    }
    let parent = match lookup.get_planet(orbit.parent) {
        Some(parent) => parent,
        None => {
            return None;
        },
    };
    let parent_orbit = match parent.orbit {
        Some(parent_orbit) => parent_orbit,
        None => {
            return None;
        },
    };
    let light = match lookup.get_planet(parent_orbit.parent) {
        Some(light) => light,
        None => {
            return None;
        },
    };
    if light.is_luminous() {
        Some(parent_orbit)
    } else {
        None
    }
}

} // verus!
