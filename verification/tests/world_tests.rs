use holding::calendar::{Calendar, ParseDateTimeError};
use holding::character::{Character, CharacterReference, LocationReference};
use holding::character::{CharacterId, LocationId};
use holding::datetime::{DateTime, InvalidDateError, RawDate, RawDateTime, RawTime};
use holding::order::stable_order;
use holding::record::{RawRecord, Record};
use holding::solar::planet::ValidationError;
use holding::solar::{CelestialBody, Color, Orbit, PlanetId};
use holding::world::{
    names_in, phase_parent, CharacterStore, LocationStore, PlanetStore, TimelineEntry as Entry, World,
    WorldError,
    CHARACTER_PATTERN, LOCATION_PATTERN, NEW_LOCATION_PLANET,
};

fn at(seconds: i64) -> RawDateTime {
    let cal = Calendar::default();
    DateTime::from_seconds(seconds, &cal).to_raw()
}

fn record(seconds: i64, note: &str) -> RawRecord {
    RawRecord::new(at(seconds), note.to_string(), vec![], vec![])
}

#[test]
fn the_default_world() {
    let world = World::default();
    assert_eq!(world.name, "World");
    assert_eq!(world.time, at(0));
    assert!(!world.jumped());
    assert_eq!(world.bodies.len(), 3);
    let earth = &world.bodies[0];
    let moon = &world.bodies[1];
    let sun = &world.bodies[2];
    assert_eq!((earth.name.as_str(), moon.name.as_str(), sun.name.as_str()), ("Earth", "Moon", "Sun"));
    assert_eq!(world.home_planet, earth.id);
    assert_eq!(
        earth.orbit,
        Some(Orbit { parent: sun.id, body: earth.id, shift: 0, period: 31_536_000 })
    );
    assert_eq!(
        moon.orbit,
        Some(Orbit { parent: earth.id, body: moon.id, shift: 0, period: 2_419_200 })
    );
    assert!(sun.orbit.is_none());
    assert_eq!(earth.children, vec![moon.id]);
    assert_eq!(sun.children, vec![earth.id]);
    assert!(moon.children.is_empty());
    assert_eq!((earth.temperature, moon.temperature, sun.temperature), (290, 240, 5800));
    assert_eq!(world.validate(), Ok(true));
    assert!(world.records.is_empty() && world.characters.is_empty() && world.locations.is_empty());
}

#[test]
fn validation_of_a_world() {
    let mut world = World::default();
    world.home_planet = PlanetId(12345);
    assert_eq!(world.validate(), Err(WorldError::NoHomePlanet));
    world.home_planet = world.bodies[2].id;
    assert_eq!(
        world.validate(),
        Err(WorldError::Invalid(ValidationError::InconsistentRotationalPeriod(2_419_200, 86400)))
    );
}

#[test]
fn planets_are_kept() {
    let home = CelestialBody::new(PlanetId(7), "Home".to_string(), 300, 86400, Color::Blue);
    let mut world = World::new("w".to_string(), Calendar::default(), home);
    assert_eq!(world.get_planet(PlanetId(7)).unwrap().name, "Home");
    assert!(world.get_planet(PlanetId(8)).is_none());
    let made = world.create_planet("Far".to_string(), 10, 50, Color::Cyan);
    assert_eq!(made.name, "Far");
    assert_eq!((made.temperature, made.rotational_period, made.color), (10, 50, Color::Cyan));
    let far = made.id;
    assert_eq!(world.bodies.len(), 2);
    assert_eq!(world.find_planet(far), Some(1));
    assert_eq!(world.find_planet(PlanetId(7)), Some(0));
    world.add_orbit(PlanetId(7), far, 3);
    assert_eq!(
        world.bodies[1].orbit,
        Some(Orbit { parent: PlanetId(7), body: far, shift: 0, period: 150 })
    );
    assert_eq!(world.bodies[0].children, vec![far]);
    assert!(world.bodies[0].orbit.is_none());
}

#[test]
fn characters_and_locations_are_kept() {
    let mut world = World::default();
    world.characters.push(Character::new("bob".to_string(), Some("Bob".to_string()), None, None));
    world.characters.push(Character::new("al".to_string(), None, None, None));
    world.characters.push(Character::new("bob".to_string(), Some("Other".to_string()), None, None));
    assert_eq!(world.lookup_character("bob").unwrap().name, "Bob");
    assert_eq!(world.lookup_character("al").unwrap().name, "al");
    assert!(world.lookup_character("Bob").is_none());
    let id = world.characters[2].id;
    assert_eq!(world.get_character(id).unwrap().name, "Other");
    assert!(world.get_character(CharacterId(id.0.wrapping_add(1))).is_none()
        || world.characters.iter().any(|c| c.id.0 == id.0.wrapping_add(1)));
    assert_eq!(world.list_characters().len(), 3);
    assert_eq!(world.list_characters()[1].identifier, "al");
    assert_eq!(world.find_character_called(&"al".to_string()), Some(1));

    let made = world.create_location("inn");
    assert_eq!(made.identifier, "inn");
    assert_eq!(made.planet, PlanetId(NEW_LOCATION_PLANET));
    assert_eq!(made.planet, PlanetId(0x68f83dbc18944d2fb3a2ec9fe59f8071));
    assert_eq!(world.locations.len(), 1);
    assert_eq!(world.lookup_location("inn").unwrap().id, made.id);
    assert!(world.lookup_location("out").is_none());
    assert_eq!(world.get_location(made.id).unwrap().identifier, "inn");
    assert!(world.get_location(LocationId(made.id.0 ^ 1)).is_none());
    assert_eq!(world.list_locations().len(), 1);
    assert_eq!(world.find_location_called(&"inn".to_string()), Some(0));
}

#[test]
fn time_moves_forward() {
    let mut world = World::default();
    assert_eq!(world.update_time("1d2h"), Ok(()));
    assert_eq!(world.time, at(86400 + 7200));
    assert_eq!(world.update_time("midnight"), Ok(()));
    assert_eq!(world.time, at(2 * 86400));
    assert_eq!(world.update_time("1-01-02"), Err(WorldError::BackInTime));
    assert_eq!(world.time, at(2 * 86400));
    assert_eq!(world.update_time("1-01-03"), Ok(()));
    assert_eq!(world.time, at(2 * 86400));
    assert_eq!(world.update_time("2-01-01"), Ok(()));
    assert_eq!(world.time, at(365 * 86400));
    assert_eq!(
        world.update_time("nonsense"),
        Err(WorldError::Time(ParseDateTimeError::InvalidFormat))
    );
    assert_eq!(
        world.update_time("1-13-01"),
        Err(WorldError::Time(ParseDateTimeError::InvalidDate(
            InvalidDateError::MonthOutOfBounds(13)
        )))
    );
    assert_eq!(world.time, at(365 * 86400));
    assert!(!world.jumped());
}

#[test]
fn time_jumps_and_returns() {
    let mut world = World::default();
    assert_eq!(world.return_time(), Err(WorldError::AlreadyCanonical));
    world.update_time("10d").unwrap();
    assert_eq!(world.jump_time("1-01-02"), Ok(()));
    assert!(world.jumped());
    assert_eq!(world.time, at(86400));
    assert_eq!(world.canonical_time, Some(at(10 * 86400)));
    assert_eq!(world.jump_time("1y"), Ok(()));
    assert_eq!(world.time, at(366 * 86400));
    assert_eq!(world.canonical_time, Some(at(10 * 86400)));
    assert_eq!(world.return_time(), Ok(()));
    assert_eq!(world.time, at(10 * 86400));
    assert!(!world.jumped());
    assert_eq!(world.return_time(), Err(WorldError::AlreadyCanonical));
    // A jump that fails still leaves the canonical time behind.
    assert_eq!(world.jump_time("?"), Err(WorldError::Time(ParseDateTimeError::InvalidFormat)));
    assert!(world.jumped());
    assert_eq!(world.time, at(10 * 86400));
    assert_eq!(world.canonical_time, Some(at(10 * 86400)));
}

#[test]
fn names_are_found_in_notes() {
    let found = names_in(CHARACTER_PATTERN, "met @bob and @al_2 at #inn, not bob@home.");
    let words: Vec<(&str, usize, usize)> =
        found.iter().map(|m| (m.name.as_str(), m.start, m.end)).collect();
    assert_eq!(words, vec![("bob", 5, 8), ("al_2", 14, 18)]);
    let found = names_in(LOCATION_PATTERN, "met @bob and @al_2 at #inn, not bob@home. #x");
    let words: Vec<(&str, usize, usize)> =
        found.iter().map(|m| (m.name.as_str(), m.start, m.end)).collect();
    assert_eq!(words, vec![("inn", 23, 26), ("x", 43, 44)]);
    assert!(names_in(CHARACTER_PATTERN, "nobody here").is_empty());
    assert!(names_in("(", "@bob").is_empty());
    assert!(names_in("@(\\w+)", "@bob").is_empty());
    let found = names_in(CHARACTER_PATTERN, "é @zoë");
    assert_eq!((found[0].name.as_str(), found[0].start, found[0].end), ("zoë", 4, 8));
}

#[test]
fn records_are_added() {
    let mut world = World::default();
    world.characters.push(Character::new("bob".to_string(), None, None, None));
    world.characters.push(Character::new("al".to_string(), None, None, None));
    let bob = world.characters[0].id;
    let al = world.characters[1].id;
    let added = world.add_record("@al met @bob at #inn near #gate, then #inn again".to_string());
    let added = added.unwrap();
    assert_eq!(added.note, "@al met @bob at #inn near #gate, then #inn again");
    assert_eq!(added.date, at(0));
    let chars: Vec<(CharacterId, &str, usize, usize)> =
        added.chars.iter().map(|r| (r.id, r.string.as_str(), r.start, r.end)).collect();
    assert_eq!(chars, vec![(al, "al", 1, 3), (bob, "bob", 9, 12)]);
    let locs: Vec<(&str, usize, usize)> =
        added.locs.iter().map(|r| (r.string.as_str(), r.start, r.end)).collect();
    assert_eq!(locs, vec![("inn", 17, 20), ("gate", 27, 31), ("inn", 39, 42)]);
    let loc_ids: Vec<LocationId> = added.locs.iter().map(|r| r.id).collect();
    assert_eq!(world.time, at(1));
    assert_eq!(world.records.len(), 1);
    assert_eq!(world.locations.len(), 2);
    assert_eq!(world.locations[0].identifier, "inn");
    assert_eq!(world.locations[1].identifier, "gate");
    assert_eq!(world.locations[0].planet, PlanetId(NEW_LOCATION_PLANET));
    assert_eq!(loc_ids, vec![world.locations[0].id, world.locations[1].id, world.locations[0].id]);

    let second = world.add_record("back at #gate".to_string()).unwrap();
    assert_eq!(second.date, at(1));
    assert_eq!(second.locs.len(), 1);
    let gate = second.locs[0].id;
    assert!(second.chars.is_empty());
    assert_eq!(world.locations.len(), 2);
    assert_eq!(gate, world.locations[1].id);
    assert_eq!(world.time, at(2));
    assert_eq!(world.records.len(), 2);
    assert_ne!(world.records[0].id, world.records[1].id);
}

#[test]
fn records_of_unknown_characters_are_refused() {
    let mut world = World::default();
    world.characters.push(Character::new("bob".to_string(), None, None, None));
    let refused = world.add_record("@bob met @eve at #inn".to_string());
    assert_eq!(refused.err(), Some(WorldError::UnknownCharacter));
    assert_eq!(world.time, at(0));
    assert!(world.records.is_empty());
    assert!(world.locations.is_empty());
    let cal = Calendar::default();
    world.time = DateTime::from_date(i64::MAX, 12, 31, &cal).unwrap().advance(86399, holding::expression::Unit::Second).unwrap().to_raw();
    let refused = world.add_record("@bob at #inn".to_string());
    assert_eq!(
        refused.err(),
        Some(WorldError::Time(ParseDateTimeError::InvalidDate(InvalidDateError::YearOutOfBounds)))
    );
    assert!(world.records.is_empty());
    assert!(world.locations.is_empty());
}

#[test]
fn records_between_two_times() {
    let mut world = World::default();
    for (seconds, note) in [(50, "e"), (10, "a"), (30, "c"), (10, "b"), (40, "d"), (60, "f")] {
        world.records.push(record(seconds, note));
    }
    let notes = |records: Vec<RawRecord>| -> Vec<String> {
        records.into_iter().map(|r| r.note).collect()
    };
    assert_eq!(notes(world.records_between(at(10), at(50))), vec!["a", "b", "c", "d"]);
    assert_eq!(notes(world.records_between(at(0), at(100))), vec!["a", "b", "c", "d", "e", "f"]);
    assert_eq!(notes(world.records_between(at(11), at(41))), vec!["c", "d"]);
    assert_eq!(notes(world.records_between(at(30), at(30))), Vec::<String>::new());
    assert_eq!(notes(world.records_between(at(50), at(10))), Vec::<String>::new());
    assert_eq!(notes(world.records_between(at(60), at(61))), vec!["f"]);
    let copy = world.records_between(at(50), at(51));
    assert_eq!(copy[0].id, world.records[0].id);
    assert_eq!(copy[0].date, world.records[0].date);
}

#[test]
fn the_timeline_of_a_world() {
    let mut world = World::default();
    world.time = at(30);
    for seconds in [50, 10, 30, 10] {
        world.records.push(record(seconds, "x"));
    }
    assert_eq!(world.timeline(), vec![Entry::Record(1), Entry::Record(3), Entry::Now, Entry::Record(2), Entry::Record(0)]);
    world.canonical_time = Some(at(30));
    assert_eq!(world.timeline(), vec![Entry::Record(1), Entry::Record(3), Entry::Now, Entry::Record(2), Entry::Record(0)]);
    world.canonical_time = Some(at(10));
    assert_eq!(
        world.timeline(),
        vec![
            Entry::CanonicalTime,
            Entry::Record(1),
            Entry::Record(3),
            Entry::Now,
            Entry::Record(2),
            Entry::Record(0)
        ]
    );
    world.canonical_time = Some(at(70));
    assert_eq!(
        world.timeline(),
        vec![
            Entry::Record(1),
            Entry::Record(3),
            Entry::Now,
            Entry::Record(2),
            Entry::Record(0),
            Entry::CanonicalTime
        ]
    );
    world.records.clear();
    assert_eq!(world.timeline(), vec![Entry::Now, Entry::CanonicalTime]);
}

#[test]
fn stable_ordering() {
    assert_eq!(stable_order(&vec![3usize, 1, 2, 1, 3, 0]), vec![5, 1, 3, 2, 0, 4]);
    assert_eq!(stable_order(&Vec::<usize>::new()), Vec::<usize>::new());
    assert_eq!(stable_order(&vec![at(5), at(-5), at(5), at(86400), at(0)]), vec![1, 4, 0, 2, 3]);
    let odd = |year: i64, month: u32, day: u32, hour: u32, minute: u32, second: u32| RawDateTime {
        date: RawDate { year, month, day },
        time: RawTime { hour, minute, second },
    };
    let moments = vec![
        odd(1, 0, 0, 0, 0, 1),
        odd(1, 0, 0, 0, 1, 0),
        odd(1, 0, 0, 1, 0, 0),
        odd(1, 0, 1, 0, 0, 0),
        odd(1, 1, 0, 0, 0, 0),
        odd(0, u32::MAX, u32::MAX, u32::MAX, u32::MAX, u32::MAX),
        odd(i64::MIN, 0, 0, 0, 0, 0),
        odd(i64::MAX, 0, 0, 0, 0, 0),
    ];
    assert_eq!(stable_order(&moments), vec![6, 5, 0, 1, 2, 3, 4, 7]);
}

fn char_ref(start: usize, end: usize) -> CharacterReference {
    CharacterReference { id: CharacterId(1), string: String::new(), start, end }
}

fn loc_ref(start: usize, end: usize) -> LocationReference {
    LocationReference { id: LocationId(1), string: String::new(), start, end }
}

#[test]
fn records_are_colored() {
    let note = "@al met @bob at #inn";
    let colored = RawRecord::new(
        at(0),
        note.to_string(),
        vec![char_ref(9, 12), char_ref(1, 3)],
        vec![loc_ref(17, 20)],
    );
    assert!(colored.has_fitting_references());
    assert_eq!(
        String::from_utf8(colored.pretty()).unwrap(),
        "@\x1b[0;33mal\x1b[0m met @\x1b[0;33mbob\x1b[0m at #\x1b[0;31minn\x1b[0m"
    );
    let plain = RawRecord::new(at(0), note.to_string(), vec![], vec![]);
    assert!(plain.has_fitting_references());
    assert_eq!(String::from_utf8(plain.pretty()).unwrap(), note);
    let whole = RawRecord::new(at(0), "ab".to_string(), vec![], vec![loc_ref(0, 2)]);
    assert_eq!(String::from_utf8(whole.pretty()).unwrap(), "\x1b[0;31mab\x1b[0m");
    let touching =
        RawRecord::new(at(0), "abc".to_string(), vec![char_ref(1, 2)], vec![loc_ref(0, 1)]);
    assert_eq!(
        String::from_utf8(touching.pretty()).unwrap(),
        "\x1b[0;31ma\x1b[0m\x1b[0;33mb\x1b[0mc"
    );
    let empty = RawRecord::new(at(0), "abc".to_string(), vec![char_ref(1, 1)], vec![]);
    assert_eq!(String::from_utf8(empty.pretty()).unwrap(), "a\x1b[0;33m\x1b[0mbc");
}

#[test]
fn references_that_do_not_fit_are_found() {
    let with = |chars: Vec<CharacterReference>, locs: Vec<LocationReference>| {
        RawRecord::new(at(0), "0123456789".to_string(), chars, locs).has_fitting_references()
    };
    assert!(with(vec![char_ref(0, 10)], vec![]));
    assert!(!with(vec![char_ref(0, 11)], vec![]));
    assert!(!with(vec![char_ref(5, 4)], vec![]));
    assert!(!with(vec![char_ref(11, 11)], vec![]));
    assert!(with(vec![char_ref(5, 7)], vec![loc_ref(1, 5)]));
    assert!(!with(vec![char_ref(5, 7)], vec![loc_ref(1, 6)]));
    assert!(!with(vec![char_ref(2, 7), char_ref(2, 3)], vec![]));
    assert!(with(vec![char_ref(2, 2), char_ref(2, 3)], vec![]));
}

#[test]
fn records_in_a_calendar() {
    let cal = Calendar::default();
    let raw = RawRecord::new(at(90061), "note".to_string(), vec![char_ref(0, 1)], vec![]);
    let id = raw.id;
    let copy = raw.clone();
    assert_eq!((copy.id, copy.note.as_str(), copy.date, copy.chars.len()), (id, "note", at(90061), 1));
    let record = raw.into_record(&cal);
    assert_eq!(record.id, id);
    assert_eq!(record.note, "note");
    assert_eq!(record.date.to_seconds(), Some(90061));
    let back = record.to_raw();
    assert_eq!((back.id, back.note.as_str(), back.date), (id, "note", at(90061)));
    assert!(back.chars.is_empty() && back.locs.is_empty());
    let fresh = Record::new(DateTime::from_seconds(5, &cal), "new".to_string());
    assert_eq!(fresh.note, "new");
    assert_eq!(fresh.date.to_seconds(), Some(5));
    assert_ne!(fresh.id, Record::new(DateTime::from_seconds(5, &cal), "new".to_string()).id);
}

#[test]
fn phases_need_light() {
    let world = World::default();
    let earth = world.bodies[0].orbit.unwrap();
    let moon = world.bodies[1].orbit.unwrap();
    // The moon goes round the earth, which goes round the luminous sun.
    assert_eq!(phase_parent(&world, &moon), Some(earth));
    // The sun has no orbit, so nothing lights what goes round it.
    assert_eq!(phase_parent(&world, &earth), None);
    let mut dark = World::default();
    dark.bodies[2].temperature = 3500;
    assert_eq!(phase_parent(&dark, &moon), None);
    let mut bright = World::default();
    bright.bodies[1].temperature = 3501;
    assert_eq!(phase_parent(&bright, &moon), None);
    let lost = Orbit { parent: PlanetId(1), body: moon.body, shift: 0, period: 1 };
    assert_eq!(phase_parent(&world, &lost), None);
    let nobody = Orbit { parent: moon.parent, body: PlanetId(1), shift: 0, period: 1 };
    assert_eq!(phase_parent(&world, &nobody), None);
}

#[test]
fn records_of_given_mentions() {
    let mention = |name: &str, start: usize, end: usize| holding::outside::Mention {
        name: name.to_string(),
        start,
        end,
    };
    let mut world = World::default();
    world.characters.push(Character::new("bob".to_string(), None, None, None));
    world.characters.push(Character::new("al".to_string(), None, None, None));
    let bob = world.characters[0].id;
    let al = world.characters[1].id;
    let added = world
        .add_record_mentioning(
            "al met bob at the inn".to_string(),
            vec![mention("al", 0, 2), mention("bob", 7, 10)],
            vec![mention("inn", 18, 21), mention("gate", 0, 0), mention("inn", 18, 21)],
        )
        .unwrap();
    assert_eq!(added.note, "al met bob at the inn");
    assert_eq!(added.date, at(0));
    let chars: Vec<(CharacterId, &str, usize, usize)> =
        added.chars.iter().map(|r| (r.id, r.string.as_str(), r.start, r.end)).collect();
    assert_eq!(chars, vec![(al, "al", 0, 2), (bob, "bob", 7, 10)]);
    let locs: Vec<(LocationId, String, usize, usize)> =
        added.locs.iter().map(|r| (r.id, r.string.clone(), r.start, r.end)).collect();
    assert_eq!(world.locations.len(), 2);
    assert_eq!(world.locations[0].identifier, "inn");
    assert_eq!(world.locations[1].identifier, "gate");
    assert_eq!(
        locs,
        vec![
            (world.locations[0].id, "inn".to_string(), 18, 21),
            (world.locations[1].id, "gate".to_string(), 0, 0),
            (world.locations[0].id, "inn".to_string(), 18, 21),
        ]
    );
    assert_eq!(world.time, at(1));
    assert_eq!(world.records.len(), 1);

    // An unknown character refuses the record, and no location is made.
    let refused = world.add_record_mentioning(
        "eve at the mill".to_string(),
        vec![mention("bob", 0, 0), mention("eve", 0, 3)],
        vec![mention("mill", 11, 15)],
    );
    assert_eq!(refused.err(), Some(WorldError::UnknownCharacter));
    assert_eq!(world.time, at(1));
    assert_eq!(world.records.len(), 1);
    assert_eq!(world.locations.len(), 2);

    // A note that mentions nothing is a record all the same.
    let plain = world.add_record_mentioning("rain".to_string(), vec![], vec![]).unwrap();
    assert!(plain.chars.is_empty() && plain.locs.is_empty());
    assert_eq!(plain.date, at(1));
    assert_eq!(world.time, at(2));
    assert_eq!(world.records.len(), 2);
}

#[test]
fn references_span_the_bytes_of_their_words() {
    let mut world = World::default();
    world.characters.push(Character::new("zoë".to_string(), None, None, None));
    let note = "früh: @zoë aß im #café, dann #café→#öl";
    let added = world.add_record(note.to_string()).unwrap();
    let chars: Vec<(&str, usize, usize)> =
        added.chars.iter().map(|r| (r.string.as_str(), r.start, r.end)).collect();
    assert_eq!(chars, vec![("zoë", 8, 12)]);
    let locs: Vec<(&str, usize, usize)> =
        added.locs.iter().map(|r| (r.string.as_str(), r.start, r.end)).collect();
    assert_eq!(locs, vec![("café", 21, 26), ("café", 34, 39), ("öl", 43, 46)]);
    for reference in added.chars.iter() {
        assert!(reference.start <= reference.end && reference.end <= note.len());
        assert_eq!(&note[reference.start..reference.end], reference.string);
    }
    for reference in added.locs.iter() {
        assert!(reference.start <= reference.end && reference.end <= note.len());
        assert_eq!(&note[reference.start..reference.end], reference.string);
    }
    assert!(added.has_fitting_references());
}
