use holding::character::{
    Character, CharacterId, Class, DeathSaves, Description, Fighter, Health, HealthStatus,
    Hitpoints, LocationId, Race, Warlock,
};

fn check_damage(current: u32, bonus: u32, damage: u32, exp_current: u32, exp_bonus: u32) {
    let hp = Hitpoints { current, bonus };
    let next = hp.damage(damage);
    assert_eq!(next, HealthStatus::Alive(Hitpoints { current: exp_current, bonus: exp_bonus }));
}

#[test]
fn do_damage() {
    check_damage(3, 5, 5, 3, 0);
    check_damage(10, 2, 5, 7, 0);
    check_damage(1, 10, 5, 1, 5);
    check_damage(10, 0, 0, 10, 0);
    check_damage(u32::MAX, u32::MAX, u32::MAX, u32::MAX, 0);
}

#[test]
fn damage_that_takes_every_hit_point_knocks_out() {
    let out = HealthStatus::Unconscious(DeathSaves { successes: 0, failures: 0 });
    assert_eq!(Hitpoints { current: 3, bonus: 5 }.damage(8), out);
    assert_eq!(Hitpoints { current: 3, bonus: 5 }.damage(9), out);
    assert_eq!(Hitpoints { current: 3, bonus: 0 }.damage(u32::MAX), out);
    assert_eq!(Hitpoints { current: 0, bonus: 0 }.damage(0), out);
    assert_eq!(
        Hitpoints { current: 3, bonus: 5 }.damage(7),
        HealthStatus::Alive(Hitpoints { current: 1, bonus: 0 })
    );
}

#[test]
fn hit_points_and_healing() {
    assert_eq!(Hitpoints { current: 3, bonus: 5 }.hp(), 8);
    assert_eq!(Hitpoints::default(), Hitpoints { current: 1, bonus: 0 });
    assert_eq!(
        Hitpoints { current: 3, bonus: 5 }.heal(4),
        HealthStatus::Alive(Hitpoints { current: 7, bonus: 5 })
    );
    assert_eq!(
        DeathSaves { successes: 1, failures: 2 }.heal(4),
        HealthStatus::Alive(Hitpoints { current: 4, bonus: 0 })
    );
    assert_eq!(HealthStatus::default(), HealthStatus::Alive(Hitpoints { current: 1, bonus: 0 }));
}

#[test]
fn death_saves() {
    let fresh = DeathSaves::default();
    assert_eq!(fresh, DeathSaves { successes: 0, failures: 0 });
    assert_eq!(
        fresh.damage(true),
        HealthStatus::Unconscious(DeathSaves { successes: 0, failures: 1 })
    );
    assert_eq!(
        fresh.damage(false),
        HealthStatus::Unconscious(DeathSaves { successes: 0, failures: 2 })
    );
    assert_eq!(DeathSaves { successes: 2, failures: 1 }.damage(false), HealthStatus::Dead);
    assert_eq!(
        DeathSaves { successes: 2, failures: 1 }.damage(true),
        HealthStatus::Unconscious(DeathSaves { successes: 2, failures: 2 })
    );
    assert_eq!(DeathSaves { successes: 0, failures: 2 }.damage(true), HealthStatus::Dead);
    assert_eq!(DeathSaves { successes: 0, failures: 255 }.damage(false), HealthStatus::Dead);
}

#[test]
fn health_of_a_character() {
    let mut health = Health::new(10);
    assert_eq!(health.status(), HealthStatus::Alive(Hitpoints { current: 1, bonus: 0 }));
    assert!(!health.full());
    assert!(!health.dead());
    assert_eq!(health.heal(9), HealthStatus::Alive(Hitpoints { current: 10, bonus: 0 }));
    assert!(health.full());
    assert_eq!(health.damage(4, false), HealthStatus::Alive(Hitpoints { current: 6, bonus: 0 }));
    assert!(!health.full());
    assert_eq!(
        health.damage(6, true),
        HealthStatus::Unconscious(DeathSaves { successes: 0, failures: 0 })
    );
    assert!(!health.dead());
    assert_eq!(
        health.damage(100, true),
        HealthStatus::Unconscious(DeathSaves { successes: 0, failures: 1 })
    );
    assert_eq!(health.damage(1, false), HealthStatus::Dead);
    assert!(health.dead());
    assert!(!health.full());
    assert_eq!(health.damage(1, false), HealthStatus::Dead);
    assert_eq!(health.heal(50), HealthStatus::Dead);
    assert_eq!(health.status(), HealthStatus::Dead);
    let mut other = Health::default();
    assert!(other.full());
    other.damage(1, false);
    assert_eq!(other.heal(7), HealthStatus::Alive(Hitpoints { current: 7, bonus: 0 }));
}

#[test]
fn new_characters() {
    let plain = Character::new("bob".to_string(), None, None, None);
    assert_eq!(plain.identifier, "bob");
    assert_eq!(plain.name, "bob");
    assert_eq!(plain.race, Race::Unknown);
    assert!(plain.health.full());
    assert_eq!(plain.health.status(), HealthStatus::Alive(Hitpoints { current: 1, bonus: 0 }));
    assert!(plain.location.is_none());
    assert!(plain.experience.is_none());
    assert!(!plain.inspiration);
    assert_eq!(plain.classes, [(None, 0); 4]);
    assert_eq!(plain.level(), 0);
    let full = Character::new(
        "gim".to_string(),
        Some("Gimli".to_string()),
        Some(40),
        Some(Race::Dwarf),
    );
    assert_eq!(full.identifier, "gim");
    assert_eq!(full.name, "Gimli");
    assert_eq!(full.race, Race::Dwarf);
    assert!(!full.health.full());
    assert_ne!(full.id, plain.id);
    assert_ne!(CharacterId::fresh(), CharacterId::fresh());
    assert_ne!(LocationId::fresh(), LocationId::fresh());
    assert_eq!(Race::default(), Race::Unknown);
    let unknown = Description::default();
    assert!(unknown.age.is_none() && unknown.height.is_none());
    assert!(unknown.weight.is_none() && unknown.backstory.is_none());
    let copy = full.clone();
    assert_eq!(copy.id, full.id);
    assert_eq!(copy.name, full.name);
}

#[test]
fn levels() {
    let fighter = Class::Fighter(Fighter::Champion);
    let warlock = Class::Warlock(Warlock::Fiend);
    let mut hero = Character::new("hero".to_string(), None, None, None);
    assert_eq!(hero.level_up(fighter), Err(()));
    hero.classes = [(Some(fighter), 3), (None, 9), (Some(warlock), 2), (Some(fighter), 1)];
    hero.experience = Some(700);
    assert_eq!(hero.level(), 6);
    assert_eq!(hero.level_up(warlock), Ok(()));
    assert_eq!(hero.classes, [(Some(fighter), 3), (None, 9), (Some(warlock), 3), (Some(fighter), 1)]);
    assert_eq!(hero.experience, Some(0));
    assert_eq!(hero.level_up(fighter), Ok(()));
    assert_eq!(hero.classes, [(Some(fighter), 4), (None, 9), (Some(warlock), 3), (Some(fighter), 1)]);
    assert_eq!(hero.level(), 8);
    assert_eq!(hero.level_up(Class::Fighter(Fighter::BattleMaster)), Err(()));
    assert_eq!(hero.level(), 8);
    hero.experience = None;
    assert_eq!(hero.level_up(warlock), Ok(()));
    assert_eq!(hero.experience, None);
    assert_eq!(hero.identifier, "hero");
}

#[test]
fn fresh_identifiers_are_marked_as_random() {
    for _ in 0..64 {
        let character: u128 = CharacterId::fresh().0;
        assert_eq!((character >> 76) & 0xf, 4);
        assert_eq!((character >> 62) & 0x3, 2);
        assert_eq!(uuid::Uuid::from_u128(character).get_version_num(), 4);
        assert_eq!(
            uuid::Uuid::from_u128(character).get_variant(),
            Some(uuid::Variant::RFC4122)
        );
        let location: u128 = LocationId::fresh().0;
        assert_eq!((location >> 76) & 0xf, 4);
        assert_eq!((location >> 62) & 0x3, 2);
        assert_eq!(uuid::Uuid::from_u128(location).get_version_num(), 4);
        assert_eq!(
            uuid::Uuid::from_u128(location).get_variant(),
            Some(uuid::Variant::RFC4122)
        );
    }
}
