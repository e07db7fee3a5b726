use roguelike_core::color::Rgb;
use roguelike_core::entity::Entity;
use roguelike_core::equipment::{Equipment, Slot};
use roguelike_core::event::{EventBus, EventData, EventType};
use roguelike_core::fighter::{DeathCallback, Fighter};
use roguelike_core::item::Item;
use roguelike_core::messages::Messages;

fn plain_fighter(hp: i32, base_defense: i32, base_power: i32, xp: i32) -> Fighter {
    Fighter {
        base_max_hp: hp,
        hp,
        base_defense,
        base_power,
        xp,
        on_death: DeathCallback::Monster,
    }
}

fn gray() -> Rgb {
    Rgb { r: 128, g: 128, b: 128 }
}

#[test]
fn derived_stats_sum_equipped_bonuses() {
    let mut hero = Entity::new(0, 0, '@', gray(), "hero", true);
    hero.fighter = Some(plain_fighter(30, 2, 3, 0));

    let mut sword = Entity::new(0, 0, '/', gray(), "sword", false);
    sword.item = Some(Item::Sword);
    sword.equipment = Some(Equipment {
        slot: Slot::RightHand,
        equipped: true,
        max_hp_bonus: 1,
        power_bonus: 3,
        defense_bonus: 0,
    });
    let mut shield = Entity::new(0, 0, '[', gray(), "shield", false);
    shield.item = Some(Item::Shield);
    shield.equipment = Some(Equipment {
        slot: Slot::LeftHand,
        equipped: false,
        max_hp_bonus: 10,
        power_bonus: 10,
        defense_bonus: 10,
    });
    hero.inventory.push(sword);
    hero.inventory.push(shield);

    // only the equipped sword counts
    assert_eq!(hero.power(), 3 + 3);
    assert_eq!(hero.defense(), 2);
    assert_eq!(hero.max_hp(), 30 + 1);
    assert_eq!(hero.get_all_equipped().len(), 1);
}

#[test]
fn stats_without_fighter_are_bonus_only() {
    let e = Entity::new(0, 0, 'x', gray(), "crate", false);
    assert_eq!(e.power(), 0);
    assert_eq!(e.defense(), 0);
    assert_eq!(e.max_hp(), 0);
}

#[test]
fn equip_twice_is_a_no_op() {
    let mut messages = Messages::new();
    let mut sword = Entity::new(0, 0, '/', gray(), "sword", false);
    sword.item = Some(Item::Sword);
    sword.equipment = Some(Equipment {
        slot: Slot::RightHand,
        equipped: false,
        max_hp_bonus: 0,
        power_bonus: 3,
        defense_bonus: 0,
    });
    sword.equip(&mut messages);
    assert!(sword.equipment.as_ref().unwrap().equipped);
    let msgs_after_first = messages.len();
    sword.equip(&mut messages);
    assert!(sword.equipment.as_ref().unwrap().equipped);
    assert_eq!(messages.len(), msgs_after_first);
}

#[test]
fn unequip_twice_is_a_no_op() {
    let mut messages = Messages::new();
    let mut sword = Entity::new(0, 0, '/', gray(), "sword", false);
    sword.item = Some(Item::Sword);
    sword.equipment = Some(Equipment {
        slot: Slot::RightHand,
        equipped: true,
        max_hp_bonus: 0,
        power_bonus: 3,
        defense_bonus: 0,
    });
    sword.unequip(&mut messages);
    assert!(!sword.equipment.as_ref().unwrap().equipped);
    let msgs_after_first = messages.len();
    sword.unequip(&mut messages);
    assert!(!sword.equipment.as_ref().unwrap().equipped);
    assert_eq!(messages.len(), msgs_after_first);
}

#[test]
fn equip_without_item_component_only_logs() {
    let mut messages = Messages::new();
    let mut pseudo = Entity::new(0, 0, '?', gray(), "ghost gauntlet", false);
    pseudo.equipment = Some(Equipment {
        slot: Slot::Head,
        equipped: false,
        max_hp_bonus: 0,
        power_bonus: 0,
        defense_bonus: 0,
    });
    pseudo.equip(&mut messages);
    assert!(!pseudo.equipment.as_ref().unwrap().equipped);
    assert_eq!(messages.len(), 1);
    assert_eq!(
        messages.get(0).0,
        "Cannot equip ghost gauntlet because it's not an Item."
    );
}

#[test]
fn attack_with_no_effect_changes_nothing() {
    // power <= defense deals no damage and runs no death callback
    let mut bus = EventBus::new(32);
    let mut a = Entity::new(0, 0, 'a', gray(), "attacker", true);
    a.fighter = Some(plain_fighter(10, 0, 2, 0));
    let mut d = Entity::new(1, 0, 'd', gray(), "defender", true);
    d.alive = true;
    d.fighter = Some(plain_fighter(10, 5, 0, 7));

    a.attack(&mut d, &mut bus);

    assert_eq!(d.fighter.as_ref().unwrap().hp, 10);
    assert!(d.alive);
    assert_eq!(d.name, "defender");
    // exactly one EntityAttacked event, with damage -3 and killed false
    assert_eq!(bus.bus.len(), 1);
    assert_eq!(bus.bus[0].event_type, EventType::EntityAttacked);
    assert_eq!(
        bus.bus[0].get_data("damage"),
        Some(&EventData::I32(-3))
    );
    assert_eq!(
        bus.bus[0].get_data("killed"),
        Some(&EventData::Boolean(false))
    );
}

#[test]
fn attack_scenario_survivor() {
    // power 5 against defense 2 and hp 10 leaves hp 7, no death
    let mut bus = EventBus::new(32);
    let mut a = Entity::new(0, 0, 'a', gray(), "bruiser", true);
    a.fighter = Some(plain_fighter(30, 0, 5, 0));
    let mut d = Entity::new(1, 0, 'd', gray(), "target", true);
    d.alive = true;
    d.fighter = Some(plain_fighter(10, 2, 0, 7));

    a.attack(&mut d, &mut bus);

    assert_eq!(d.fighter.as_ref().unwrap().hp, 7);
    assert!(d.alive);
    assert_eq!(bus.bus.len(), 1);
    assert_eq!(bus.bus[0].event_type, EventType::EntityAttacked);
    assert_eq!(bus.bus[0].get_data("damage"), Some(&EventData::I32(3)));
    assert_eq!(
        bus.bus[0].get_data("killed"),
        Some(&EventData::Boolean(false))
    );
}

#[test]
fn attack_scenario_kill() {
    // the same attack against hp 3 kills: corpse is inert remains, a
    // MonsterDie event precedes the EntityAttacked event, xp is credited
    let mut bus = EventBus::new(32);
    let mut a = Entity::new(0, 0, 'a', gray(), "bruiser", true);
    a.fighter = Some(plain_fighter(30, 0, 5, 100));
    let mut d = Entity::new(1, 0, 'd', gray(), "target", true);
    d.alive = true;
    d.fighter = Some(Fighter {
        base_max_hp: 10,
        hp: 3,
        base_defense: 2,
        base_power: 0,
        xp: 7,
        on_death: DeathCallback::Monster,
    });

    a.attack(&mut d, &mut bus);

    assert!(!d.alive);
    assert!(d.fighter.is_none());
    assert!(d.ai.is_none());
    assert!(!d.blocks);
    assert_eq!(d.name, "remains of target");
    assert_eq!(d.glyph, '%');
    assert_eq!(a.fighter.as_ref().unwrap().xp, 107);
    assert_eq!(bus.bus.len(), 2);
    assert_eq!(bus.bus[0].event_type, EventType::MonsterDie);
    assert_eq!(bus.bus[1].event_type, EventType::EntityAttacked);
    assert_eq!(bus.bus[1].get_data("damage"), Some(&EventData::I32(3)));
    assert_eq!(
        bus.bus[1].get_data("killed"),
        Some(&EventData::Boolean(true))
    );
    // the event carries the post-death name
    match bus.bus[1].get_data("target_name") {
        Some(EventData::String(s)) => assert_eq!(s, "remains of target"),
        other => panic!("unexpected payload: {:?}", other),
    }
}

#[test]
fn take_damage_exact_reduction_and_single_death() {
    // damage > 0 reduces hp by exactly that amount; the death callback
    // runs once, and the cleared fighter makes later hits no-ops
    let mut bus = EventBus::new(32);
    let mut m = Entity::new(4, 5, 'm', gray(), "orc", true);
    m.alive = true;
    m.fighter = Some(plain_fighter(10, 0, 3, 35));

    assert_eq!(m.take_damage(4, &mut bus), None);
    assert_eq!(m.fighter.as_ref().unwrap().hp, 6);
    assert_eq!(bus.bus.len(), 0);

    // non-positive damage leaves hp alone
    assert_eq!(m.take_damage(-5, &mut bus), None);
    assert_eq!(m.fighter.as_ref().unwrap().hp, 6);

    assert_eq!(m.take_damage(6, &mut bus), Some(35));
    assert!(!m.alive);
    assert!(m.fighter.is_none());
    assert_eq!(m.name, "remains of orc");
    assert_eq!(bus.bus.len(), 1);
    assert_eq!(bus.bus[0].event_type, EventType::MonsterDie);

    // the corpse can no longer be damaged or die again
    assert_eq!(m.take_damage(100, &mut bus), None);
    assert_eq!(bus.bus.len(), 1);
}

#[test]
fn boss_death_broadcasts_position() {
    let mut bus = EventBus::new(32);
    let mut b = Entity::new(12, 34, 'B', gray(), "Boss", true);
    b.alive = true;
    b.fighter = Some(Fighter {
        base_max_hp: 1,
        hp: 1,
        base_defense: 0,
        base_power: 1,
        xp: 1000,
        on_death: DeathCallback::Boss,
    });
    assert_eq!(b.take_damage(5, &mut bus), Some(1000));
    assert_eq!(b.name, "remains of Boss");
    assert_eq!(bus.bus.len(), 1);
    assert_eq!(bus.bus[0].event_type, EventType::BossDie);
    assert_eq!(
        bus.bus[0].get_data("position"),
        Some(&EventData::TupleI32I32(12, 34))
    );
}

#[test]
fn player_death_is_cosmetic() {
    let mut bus = EventBus::new(32);
    let mut p = Entity::new(2, 2, '@', gray(), "player", true);
    p.alive = true;
    p.fighter = Some(Fighter {
        base_max_hp: 30,
        hp: 1,
        base_defense: 0,
        base_power: 3,
        xp: 0,
        on_death: DeathCallback::Player,
    });
    assert_eq!(p.take_damage(2, &mut bus), Some(0));
    assert!(!p.alive);
    assert_eq!(p.glyph, '%');
    // the player keeps their fighter and name
    assert!(p.fighter.is_some());
    assert_eq!(p.name, "player");
    assert_eq!(bus.bus.len(), 1);
    assert_eq!(bus.bus[0].event_type, EventType::PlayerDie);
}

#[test]
fn heal_is_clamped_to_ceiling() {
    let mut e = Entity::new(0, 0, 'e', gray(), "patient", true);
    e.fighter = Some(plain_fighter(20, 0, 0, 0));
    e.fighter.as_mut().unwrap().hp = 15;
    e.heal(3);
    assert_eq!(e.fighter.as_ref().unwrap().hp, 18);
    e.heal(100);
    assert_eq!(e.fighter.as_ref().unwrap().hp, 20);
}

#[test]
fn distance_squared_is_exact() {
    let a = Entity::new(0, 0, 'a', gray(), "a", false);
    let b = Entity::new(3, 4, 'b', gray(), "b", false);
    assert_eq!(a.distance_to_squared(&b), 25);
    assert_eq!(a.distance_squared(-3, -4), 25);
    assert_eq!(a.distance_squared(0, 0), 0);
}
