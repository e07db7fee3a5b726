use roguelike_core::actions;
use roguelike_core::engine::PLAYER;
use roguelike_core::entity::Entity;
use roguelike_core::color::Rgb;
use roguelike_core::equipment::{Equipment, Slot};
use roguelike_core::item::{Item, UseResult};
use roguelike_core::setup::new_game;
use roguelike_core::visibility::Visibility;

fn gray() -> Rgb {
    Rgb { r: 90, g: 90, b: 90 }
}

fn hand_item(name: &str, slot: Slot, equipped: bool) -> Entity {
    let mut e = Entity::new(0, 0, '/', gray(), name, false);
    e.item = Some(Item::Sword);
    e.equipment = Some(Equipment {
        slot,
        equipped,
        max_hp_bonus: 0,
        power_bonus: 1,
        defense_bonus: 0,
    });
    e
}

fn equipped_in(inv: &[Entity], slot: Slot) -> usize {
    inv.iter()
        .filter(|e| {
            e.equipment
                .as_ref()
                .map(|q| q.equipped && q.slot == slot)
                .unwrap_or(false)
        })
        .count()
}

#[test]
fn toggle_keeps_one_item_per_slot() {
    // any sequence of toggles leaves at most one equipped item per slot
    let mut game = new_game();
    {
        let player = &mut game.entities[PLAYER];
        player.inventory.clear();
        player.inventory.push(hand_item("first sword", Slot::RightHand, false));
        player.inventory.push(hand_item("second sword", Slot::RightHand, false));
        player.inventory.push(hand_item("buckler", Slot::LeftHand, false));
    }
    let seq: Vec<usize> = vec![0, 1, 1, 0, 2, 1, 0, 0, 2, 1];
    for id in seq {
        let r = actions::toggle_equipment(id, &mut game);
        assert_eq!(r, UseResult::UsedAndKept);
        let inv = &game.entities[PLAYER].inventory;
        assert!(equipped_in(inv, Slot::RightHand) <= 1);
        assert!(equipped_in(inv, Slot::LeftHand) <= 1);
        assert!(equipped_in(inv, Slot::Head) <= 1);
    }
}

#[test]
fn toggle_swaps_the_slot_holder() {
    let mut game = new_game();
    {
        let player = &mut game.entities[PLAYER];
        player.inventory.clear();
        player.inventory.push(hand_item("first sword", Slot::RightHand, true));
        player.inventory.push(hand_item("second sword", Slot::RightHand, false));
    }
    actions::toggle_equipment(1, &mut game);
    let inv = &game.entities[PLAYER].inventory;
    assert!(!inv[0].equipment.as_ref().unwrap().equipped);
    assert!(inv[1].equipment.as_ref().unwrap().equipped);
}

#[test]
fn toggle_off_an_equipped_item() {
    let mut game = new_game();
    {
        let player = &mut game.entities[PLAYER];
        player.inventory.clear();
        player.inventory.push(hand_item("sword", Slot::RightHand, true));
    }
    actions::toggle_equipment(0, &mut game);
    assert!(!game.entities[PLAYER].inventory[0].equipment.as_ref().unwrap().equipped);
}

#[test]
fn toggle_without_equipment_cancels() {
    let mut game = new_game();
    {
        let player = &mut game.entities[PLAYER];
        player.inventory.clear();
        let mut potion = Entity::new(0, 0, '!', gray(), "health potion", false);
        potion.item = Some(Item::Heal);
        player.inventory.push(potion);
    }
    let r = actions::toggle_equipment(0, &mut game);
    assert_eq!(r, UseResult::Cancelled);
}

#[test]
fn pickup_moves_item_into_inventory() {
    let mut game = new_game();
    game.entities.truncate(1);
    let px = game.entities[PLAYER].x;
    let py = game.entities[PLAYER].y;
    let mut potion = Entity::new(px, py, '!', gray(), "health potion", false);
    potion.item = Some(Item::Heal);
    game.entities.push(potion);

    actions::pick_item_up(1, &mut game);
    assert_eq!(game.entities.len(), 1);
    let inv = &game.entities[PLAYER].inventory;
    assert_eq!(inv.len(), 2);
    assert_eq!(inv[1].name, "health potion");
    // the pickup was announced on the bus
    let n = game.event_bus.bus.len();
    assert!(n >= 1);
    assert_eq!(
        game.event_bus.bus[n - 1].event_type,
        roguelike_core::event::EventType::PlayerPickupItem
    );
}

#[test]
fn pickup_auto_equips_into_a_free_slot() {
    let mut game = new_game();
    game.entities.truncate(1);
    // the dagger occupies the left hand; a fresh sword goes to the right
    let sword = hand_item("long sword", Slot::RightHand, false);
    game.entities.push(sword);
    actions::pick_item_up(1, &mut game);
    let inv = &game.entities[PLAYER].inventory;
    assert!(inv[1].equipment.as_ref().unwrap().equipped);

    // a second right-hand sword stays unequipped: the slot is taken
    let other = hand_item("spare sword", Slot::RightHand, false);
    game.entities.push(other);
    actions::pick_item_up(1, &mut game);
    let inv = &game.entities[PLAYER].inventory;
    assert!(!inv[2].equipment.as_ref().unwrap().equipped);
}

#[test]
fn pickup_refuses_when_pockets_are_full() {
    let mut game = new_game();
    game.entities.truncate(1);
    {
        let player = &mut game.entities[PLAYER];
        while player.inventory.len() < 26 {
            let mut filler = Entity::new(0, 0, '!', gray(), "pebble", false);
            filler.item = Some(Item::Heal);
            player.inventory.push(filler);
        }
    }
    let mut potion = Entity::new(0, 0, '!', gray(), "health potion", false);
    potion.item = Some(Item::Heal);
    game.entities.push(potion);

    actions::pick_item_up(1, &mut game);
    // the world entity stays and the log explains why
    assert_eq!(game.entities.len(), 2);
    assert_eq!(game.entities[PLAYER].inventory.len(), 26);
    let n = game.messages.len();
    assert_eq!(
        game.messages.get(n - 1).0,
        "Your pickets are full - you can't pickup the health potion"
    );
}

#[test]
fn drop_returns_item_to_the_world_unequipped() {
    let mut game = new_game();
    game.entities.truncate(1);
    let world_len = game.entities.len();
    let px = game.entities[PLAYER].x;
    let py = game.entities[PLAYER].y;

    actions::drop_item(0, &mut game);
    assert_eq!(game.entities[PLAYER].inventory.len(), 0);
    assert_eq!(game.entities.len(), world_len + 1);
    let dropped = game.entities.last().unwrap();
    assert_eq!(dropped.name, "dagger");
    assert_eq!((dropped.x, dropped.y), (px, py));
    assert!(!dropped.equipment.as_ref().unwrap().equipped);
}

#[test]
fn heal_potion_cancels_at_full_health() {
    let mut game = new_game();
    assert_eq!(actions::cast_heal(&mut game), UseResult::Cancelled);
}

#[test]
fn heal_potion_restores_hp() {
    let mut game = new_game();
    game.entities[PLAYER].fighter.as_mut().unwrap().hp = 20;
    assert_eq!(actions::cast_heal(&mut game), UseResult::UsedUp);
    assert_eq!(game.entities[PLAYER].fighter.as_ref().unwrap().hp, 24);
}

#[test]
fn use_item_consumes_a_used_up_potion() {
    let mut game = new_game();
    game.entities.truncate(1);
    {
        let player = &mut game.entities[PLAYER];
        player.fighter.as_mut().unwrap().hp = 10;
        let mut potion = Entity::new(0, 0, '!', gray(), "health potion", false);
        potion.item = Some(Item::Heal);
        player.inventory.push(potion);
    }
    let visibility = Visibility::new_dark();
    actions::use_item(1, &mut game, &visibility, None, None);
    assert_eq!(game.entities[PLAYER].inventory.len(), 1);
    assert_eq!(game.entities[PLAYER].fighter.as_ref().unwrap().hp, 14);
}

#[test]
fn use_item_without_item_component_reports() {
    let mut game = new_game();
    game.entities.truncate(1);
    {
        let player = &mut game.entities[PLAYER];
        let rock = Entity::new(0, 0, '*', gray(), "strange rock", false);
        player.inventory.push(rock);
    }
    let visibility = Visibility::new_dark();
    actions::use_item(1, &mut game, &visibility, None, None);
    assert_eq!(game.entities[PLAYER].inventory.len(), 2);
    let n = game.messages.len();
    assert_eq!(game.messages.get(n - 1).0, "The strange rock cannot be used.");
}

#[test]
fn confuse_scroll_wraps_the_target() {
    let mut game = new_game();
    game.entities.truncate(1);
    let mut monster = Entity::new(10, 10, 'o', gray(), "orc", true);
    monster.alive = true;
    monster.ai = Some(roguelike_core::ai::Ai::Basic);
    game.entities.push(monster);

    let r = actions::cast_confuse(Some(1), &mut game);
    assert_eq!(r, UseResult::UsedUp);
    match &game.entities[1].ai {
        Some(roguelike_core::ai::Ai::Confused { previous_ai, num_turns }) => {
            assert!(matches!(**previous_ai, roguelike_core::ai::Ai::Basic));
            assert_eq!(*num_turns, 10);
        },
        other => panic!("unexpected state: {:?}", other),
    }
}

#[test]
fn confuse_without_target_cancels() {
    let mut game = new_game();
    assert_eq!(actions::cast_confuse(None, &mut game), UseResult::Cancelled);
}

#[test]
fn lightning_strikes_the_closest_visible_monster() {
    let mut game = new_game();
    game.entities.truncate(1);
    {
        let player = &mut game.entities[PLAYER];
        player.x = 10;
        player.y = 10;
    }
    let mut near = Entity::new(12, 10, 'o', gray(), "near orc", true);
    near.alive = true;
    near.fighter = Some(roguelike_core::fighter::Fighter {
        base_max_hp: 50,
        hp: 50,
        base_defense: 0,
        base_power: 1,
        xp: 35,
        on_death: roguelike_core::fighter::DeathCallback::Monster,
    });
    near.ai = Some(roguelike_core::ai::Ai::Basic);
    let mut far = Entity::new(14, 10, 'o', gray(), "far orc", true);
    far.alive = true;
    far.fighter = Some(roguelike_core::fighter::Fighter {
        base_max_hp: 50,
        hp: 50,
        base_defense: 0,
        base_power: 1,
        xp: 35,
        on_death: roguelike_core::fighter::DeathCallback::Monster,
    });
    far.ai = Some(roguelike_core::ai::Ai::Basic);
    game.entities.push(near);
    game.entities.push(far);

    let mut visibility = Visibility::new_dark();
    visibility.set_visible(12, 10, true);
    visibility.set_visible(14, 10, true);

    let r = actions::cast_lightning(&visibility, &mut game);
    assert_eq!(r, UseResult::UsedUp);
    assert_eq!(game.entities[1].fighter.as_ref().unwrap().hp, 10);
    assert_eq!(game.entities[2].fighter.as_ref().unwrap().hp, 50);
}

#[test]
fn lightning_fizzles_with_nothing_in_range() {
    let mut game = new_game();
    game.entities.truncate(1);
    let visibility = Visibility::new_dark();
    let r = actions::cast_lightning(&visibility, &mut game);
    assert_eq!(r, UseResult::Cancelled);
    let n = game.messages.len();
    assert_eq!(game.messages.get(n - 1).0, "No enemies are within range.");
}

#[test]
fn fireball_burns_everything_in_the_blast() {
    let mut game = new_game();
    game.entities.truncate(1);
    {
        let player = &mut game.entities[PLAYER];
        player.x = 1;
        player.y = 1;
    }
    let mut victim = Entity::new(40, 40, 'o', gray(), "orc", true);
    victim.alive = true;
    victim.fighter = Some(roguelike_core::fighter::Fighter {
        base_max_hp: 50,
        hp: 50,
        base_defense: 0,
        base_power: 1,
        xp: 35,
        on_death: roguelike_core::fighter::DeathCallback::Monster,
    });
    let mut doomed = Entity::new(41, 40, 's', gray(), "skeleton", true);
    doomed.alive = true;
    doomed.fighter = Some(roguelike_core::fighter::Fighter {
        base_max_hp: 5,
        hp: 5,
        base_defense: 0,
        base_power: 1,
        xp: 200,
        on_death: roguelike_core::fighter::DeathCallback::Monster,
    });
    let mut bystander = Entity::new(60, 60, 'o', gray(), "lucky orc", true);
    bystander.alive = true;
    bystander.fighter = Some(roguelike_core::fighter::Fighter {
        base_max_hp: 50,
        hp: 50,
        base_defense: 0,
        base_power: 1,
        xp: 35,
        on_death: roguelike_core::fighter::DeathCallback::Monster,
    });
    game.entities.push(victim);
    game.entities.push(doomed);
    game.entities.push(bystander);

    let player_xp = game.entities[PLAYER].fighter.as_ref().unwrap().xp;
    let r = actions::cast_fireball(Some((40, 40)), &mut game);
    assert_eq!(r, UseResult::UsedUp);
    assert_eq!(game.entities[1].fighter.as_ref().unwrap().hp, 38);
    assert!(game.entities[2].fighter.is_none());
    assert_eq!(game.entities[2].name, "remains of skeleton");
    assert_eq!(game.entities[3].fighter.as_ref().unwrap().hp, 50);
    // the kill's xp lands on the player
    assert_eq!(
        game.entities[PLAYER].fighter.as_ref().unwrap().xp,
        player_xp + 200
    );
}

#[test]
fn fireball_without_target_cancels() {
    let mut game = new_game();
    assert_eq!(actions::cast_fireball(None, &mut game), UseResult::Cancelled);
}

#[test]
fn examine_artifact_reads_the_label() {
    let mut game = new_game();
    {
        let player = &mut game.entities[PLAYER];
        let mut relic = Entity::new(0, 0, '{', gray(), "artifact", false);
        relic.item = Some(Item::Artifact {
            name: "Hensak".to_string(),
            value: 1250,
        });
        player.inventory.push(relic);
    }
    let r = actions::examine_artifact(1, &mut game);
    assert_eq!(r, UseResult::UsedAndKept);
    let n = game.messages.len();
    assert_eq!(
        game.messages.get(n - 1).0,
        "This artifact is named Hensak and has a value of 1250"
    );
}
