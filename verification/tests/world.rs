use roguelike_core::actions;
use roguelike_core::ai::Ai;
use roguelike_core::engine::{UpgradeChoice, PLAYER};
use roguelike_core::entity::Entity;
use roguelike_core::color::Rgb;
use roguelike_core::fighter::{DeathCallback, Fighter};
use roguelike_core::mapgen;
use roguelike_core::setup::new_game;
use roguelike_core::visibility::Visibility;

fn gray() -> Rgb {
    Rgb { r: 100, g: 100, b: 100 }
}

#[test]
fn new_game_starts_a_playable_run() {
    let game = new_game();
    assert_eq!(game.dungeon_level, 1);
    assert_eq!(game.event_bus.max_events, 32);
    assert!(game.entities.len() >= 2);
    let player = &game.entities[PLAYER];
    assert!(player.alive);
    assert_eq!(player.name, "player");
    assert_eq!(player.fighter.as_ref().unwrap().hp, 30);
    assert_eq!(player.inventory.len(), 1);
    assert_eq!(player.inventory[0].name, "dagger");
    assert!(player.inventory[0].equipment.as_ref().unwrap().equipped);
    // the equipped dagger raises power by its bonus
    assert_eq!(player.power(), 3 + 2);
}

#[test]
fn generated_level_is_traversable() {
    // every placed entity stands on an unblocked tile, and the world
    // holds exactly one stairs feature among the generated entities
    let game = new_game();
    assert_eq!(game.map.len(), mapgen::MAP_WIDTH as usize);
    for column in &game.map {
        assert_eq!(column.len(), mapgen::MAP_HEIGHT as usize);
    }
    let mut stairs_count = 0;
    for (i, e) in game.entities.iter().enumerate() {
        assert!(e.x >= 0 && e.x < mapgen::MAP_WIDTH);
        assert!(e.y >= 0 && e.y < mapgen::MAP_HEIGHT);
        assert!(!game.map[e.x as usize][e.y as usize].blocked);
        if i > 0 && e.name == "stairs" {
            stairs_count += 1;
        }
    }
    assert_eq!(stairs_count, 1);
    assert_eq!(game.entities.last().unwrap().name, "stairs");
}

#[test]
fn second_level_is_the_boss_arena() {
    let mut game = new_game();
    actions::next_level(&mut game);
    assert_eq!(game.dungeon_level, 2);
    assert_eq!(game.entities.len(), 2);
    let boss = &game.entities[1];
    assert_eq!(boss.name, "Boss");
    assert!(boss.blocks);
    assert_eq!(boss.fighter.as_ref().unwrap().on_death, DeathCallback::Boss);
    assert!(matches!(boss.ai, Some(Ai::Basic)));
    // the player starts near the top edge of the single huge room
    assert_eq!(game.entities[PLAYER].y, 3);
}

#[test]
fn level_up_threshold_and_upgrade() {
    // reaching exactly the threshold raises the level; the strength
    // upgrade then costs the old threshold and adds one power
    let mut game = new_game();
    {
        let player = &mut game.entities[PLAYER];
        player.level = 1;
        player.fighter.as_mut().unwrap().xp = 200 + 150 * 1;
    }
    let leveled = game.check_for_level_up();
    assert!(leveled);
    assert_eq!(game.entities[PLAYER].level, 2);

    let base_power_before = game.entities[PLAYER].fighter.as_ref().unwrap().base_power;
    game.apply_level_up_choice(UpgradeChoice::Strength);
    let f = game.entities[PLAYER].fighter.as_ref().unwrap();
    assert_eq!(f.base_power, base_power_before + 1);
    assert_eq!(f.xp, 0);
}

#[test]
fn below_threshold_no_level_up() {
    let mut game = new_game();
    {
        let player = &mut game.entities[PLAYER];
        player.level = 1;
        player.fighter.as_mut().unwrap().xp = 200 + 150 - 1;
    }
    assert!(!game.check_for_level_up());
    assert_eq!(game.entities[PLAYER].level, 1);
}

#[test]
fn constitution_upgrade_raises_hp() {
    let mut game = new_game();
    {
        let player = &mut game.entities[PLAYER];
        player.level = 2;
        player.fighter.as_mut().unwrap().xp = 350;
    }
    game.apply_level_up_choice(UpgradeChoice::Constitution);
    let f = game.entities[PLAYER].fighter.as_ref().unwrap();
    assert_eq!(f.base_max_hp, 50);
    assert_eq!(f.hp, 50);
    assert_eq!(f.xp, 0);
}

#[test]
fn confusion_expires_into_previous_state() {
    // a Confused wrapper with zero turns left moves once and reverts
    // to the wrapped Basic state, not to a negative counter
    let mut game = new_game();
    game.entities.truncate(1);
    let mut monster = Entity::new(10, 10, 'o', gray(), "orc", true);
    monster.alive = true;
    monster.fighter = Some(Fighter {
        base_max_hp: 10,
        hp: 10,
        base_defense: 0,
        base_power: 3,
        xp: 35,
        on_death: DeathCallback::Monster,
    });
    monster.ai = Some(Ai::Confused {
        previous_ai: Box::new(Ai::Basic),
        num_turns: 0,
    });
    game.entities.push(monster);

    let visibility = Visibility::new_dark();
    roguelike_core::ai::ai_take_turn(1, &visibility, &mut game);
    assert!(matches!(game.entities[1].ai, Some(Ai::Basic)));
    // the end of the confusion is announced
    let n = game.messages.len();
    assert!(n >= 1);
    assert_eq!(game.messages.get(n - 1).0, "The orc is no longer confused");
}

#[test]
fn confusion_counts_down() {
    let mut game = new_game();
    game.entities.truncate(1);
    let mut monster = Entity::new(10, 10, 'o', gray(), "orc", true);
    monster.alive = true;
    monster.ai = Some(Ai::Confused {
        previous_ai: Box::new(Ai::Basic),
        num_turns: 2,
    });
    game.entities.push(monster);

    let visibility = Visibility::new_dark();
    roguelike_core::ai::ai_take_turn(1, &visibility, &mut game);
    match &game.entities[1].ai {
        Some(Ai::Confused { previous_ai, num_turns }) => {
            assert!(matches!(**previous_ai, Ai::Basic));
            assert_eq!(*num_turns, 1);
        },
        other => panic!("unexpected state: {:?}", other),
    }
}

#[test]
fn hidden_basic_monster_waits() {
    // out of the visibility collaborator's view, a basic actor does nothing
    let mut game = new_game();
    game.entities.truncate(1);
    {
        let player = &mut game.entities[PLAYER];
        player.x = 1;
        player.y = 1;
    }
    let mut monster = Entity::new(40, 40, 'o', gray(), "orc", true);
    monster.alive = true;
    monster.fighter = Some(Fighter {
        base_max_hp: 10,
        hp: 10,
        base_defense: 0,
        base_power: 3,
        xp: 35,
        on_death: DeathCallback::Monster,
    });
    monster.ai = Some(Ai::Basic);
    game.entities.push(monster);

    let visibility = Visibility::new_dark();
    let events_before = game.event_bus.bus.len();
    roguelike_core::ai::ai_take_turn(1, &visibility, &mut game);
    assert_eq!((game.entities[1].x, game.entities[1].y), (40, 40));
    assert_eq!(game.event_bus.bus.len(), events_before);
    assert!(matches!(game.entities[1].ai, Some(Ai::Basic)));
}

#[test]
fn adjacent_visible_monster_strikes() {
    let mut game = new_game();
    game.entities.truncate(1);
    {
        let player = &mut game.entities[PLAYER];
        player.x = 10;
        player.y = 10;
        player.fighter.as_mut().unwrap().hp = 30;
        player.fighter.as_mut().unwrap().base_defense = 0;
    }
    // drop the dagger's defense contribution from the picture
    let mut monster = Entity::new(10, 11, 'o', gray(), "orc", true);
    monster.alive = true;
    monster.fighter = Some(Fighter {
        base_max_hp: 10,
        hp: 10,
        base_defense: 0,
        base_power: 3,
        xp: 35,
        on_death: DeathCallback::Monster,
    });
    monster.ai = Some(Ai::Basic);
    game.entities.push(monster);

    let mut visibility = Visibility::new_dark();
    visibility.set_visible(10, 11, true);
    roguelike_core::ai::ai_take_turn(1, &visibility, &mut game);
    // a 3-power strike against 0 defense costs the player 3 hp
    assert_eq!(game.entities[PLAYER].fighter.as_ref().unwrap().hp, 27);
    let n = game.event_bus.bus.len();
    assert!(n >= 2);
    assert_eq!(
        game.event_bus.bus[n - 1].event_type,
        roguelike_core::event::EventType::MonsterAttack
    );
    assert_eq!(
        game.event_bus.bus[n - 2].event_type,
        roguelike_core::event::EventType::EntityAttacked
    );
}

#[test]
fn transition_tables_step_with_depth() {
    let table = mapgen::max_monsters_table();
    assert_eq!(roguelike_core::transition::from_dungeon_level(table.as_slice(), 0), 0);
    assert_eq!(roguelike_core::transition::from_dungeon_level(table.as_slice(), 1), 2);
    assert_eq!(roguelike_core::transition::from_dungeon_level(table.as_slice(), 3), 2);
    assert_eq!(roguelike_core::transition::from_dungeon_level(table.as_slice(), 4), 3);
    assert_eq!(roguelike_core::transition::from_dungeon_level(table.as_slice(), 6), 5);
    assert_eq!(roguelike_core::transition::from_dungeon_level(table.as_slice(), 100), 5);
}

#[test]
fn rect_geometry() {
    let r = mapgen::Rect::new(2, 3, 6, 8);
    assert_eq!((r.x1, r.y1, r.x2, r.y2), (2, 3, 8, 11));
    assert_eq!(r.center(), (5, 7));
    let far = mapgen::Rect::new(20, 20, 5, 5);
    assert!(!r.intersects_with(&far));
    let near = mapgen::Rect::new(7, 10, 4, 4);
    assert!(r.intersects_with(&near));
    assert!(mapgen::in_map_bounds(0, 0));
    assert!(!mapgen::in_map_bounds(mapgen::MAP_WIDTH, 0));
    assert!(!mapgen::in_map_bounds(-1, 5));
}

#[test]
fn player_steps_and_attacks() {
    let mut game = new_game();
    game.entities.truncate(1);
    {
        let player = &mut game.entities[PLAYER];
        player.x = 10;
        player.y = 10;
    }
    // carve a guaranteed-walkable spot by checking the map first
    let tx = 10;
    let ty = 11;
    let mut monster = Entity::new(tx, ty, 'o', gray(), "orc", true);
    monster.alive = true;
    monster.fighter = Some(Fighter {
        base_max_hp: 10,
        hp: 10,
        base_defense: 0,
        base_power: 1,
        xp: 35,
        on_death: DeathCallback::Monster,
    });
    game.entities.push(monster);

    actions::player_move_or_attack(0, 1, &mut game);
    // the orc stood in the way: it was attacked, not displaced
    assert_eq!((game.entities[PLAYER].x, game.entities[PLAYER].y), (10, 10));
    assert_eq!(game.entities[1].fighter.as_ref().unwrap().hp, 10 - 5);
    let n = game.event_bus.bus.len();
    assert_eq!(
        game.event_bus.bus[n - 1].event_type,
        roguelike_core::event::EventType::PlayerAttack
    );
}

#[test]
fn move_by_respects_walls() {
    let mut game = new_game();
    game.entities.truncate(1);
    {
        let player = &mut game.entities[PLAYER];
        player.x = 0;
        player.y = 0;
    }
    // the map border is wall, so stepping outward does nothing
    actions::move_by(PLAYER, -1, 0, &game.map, &mut game.entities);
    assert_eq!((game.entities[PLAYER].x, game.entities[PLAYER].y), (0, 0));
}
