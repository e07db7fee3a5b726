//! Starting a fresh run.

use vstd::prelude::*;
use crate::camera::Camera;
use crate::engine::{GameEngine, ProcessorRegistry, PLAYER};
use crate::entity::Entity;
use crate::equipment::{Equipment, Slot};
use crate::event::EventBus;
use crate::fighter::{DeathCallback, Fighter};
use crate::item::Item;
use crate::messages::Messages;

verus! {

use vstd::string::StringExecFns;

pub const SCREEN_WIDTH: i32 = 80;
pub const SCREEN_HEIGHT: i32 = 75;

/// The event bus capacity a new game starts with.
pub const EVENT_BUS_CAPACITY: usize = 32;

/// Builds a fresh run: the player with their starting stats and equipped
/// dagger, an empty 32-slot event bus, the three processors, and the first
/// generated level.
pub fn new_game() -> (game: GameEngine)
    ensures
        game.wf(),
        game.dungeon_level == 1,
        game.event_bus.max_events == EVENT_BUS_CAPACITY,
        game.entities@.len() >= 2,
        ({
            let player = game.entities@[PLAYER as int];
            &&& player.alive
            &&& player.name@ == "player"@
            &&& player.fighter == Some(
                Fighter {
                    base_max_hp: 30,
                    hp: 30,
                    base_defense: 2,
                    base_power: 3,
                    xp: 200,
                    on_death: DeathCallback::Player,
                },
            )
            &&& player.inventory@.len() == 1
            &&& player.inventory@[0].name@ == "dagger"@
            &&& player.inventory@[0].item == Some(Item::Sword)
            &&& player.inventory@[0].equipment == Some(
                Equipment {
                    equipped: true,
                    slot: Slot::LeftHand,
                    max_hp_bonus: 0,
                    defense_bonus: 0,
                    power_bonus: 2,
                },
            )
        }),
        crate::mapgen::stairs_entity_ok(game.entities@.last()),
        crate::mapgen::spec_in_map_bounds(
            game.entities@[PLAYER as int].x as int,
            game.entities@[PLAYER as int].y as int,
        ),
        !crate::mapgen::tile_at(
            game.map,
            game.entities@[PLAYER as int].x as int,
            game.entities@[PLAYER as int].y as int,
        ).blocked,
        crate::mapgen::spec_in_map_bounds(
            game.entities@.last().x as int,
            game.entities@.last().y as int,
        ),
        !crate::mapgen::tile_at(
            game.map,
            game.entities@.last().x as int,
            game.entities@.last().y as int,
        ).blocked,
        forall|k: int|
            1 <= k < game.entities@.len() - 1 ==> #[trigger] crate::mapgen::spawned_ok(
                game.map,
                game.entities@,
                k,
            ),
        game.messages@.len() == 1,
{
    proof {
        reveal_strlit("player");
        reveal_strlit("dagger");
        reveal_strlit("Welcome to the Halls of Ruzt - there's no time to change your mind...");
    }
    let mut player = Entity::new(0, 0, '@', crate::color::white(), "player", true);
    player.alive = true;
    player.fighter = Some(
        Fighter {
            base_max_hp: 30,
            hp: 30,
            base_defense: 2,
            base_power: 3,
            xp: 200,
            on_death: DeathCallback::Player,
        },
    );

    let mut entities: Vec<Entity> = Vec::new();
    entities.push(player);

    let mut game = GameEngine {
        map: Vec::new(),
        messages: Messages::new(),
        dungeon_level: 1,
        event_bus: EventBus::new(EVENT_BUS_CAPACITY),
        processors: ProcessorRegistry::new(),
        entities,
        camera: Camera {
            x: 0,
            y: 0,
            width: SCREEN_WIDTH,
            height: SCREEN_HEIGHT,
            map_width: crate::mapgen::MAP_WIDTH,
            map_height: crate::mapgen::MAP_HEIGHT,
        },
    };
    let map = crate::mapgen::make_map(&mut game, 1);
    game.map = map;

    let mut dagger = Entity::new(0, 0, '-', crate::color::blue(), "dagger", false);
    dagger.item = Some(Item::Sword);
    dagger.equipment = Some(
        Equipment {
            equipped: true,
            slot: Slot::LeftHand,
            max_hp_bonus: 0,
            defense_bonus: 0,
            power_bonus: 2,
        },
    );
    let ghost before_dagger = game.entities@;
    {
        let p = &mut game.entities[PLAYER];
        p.inventory.push(dagger);
    }
    proof {
        assert forall|k: int|
            1 <= k < game.entities@.len() - 1 implies #[trigger] crate::mapgen::spawned_ok(
            game.map,
            game.entities@,
            k,
        ) by {
            assert(crate::mapgen::spawned_ok(game.map, before_dagger, k));
            assert(forall|j: int|
                1 <= j < game.entities@.len() ==> #[trigger] game.entities@[j]
                    == before_dagger[j]);
        }
    }

    game.messages.add(
        String::from_str(
            "Welcome to the Halls of Ruzt - there's no time to change your mind...",
        ),
        crate::color::red(),
    );

    game
}

} // verus!
