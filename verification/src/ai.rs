//! The per-turn behavior state of a non-player actor.

use vstd::prelude::*;
use crate::actions::{can_step, move_target, step_toward};
use crate::engine::{GameEngine, PLAYER};
use crate::entity::{attack_outcome, attack_requires, dist_sq, Entity};
use crate::event::{pushed_plain_event, EventBus, EventType, GameEvent};
use crate::mapgen::{spec_in_map_bounds, MAP_HEIGHT, MAP_WIDTH};
use crate::visibility::Visibility;

verus! {

use vstd::string::StringExecFns;

/// AI state: `Basic` chases and attacks the player while visible; `Confused`
/// wanders toward random coordinates and reverts to the wrapped state when
/// its turn counter runs out.  Confusion may in principle wrap another
/// confusion, so the variant nests.
#[derive(Debug)]
pub enum Ai {
    Basic,
    Confused { previous_ai: Box<Ai>, num_turns: i32 },
}

/// The state an AI settles into after one turn: `Basic` is stable, and a
/// confusion reverts to the wrapped state when its counter has run out.
pub open spec fn next_ai(a: Ai) -> Ai
    decreases a,
{
    match a {
        Ai::Basic => Ai::Basic,
        Ai::Confused { previous_ai, num_turns } => if num_turns == 0 {
            *previous_ai
        } else {
            Ai::Confused { previous_ai, num_turns: (num_turns - 1) as i32 }
        },
    }
}

/// What an AI turn asks of the caller so that nothing can overflow or panic:
/// a basic actor about to strike satisfies the attack conditions, and a
/// confusion counter is not at the very bottom of `i32`.
pub open spec fn ai_turn_requires(g: GameEngine, monster_id: int) -> bool {
    let e = g.entities@[monster_id];
    match e.ai {
        None => true,
        Some(Ai::Basic) => {
            let player = g.entities@[PLAYER as int];
            &&& spec_in_map_bounds(e.x as int, e.y as int)
            &&& (dist_sq(e.x as int, e.y as int, player.x as int, player.y as int) < 4
                ==> attack_requires(e, player))
        },
        Some(Ai::Confused { previous_ai, num_turns }) => num_turns > i32::MIN,
    }
}

/// What one turn of the basic chase-and-fight behavior does.  Out of the
/// visibility collaborator's view nothing happens.  In view and two or more
/// squares from the player, the actor takes one normalized step toward the
/// player (or stays where the step is blocked) and a `MonsterMove` event goes
/// on the bus.  In view and adjacent, the actor strikes the player — the full
/// attack semantics — and a `MonsterAttack` event goes on the bus last.
pub open spec fn basic_turn_outcome(
    g0: GameEngine,
    g1: GameEngine,
    monster_id: int,
    vis: Visibility,
) -> bool {
    let s = g0.entities@;
    let e = s[monster_id];
    let player = s[PLAYER as int];
    if !vis.spec_visible(e.x as int, e.y as int) {
        &&& g1.entities@ == s
        &&& g1.event_bus == g0.event_bus
    } else if dist_sq(e.x as int, e.y as int, player.x as int, player.y as int) >= 4 {
        &&& ({
            let (sx, sy) = step_toward(player.x - e.x, player.y - e.y);
            let (nx, ny) = move_target(e.x as int, e.y as int, sx, sy);
            if can_step(g0.map, s, nx, ny) {
                g1.entities@ == s.update(monster_id, Entity { x: nx as i32, y: ny as i32, ..e })
            } else {
                g1.entities@ == s
            }
        })
        &&& pushed_plain_event(g0.event_bus, g1.event_bus, EventType::MonsterMove)
    } else {
        &&& g1.entities@.len() == s.len()
        &&& (forall|k: int|
            0 <= k < s.len() && k != monster_id && k != PLAYER ==> #[trigger] g1.entities@[k]
                == s[k])
        &&& exists|bmid: EventBus|
            {
                &&& #[trigger] attack_outcome(
                    e,
                    g1.entities@[monster_id],
                    player,
                    g1.entities@[PLAYER as int],
                    g0.event_bus,
                    bmid,
                )
                &&& pushed_plain_event(bmid, g1.event_bus, EventType::MonsterAttack)
            }
    }
}

/// Lets the actor at `monster_id` take its one action for the turn and
/// settles its AI into the successor state.
pub fn ai_take_turn(monster_id: usize, visibility: &Visibility, game: &mut GameEngine)
    requires
        old(game).wf(),
        visibility.wf(),
        0 < monster_id < old(game).entities@.len(),
        ai_turn_requires(*old(game), monster_id as int),
    ensures
        final(game).wf(),
        *final(game) == (GameEngine {
            entities: final(game).entities,
            event_bus: final(game).event_bus,
            messages: final(game).messages,
            ..*old(game)
        }),
        final(game).entities@.len() == old(game).entities@.len(),
        forall|k: int|
            0 <= k < old(game).entities@.len() && k != monster_id && k != PLAYER
                ==> #[trigger] final(game).entities@[k] == old(game).entities@[k],
        ({
            let s = old(game).entities@;
            let e0 = s[monster_id as int];
            let e1 = final(game).entities@[monster_id as int];
            match e0.ai {
                None => *final(game) == *old(game),
                Some(Ai::Basic) => {
                    &&& basic_turn_outcome(*old(game), *final(game), monster_id as int, *visibility)
                    &&& e1.ai == Some(Ai::Basic)
                    &&& final(game).messages == old(game).messages
                },
                Some(Ai::Confused { previous_ai, num_turns }) => {
                    &&& e1.ai == Some(next_ai(Ai::Confused { previous_ai, num_turns }))
                    &&& final(game).entities@ == s.update(
                        monster_id as int,
                        Entity { x: e1.x, y: e1.y, ai: e1.ai, ..e0 },
                    )
                    &&& -1 <= e1.x - e0.x <= 1
                    &&& -1 <= e1.y - e0.y <= 1
                    &&& final(game).event_bus == old(game).event_bus
                    &&& (num_turns == 0 ==> crate::entity::logged_line(
                        old(game).messages@,
                        final(game).messages@,
                        "The "@ + e0.name@ + " is no longer confused"@,
                        crate::color::red(),
                    ))
                    &&& (num_turns != 0 ==> final(game).messages == old(game).messages)
                },
            }
        }),
{
    let state = {
        let e = &game.entities[monster_id];
        match &e.ai {
            None => 0u8,
            Some(Ai::Basic) => 1u8,
            Some(Ai::Confused { .. }) => 2u8,
        }
    };
    if state == 0 {
        return ;
    }
    if state == 1 {
        ai_basic(monster_id, visibility, game);
        return ;
    }
    let (previous_ai, num_turns) = {
        let e = &game.entities[monster_id];
        match &e.ai {
            Some(a) => {
                match a.clone() {
                    Ai::Confused { previous_ai, num_turns } => (previous_ai, num_turns),
                    Ai::Basic => {
                        proof {
                            assert(false);
                        }
                        (Box::new(Ai::Basic), 0)
                    },
                }
            },
            None => {
                proof {
                    assert(false);
                }
                (Box::new(Ai::Basic), 0)
            },
        }
    };
    let ghost s0 = game.entities@;
    let new_ai = ai_confused(monster_id, game, previous_ai, num_turns);
    let ghost moved = game.entities@;
    {
        let e = &mut game.entities[monster_id];
        e.ai = Some(new_ai);
    }
    proof {
        let e0 = s0[monster_id as int];
        let e1 = game.entities@[monster_id as int];
        assert(moved =~= s0.update(monster_id as int, moved[monster_id as int]));
        assert(game.entities@ =~= s0.update(
            monster_id as int,
            Entity { x: e1.x, y: e1.y, ai: e1.ai, ..e0 },
        ));
    }
}

/// One turn of the basic chase-and-fight behavior: while the visibility
/// collaborator reports the actor in view, it closes on the player when two
/// or more squares away and otherwise strikes; out of view it waits.
fn ai_basic(monster_id: usize, visibility: &Visibility, game: &mut GameEngine)
    requires
        old(game).wf(),
        visibility.wf(),
        0 < monster_id < old(game).entities@.len(),
        spec_in_map_bounds(
            old(game).entities@[monster_id as int].x as int,
            old(game).entities@[monster_id as int].y as int,
        ),
        ({
            let e = old(game).entities@[monster_id as int];
            let player = old(game).entities@[PLAYER as int];
            dist_sq(e.x as int, e.y as int, player.x as int, player.y as int) < 4
                ==> attack_requires(e, player)
        }),
    ensures
        final(game).wf(),
        *final(game) == (GameEngine {
            entities: final(game).entities,
            event_bus: final(game).event_bus,
            ..*old(game)
        }),
        final(game).entities@.len() == old(game).entities@.len(),
        forall|k: int|
            0 <= k < old(game).entities@.len() && k != monster_id && k != PLAYER
                ==> #[trigger] final(game).entities@[k] == old(game).entities@[k],
        basic_turn_outcome(*old(game), *final(game), monster_id as int, *visibility),
        final(game).entities@[monster_id as int].ai == old(
            game,
        ).entities@[monster_id as int].ai,
{
    let monster_x = game.entities[monster_id].x;
    let monster_y = game.entities[monster_id].y;
    if visibility.is_visible(monster_x, monster_y) {
        let d2 = game.entities[monster_id].distance_to_squared(&game.entities[PLAYER]);
        if d2 >= 4 {
            let player_x = game.entities[PLAYER].x;
            let player_y = game.entities[PLAYER].y;
            crate::actions::move_towards(
                monster_id,
                player_x,
                player_y,
                &game.map,
                &mut game.entities,
            );
            game.event_bus.add_event(GameEvent::from_type(EventType::MonsterMove));
        } else {
            let (monster, player) = crate::util::mut_two(
                monster_id,
                PLAYER,
                game.entities.as_mut_slice(),
            );
            monster.attack(player, &mut game.event_bus);
            let ghost bmid = game.event_bus;
            game.event_bus.add_event(GameEvent::from_type(EventType::MonsterAttack));
            proof {
                let s0 = old(game).entities@;
                assert(attack_outcome(
                    s0[monster_id as int],
                    game.entities@[monster_id as int],
                    s0[PLAYER as int],
                    game.entities@[PLAYER as int],
                    old(game).event_bus,
                    bmid,
                ));
                assert(pushed_plain_event(bmid, game.event_bus, EventType::MonsterAttack));
            }
        }
    }
}

/// One turn of confusion: the actor stumbles one step toward a uniformly
/// random map square, announces the end of its confusion when the counter
/// has run out, and hands back the state it settles into.
fn ai_confused(
    monster_id: usize,
    game: &mut GameEngine,
    previous_ai: Box<Ai>,
    num_turns: i32,
) -> (r: Ai)
    requires
        old(game).wf(),
        0 < monster_id < old(game).entities@.len(),
        num_turns > i32::MIN,
    ensures
        final(game).wf(),
        r == next_ai(Ai::Confused { previous_ai, num_turns }),
        *final(game) == (GameEngine {
            entities: final(game).entities,
            messages: final(game).messages,
            ..*old(game)
        }),
        final(game).entities@.len() == old(game).entities@.len(),
        forall|k: int|
            0 <= k < old(game).entities@.len() && k != monster_id
                ==> #[trigger] final(game).entities@[k] == old(game).entities@[k],
        ({
            let e0 = old(game).entities@[monster_id as int];
            let e1 = final(game).entities@[monster_id as int];
            &&& e1 == (Entity { x: e1.x, y: e1.y, ..e0 })
            &&& -1 <= e1.x - e0.x <= 1
            &&& -1 <= e1.y - e0.y <= 1
        }),
        num_turns == 0 ==> crate::entity::logged_line(
            old(game).messages@,
            final(game).messages@,
            "The "@ + old(game).entities@[monster_id as int].name@ + " is no longer confused"@,
            crate::color::red(),
        ),
        num_turns != 0 ==> final(game).messages == old(game).messages,
{
    let x = crate::rng::range_i32(0, MAP_WIDTH);
    let y = crate::rng::range_i32(0, MAP_HEIGHT);
    crate::actions::move_towards(monster_id, x, y, &game.map, &mut game.entities);
    if num_turns == 0 {
        proof {
            reveal_strlit("The ");
            reveal_strlit(" is no longer confused");
        }
        let mut text = String::from_str("The ");
        text.append(game.entities[monster_id].name.as_str());
        text.append(" is no longer confused");
        game.messages.add(text, crate::color::red());
        *previous_ai
    } else {
        Ai::Confused { previous_ai, num_turns: num_turns - 1 }
    }
}

impl Clone for Ai {
    fn clone(&self) -> (r: Ai)
        ensures
            r == *self,
        decreases *self,
    {
        match self {
            Ai::Basic => Ai::Basic,
            Ai::Confused { previous_ai, num_turns } => Ai::Confused {
                previous_ai: Box::new((**previous_ai).clone()),
                num_turns: *num_turns,
            },
        }
    }
}

} // verus!
