//! Entity actions: movement, the player's move-or-attack step, picking up
//! and dropping items, and the item effects.

use vstd::prelude::*;
use crate::engine::{GameEngine, PLAYER};
use crate::entity::{
    attack_outcome, attack_requires, damaged_fighter, dist_sq, fits_i32, spec_max_hp, Entity,
};
use crate::event::{bus_push_shape, pushed_plain_event, EventBus, EventData, EventType, GameEvent};
use crate::mapgen::{map_wf, spec_in_map_bounds, spec_is_blocked, DungeonMap};

verus! {

use vstd::string::StringExecFns;

/// Where a unit move from `(x, y)` by `(dx, dy)` would land.
pub open spec fn move_target(x: int, y: int, dx: int, dy: int) -> (int, int) {
    (x + dx, y + dy)
}

/// Whether the move lands on the map and on nothing blocking.
pub open spec fn can_step(m: DungeonMap, s: Seq<Entity>, nx: int, ny: int) -> bool {
    spec_in_map_bounds(nx, ny) && !spec_is_blocked(m, s, nx, ny)
}

/// Moves entity `id` by `(dx, dy)` unless the destination is off the map or
/// blocked; a move off the map counts as blocked.
pub fn move_by(id: usize, dx: i32, dy: i32, map: &DungeonMap, entity: &mut Vec<Entity>)
    requires
        map_wf(*map),
        id < old(entity)@.len(),
    ensures
        ({
            let e = old(entity)@[id as int];
            let (nx, ny) = move_target(e.x as int, e.y as int, dx as int, dy as int);
            if can_step(*map, old(entity)@, nx, ny) {
                final(entity)@ == old(entity)@.update(
                    id as int,
                    Entity { x: nx as i32, y: ny as i32, ..e },
                )
            } else {
                final(entity)@ == old(entity)@
            }
        }),
{
    let (x, y) = entity[id].pos();
    let nx64 = x as i64 + dx as i64;
    let ny64 = y as i64 + dy as i64;
    if 0 <= nx64 && nx64 < crate::mapgen::MAP_WIDTH as i64 && 0 <= ny64 && ny64
        < crate::mapgen::MAP_HEIGHT as i64 {
        let nx = nx64 as i32;
        let ny = ny64 as i32;
        if !crate::mapgen::is_blocked(nx, ny, map, entity.as_slice()) {
            let e = &mut entity[id];
            e.set_pos(nx, ny);
        }
    }
}

/// The unit step toward a target: the true delta divided by the Euclidean
/// distance, each axis rounded to the nearest whole step.  A zero delta
/// steps nowhere.
pub open spec fn step_toward(dx: int, dy: int) -> (int, int) {
    let d2 = dx * dx + dy * dy;
    (
        if dx == 0 {
            0int
        } else if 4 * dx * dx >= d2 {
            if dx > 0 {
                1int
            } else {
                -1int
            }
        } else {
            0int
        },
        if dy == 0 {
            0int
        } else if 4 * dy * dy >= d2 {
            if dy > 0 {
                1int
            } else {
                -1int
            }
        } else {
            0int
        },
    )
}

/// Moves entity `id` one normalized step toward `(target_x, target_y)`,
/// subject to the same blocking rules as `move_by`.
pub fn move_towards(
    id: usize,
    target_x: i32,
    target_y: i32,
    map: &DungeonMap,
    entities: &mut Vec<Entity>,
)
    requires
        map_wf(*map),
        id < old(entities)@.len(),
    ensures
        ({
            let e = old(entities)@[id as int];
            let (sx, sy) = step_toward(target_x - e.x, target_y - e.y);
            let (nx, ny) = move_target(e.x as int, e.y as int, sx, sy);
            if can_step(*map, old(entities)@, nx, ny) {
                final(entities)@ == old(entities)@.update(
                    id as int,
                    Entity { x: nx as i32, y: ny as i32, ..e },
                )
            } else {
                final(entities)@ == old(entities)@
            }
        }),
{
    let e = &entities[id];
    let dx: i128 = target_x as i128 - e.x as i128;
    let dy: i128 = target_y as i128 - e.y as i128;
    proof {
        assert(0 <= dx * dx && dx * dx <= 0x1_0000_0000_0000_0000_0000 && 0 <= dy * dy && dy * dy
            <= 0x1_0000_0000_0000_0000_0000 && 4 * dx * dx == 4 * (dx * dx) && 4 * dy * dy == 4 * (
        dy * dy)) by (nonlinear_arith)
            requires
                -0x1_0000_0000 <= dx <= 0x1_0000_0000,
                -0x1_0000_0000 <= dy <= 0x1_0000_0000,
        ;
    }
    let d2: i128 = dx * dx + dy * dy;
    let sx: i32 = if dx == 0 {
        0
    } else if 4 * (dx * dx) >= d2 {
        if dx > 0 {
            1
        } else {
            -1
        }
    } else {
        0
    };
    let sy: i32 = if dy == 0 {
        0
    } else if 4 * (dy * dy) >= d2 {
        if dy > 0 {
            1
        } else {
            -1
        }
    } else {
        0
    };
    proof {
        let e0 = entities@[id as int];
        assert(sx as int == step_toward(target_x - e0.x, target_y - e0.y).0);
        assert(sy as int == step_toward(target_x - e0.x, target_y - e0.y).1);
    }
    move_by(id, sx, sy, map, entities);
}

/// The first entity bearing a fighter that stands at `(x, y)`, if any.
pub open spec fn first_fighter_at(s: Seq<Entity>, x: int, y: int) -> Option<int>
    decreases s.len(),
{
    if s.len() == 0 {
        None
    } else if s.first().fighter is Some && s.first().x == x && s.first().y == y {
        Some(0int)
    } else {
        match first_fighter_at(s.drop_first(), x, y) {
            Some(i) => Some(i + 1),
            None => None,
        }
    }
}

/// Finds the first entity bearing a fighter at `(x, y)`.
fn find_fighter_at(entities: &Vec<Entity>, x: i32, y: i32) -> (r: Option<usize>)
    ensures
        match r {
            Some(i) => first_fighter_at(entities@, x as int, y as int) == Some(i as int) && i
                < entities@.len(),
            None => first_fighter_at(entities@, x as int, y as int) is None,
        },
{
    let n = entities.len();
    let mut i: usize = 0;
    proof {
        assert(entities@.skip(0) =~= entities@);
    }
    while i < n
        invariant
            i <= n,
            n == entities@.len(),
            match first_fighter_at(entities@.skip(i as int), x as int, y as int) {
                Some(j) => first_fighter_at(entities@, x as int, y as int) == Some(j + i),
                None => first_fighter_at(entities@, x as int, y as int) is None,
            },
        decreases n - i,
    {
        proof {
            assert(entities@.skip(i as int).first() == entities@[i as int]);
            assert(entities@.skip(i as int).drop_first() =~= entities@.skip(i + 1));
        }
        let e = &entities[i];
        if e.fighter.is_some() && e.x == x && e.y == y {
            return Some(i);
        }
        i = i + 1;
    }
    None
}

/// Resolves the player's directional input: an attack when a fighter stands
/// on the destination square, a plain move otherwise; either way the
/// matching event goes on the bus last.
pub fn player_move_or_attack(dx: i32, dy: i32, game: &mut GameEngine)
    requires
        old(game).wf(),
        !(dx == 0 && dy == 0),
        ({
            let s = old(game).entities@;
            let player = s[PLAYER as int];
            let (nx, ny) = move_target(player.x as int, player.y as int, dx as int, dy as int);
            match first_fighter_at(s, nx, ny) {
                Some(tid) => attack_requires(player, s[tid]),
                None => true,
            }
        }),
    ensures
        final(game).wf(),
        *final(game) == (GameEngine {
            entities: final(game).entities,
            event_bus: final(game).event_bus,
            ..*old(game)
        }),
        ({
            let s = old(game).entities@;
            let player = s[PLAYER as int];
            let (nx, ny) = move_target(player.x as int, player.y as int, dx as int, dy as int);
            match first_fighter_at(s, nx, ny) {
                Some(tid) => {
                    &&& final(game).entities@.len() == s.len()
                    &&& forall|k: int|
                        0 <= k < s.len() && k != PLAYER && k != tid
                            ==> #[trigger] final(game).entities@[k] == s[k]
                    &&& exists|bmid: EventBus|
                        {
                            &&& #[trigger] attack_outcome(
                                player,
                                final(game).entities@[PLAYER as int],
                                s[tid],
                                final(game).entities@[tid],
                                old(game).event_bus,
                                bmid,
                            )
                            &&& pushed_plain_event(
                                bmid,
                                final(game).event_bus,
                                EventType::PlayerAttack,
                            )
                        }
                },
                None => {
                    &&& if can_step(old(game).map, s, nx, ny) {
                        final(game).entities@ == s.update(
                            PLAYER as int,
                            Entity { x: nx as i32, y: ny as i32, ..player },
                        )
                    } else {
                        final(game).entities@ == s
                    }
                    &&& pushed_plain_event(
                        old(game).event_bus,
                        final(game).event_bus,
                        EventType::PlayerMove,
                    )
                },
            }
        }),
{
    let px = game.entities[PLAYER].x;
    let py = game.entities[PLAYER].y;
    let nx64 = px as i64 + dx as i64;
    let ny64 = py as i64 + dy as i64;

    let target_id = if i32::MIN as i64 <= nx64 && nx64 <= i32::MAX as i64 && i32::MIN as i64
        <= ny64 && ny64 <= i32::MAX as i64 {
        find_fighter_at(&game.entities, nx64 as i32, ny64 as i32)
    } else {
        proof {
            lemma_no_fighter_outside_i32(game.entities@, nx64 as int, ny64 as int);
        }
        None
    };
    match target_id {
        Some(tid) => {
            proof {
                lemma_first_fighter_at_props(
                    game.entities@,
                    nx64 as int,
                    ny64 as int,
                    tid as int,
                );
                assert(tid != PLAYER);
            }
            let (player, target) = crate::util::mut_two(
                PLAYER,
                tid,
                game.entities.as_mut_slice(),
            );
            player.attack(target, &mut game.event_bus);
            let ghost bmid = game.event_bus;
            game.event_bus.add_event(GameEvent::from_type(EventType::PlayerAttack));
            proof {
                let s0 = old(game).entities@;
                assert(game.entities@[PLAYER as int] == s0.update(
                    PLAYER as int,
                    game.entities@[PLAYER as int],
                ).update(tid as int, game.entities@[tid as int])[PLAYER as int]);
                assert(attack_outcome(
                    s0[PLAYER as int],
                    game.entities@[PLAYER as int],
                    s0[tid as int],
                    game.entities@[tid as int],
                    old(game).event_bus,
                    bmid,
                ));
                assert(pushed_plain_event(bmid, game.event_bus, EventType::PlayerAttack));
            }
        },
        None => {
            move_by(PLAYER, dx, dy, &game.map, &mut game.entities);
            game.event_bus.add_event(GameEvent::from_type(EventType::PlayerMove));
        },
    }
}

/// The first inventory slot holding an item equipped in `slot`, if any.
pub open spec fn first_equipped_in_slot(s: Seq<Entity>, slot: crate::equipment::Slot) -> Option<
    int,
>
    decreases s.len(),
{
    if s.len() == 0 {
        None
    } else if s.first().equipment matches Some(q) && q.equipped && q.slot == slot {
        Some(0int)
    } else {
        match first_equipped_in_slot(s.drop_first(), slot) {
            Some(i) => Some(i + 1),
            None => None,
        }
    }
}

/// Finds the inventory index of the item currently equipped in `slot`.
pub fn get_equipped_id_in_slot(slot: crate::equipment::Slot, inventory: &[Entity]) -> (r: Option<
    usize,
>)
    ensures
        match r {
            Some(i) => first_equipped_in_slot(inventory@, slot) == Some(i as int) && i
                < inventory@.len(),
            None => first_equipped_in_slot(inventory@, slot) is None,
        },
{
    let n = inventory.len();
    let mut i: usize = 0;
    proof {
        assert(inventory@.skip(0) =~= inventory@);
    }
    while i < n
        invariant
            i <= n,
            n == inventory@.len(),
            match first_equipped_in_slot(inventory@.skip(i as int), slot) {
                Some(j) => first_equipped_in_slot(inventory@, slot) == Some(j + i),
                None => first_equipped_in_slot(inventory@, slot) is None,
            },
        decreases n - i,
    {
        proof {
            assert(inventory@.skip(i as int).first() == inventory@[i as int]);
            assert(inventory@.skip(i as int).drop_first() =~= inventory@.skip(i + 1));
        }
        let item = &inventory[i];
        let hit = match &item.equipment {
            Some(q) => q.equipped && q.slot == slot,
            None => false,
        };
        if hit {
            return Some(i);
        }
        i = i + 1;
    }
    None
}

/// The item in slot `j` of `s` is equipped in `slot`.
pub open spec fn equipped_in_slot(s: Seq<Entity>, j: int, slot: crate::equipment::Slot) -> bool {
    s[j].equipment matches Some(q) && q.equipped && q.slot == slot
}

/// At most one inventory item is equipped per slot.
pub open spec fn at_most_one_equipped(s: Seq<Entity>, slot: crate::equipment::Slot) -> bool {
    forall|i: int, j: int|
        0 <= i < j < s.len() && equipped_in_slot(s, i, slot) ==> !equipped_in_slot(s, j, slot)
}

/// The entity with its equipped flag set to `v` (unchanged without an
/// equipment component).
pub open spec fn with_equipped(e: Entity, v: bool) -> Entity {
    match e.equipment {
        Some(q) => Entity {
            equipment: Some(crate::equipment::Equipment { equipped: v, ..q }),
            ..e
        },
        None => e,
    }
}

/// What equipping or unequipping does to an inventory entry: the flag flips
/// only on a proper item with an equipment component; anything else is left
/// alone (with a diagnostic).
pub open spec fn toggle_result(e: Entity, v: bool) -> Entity {
    if e.item is Some && e.equipment is Some {
        with_equipped(e, v)
    } else {
        e
    }
}

/// Every inventory entry that carries an equipment component is a proper
/// item; the equip/unequip protocol keeps flags accurate only under this.
pub open spec fn equipment_entries_are_items(s: Seq<Entity>) -> bool {
    forall|j: int| 0 <= j < s.len() && (#[trigger] s[j]).equipment is Some ==> s[j].item is Some
}

/// Toggles the equipment in the player's inventory slot `inventory_id`:
/// equipping first unequips whatever holds the same body slot, which keeps at
/// most one item equipped per slot; unequipping an equipped item clears it.
/// An item without an equipment component is left alone.
pub fn toggle_equipment(inventory_id: usize, game: &mut GameEngine) -> (r: crate::item::UseResult)
    requires
        old(game).entities@.len() >= 1,
        inventory_id < old(game).entities@[PLAYER as int].inventory@.len(),
    ensures
        *final(game) == (GameEngine {
            entities: final(game).entities,
            messages: final(game).messages,
            ..*old(game)
        }),
        final(game).entities@.len() == old(game).entities@.len(),
        forall|k: int|
            0 < k < old(game).entities@.len() ==> #[trigger] final(game).entities@[k] == old(
                game,
            ).entities@[k],
        ({
            let player = old(game).entities@[PLAYER as int];
            let inv = player.inventory@;
            let player1 = final(game).entities@[PLAYER as int];
            let inv1 = player1.inventory@;
            match inv[inventory_id as int].equipment {
                None => {
                    &&& r == crate::item::UseResult::Cancelled
                    &&& *final(game) == *old(game)
                },
                Some(q) => {
                    &&& r == crate::item::UseResult::UsedAndKept
                    &&& player1 == (Entity { inventory: player1.inventory, ..player })
                    &&& inv1.len() == inv.len()
                    &&& ({
                        let holder = first_equipped_in_slot(inv, q.slot);
                        if q.equipped {
                            forall|j: int|
                                0 <= j < inv.len() ==> #[trigger] inv1[j] == if j
                                    == inventory_id || holder == Some(j) {
                                    toggle_result(inv[j], false)
                                } else {
                                    inv[j]
                                }
                        } else {
                            forall|j: int|
                                0 <= j < inv.len() ==> #[trigger] inv1[j] == if j
                                    == inventory_id {
                                    toggle_result(inv[j], true)
                                } else if holder == Some(j) {
                                    toggle_result(inv[j], false)
                                } else {
                                    inv[j]
                                }
                        }
                    })
                },
            }
        }),
        (equipment_entries_are_items(old(game).entities@[PLAYER as int].inventory@) ==> forall|
            sl: crate::equipment::Slot,
        |
            at_most_one_equipped(old(game).entities@[PLAYER as int].inventory@, sl)
                ==> #[trigger] at_most_one_equipped(
                final(game).entities@[PLAYER as int].inventory@,
                sl,
            )),
{
    let equipment = {
        let player = &game.entities[PLAYER];
        match &player.inventory[inventory_id].equipment {
            Some(q) => Some(*q),
            None => None,
        }
    };
    let equipment = match equipment {
        Some(q) => q,
        None => {
            return crate::item::UseResult::Cancelled;
        },
    };
    let holder = {
        let player = &game.entities[PLAYER];
        get_equipped_id_in_slot(equipment.slot, player.inventory.as_slice())
    };
    let ghost inv0 = game.entities@[PLAYER as int].inventory@;
    match holder {
        Some(current_equipment_id) => {
            proof {
                lemma_first_equipped_props(inv0, equipment.slot, current_equipment_id as int);
            }
            let player = &mut game.entities[PLAYER];
            let entry = &mut player.inventory[current_equipment_id];
            entry.unequip(&mut game.messages);
        },
        None => {},
    }
    if equipment.equipped {
        let player = &mut game.entities[PLAYER];
        let entry = &mut player.inventory[inventory_id];
        entry.unequip(&mut game.messages);
    } else {
        let player = &mut game.entities[PLAYER];
        let entry = &mut player.inventory[inventory_id];
        entry.equip(&mut game.messages);
    }
    proof {
        let inv1 = game.entities@[PLAYER as int].inventory@;
        if equipment_entries_are_items(inv0) {
            lemma_toggle_preserves_unique(
                inv0,
                inv1,
                inventory_id as int,
                equipment,
                first_equipped_in_slot(inv0, equipment.slot),
            );
        }
    }
    crate::item::UseResult::UsedAndKept
}

/// The slot `first_equipped_in_slot` names holds an item equipped in the
/// queried body slot.
proof fn lemma_first_equipped_props(
    s: Seq<Entity>,
    slot: crate::equipment::Slot,
    i: int,
)
    requires
        first_equipped_in_slot(s, slot) == Some(i),
    ensures
        0 <= i < s.len(),
        s[i].equipment matches Some(q) && q.equipped && q.slot == slot,
    decreases s.len(),
{
    if s.len() > 0 {
        if s.first().equipment matches Some(q) && q.equipped && q.slot == slot {
        } else {
            lemma_first_equipped_props(s.drop_first(), slot, i - 1);
        }
    }
}

/// An index equipped in `slot` sits at or after the first one.
proof fn lemma_equipped_is_found(s: Seq<Entity>, slot: crate::equipment::Slot, i: int)
    requires
        0 <= i < s.len(),
        equipped_in_slot(s, i, slot),
    ensures
        first_equipped_in_slot(s, slot) is Some,
        first_equipped_in_slot(s, slot)->Some_0 <= i,
    decreases s.len(),
{
    if s.first().equipment matches Some(q) && q.equipped && q.slot == slot {
    } else {
        assert(s.drop_first()[i - 1] == s[i]);
        lemma_equipped_is_found(s.drop_first(), slot, i - 1);
    }
}

/// A toggle never leaves two items equipped in one slot when every equipment
/// entry is a proper item and the inventory started with at most one
/// equipped per slot.
proof fn lemma_toggle_preserves_unique(
    inv: Seq<Entity>,
    inv1: Seq<Entity>,
    id: int,
    q: crate::equipment::Equipment,
    holder: Option<int>,
)
    requires
        equipment_entries_are_items(inv),
        inv1.len() == inv.len(),
        0 <= id < inv.len(),
        inv[id].equipment == Some(q),
        holder == first_equipped_in_slot(inv, q.slot),
        if q.equipped {
            forall|j: int|
                0 <= j < inv.len() ==> #[trigger] inv1[j] == if j == id || holder == Some(j) {
                    toggle_result(inv[j], false)
                } else {
                    inv[j]
                }
        } else {
            forall|j: int|
                0 <= j < inv.len() ==> #[trigger] inv1[j] == if j == id {
                    toggle_result(inv[j], true)
                } else if holder == Some(j) {
                    toggle_result(inv[j], false)
                } else {
                    inv[j]
                }
        },
    ensures
        forall|sl: crate::equipment::Slot|
            at_most_one_equipped(inv, sl) ==> #[trigger] at_most_one_equipped(inv1, sl),
{
    match holder {
        Some(h) => lemma_first_equipped_props(inv, q.slot, h),
        None => (),
    }
    assert forall|sl: crate::equipment::Slot|
        at_most_one_equipped(inv, sl) implies #[trigger] at_most_one_equipped(inv1, sl) by {
        assert forall|i: int, j: int|
            0 <= i < j < inv1.len() && equipped_in_slot(inv1, i, sl) implies !equipped_in_slot(
            inv1,
            j,
            sl,
        ) by {
            if equipped_in_slot(inv1, j, sl) {
                assert(inv1[i] == inv1[i]);
                assert(inv1[j] == inv1[j]);
                if equipped_in_slot(inv, i, sl) && equipped_in_slot(inv, j, sl) {
                    assert(false);
                } else {
                    // at least one of the two was freshly equipped: only the
                    // toggle-on branch equips, and only at `id`, in `q.slot`
                    assert(sl == q.slot);
                    assert(!q.equipped);
                    let other: int = if i == id {
                        j
                    } else {
                        i
                    };
                    assert(equipped_in_slot(inv, other, sl));
                    lemma_equipped_is_found(inv, sl, other);
                    let h = first_equipped_in_slot(inv, sl)->Some_0;
                    lemma_first_equipped_props(inv, sl, h);
                    if h != other {
                        assert(equipped_in_slot(inv, h, sl));
                        assert(false);
                    }
                    assert(false);
                }
            }
        }
    }
}

/// Moves the world entity `object_id` into the player's inventory: the
/// entity leaves the world list (its last element backfills the hole), a
/// pickup message and event fire, and a freshly picked equipment auto-equips
/// when its body slot is free.  A full inventory (26 items) refuses with a
/// message.
pub fn pick_item_up(object_id: usize, game: &mut GameEngine)
    requires
        old(game).wf(),
        0 < object_id < old(game).entities@.len(),
    ensures
        final(game).wf(),
        *final(game) == (GameEngine {
            entities: final(game).entities,
            event_bus: final(game).event_bus,
            messages: final(game).messages,
            ..*old(game)
        }),
        ({
            let s = old(game).entities@;
            let player = s[PLAYER as int];
            let item = s[object_id as int];
            if player.inventory@.len() >= 26 {
                &&& final(game).entities@ == s
                &&& final(game).event_bus == old(game).event_bus
                &&& crate::entity::logged_line(
                    old(game).messages@,
                    final(game).messages@,
                    "Your pickets are full - you can't pickup the "@ + item.name@,
                    crate::color::red(),
                )
            } else {
                &&& final(game).entities@.len() == s.len() - 1
                &&& forall|k: int|
                    0 < k < final(game).entities@.len() && k != object_id
                        ==> #[trigger] final(game).entities@[k] == s[k]
                &&& (object_id < s.len() - 1 ==> final(game).entities@[object_id as int] == s[s.len()
                    - 1])
                &&& ({
                    let player1 = final(game).entities@[PLAYER as int];
                    let inv1 = player1.inventory@;
                    &&& player1 == (Entity { inventory: player1.inventory, ..player })
                    &&& inv1.len() == player.inventory@.len() + 1
                    &&& forall|j: int|
                        0 <= j < player.inventory@.len() ==> #[trigger] inv1[j]
                            == player.inventory@[j]
                    &&& ({
                        let picked = inv1[inv1.len() - 1];
                        match item.equipment {
                            Some(q) => if first_equipped_in_slot(
                                player.inventory@.push(item),
                                q.slot,
                            ) is None {
                                picked == toggle_result(item, true)
                            } else {
                                picked == item
                            },
                            None => picked == item,
                        }
                    })
                })
                &&& crate::event::bus_push_shape(old(game).event_bus, final(game).event_bus)
                &&& ({
                    let ev = crate::event::appended_event(
                        old(game).event_bus,
                        final(game).event_bus,
                    );
                    &&& ev.event_type == EventType::PlayerPickupItem
                    &&& ev.data@.len() == 1
                    &&& ev.data@[0].0@ == "item"@
                    &&& (ev.data@[0].1 matches EventData::String(n) && n@ == item.name@)
                })
            }
        }),
{
    proof {
        reveal_strlit("Your pickets are full - you can't pickup the ");
        reveal_strlit("You picked up the ");
        reveal_strlit("item");
    }
    let inventory_full = game.entities[PLAYER].inventory.len() >= 26;
    if inventory_full {
        let mut text = String::from_str("Your pickets are full - you can't pickup the ");
        text.append(game.entities[object_id].name.as_str());
        game.messages.add(text, crate::color::red());
        return ;
    }
    let item = game.entities.swap_remove(object_id);
    let mut text = String::from_str("You picked up the ");
    text.append(item.name.as_str());
    game.messages.add(text, crate::color::green());
    let mut data: Vec<(String, EventData)> = Vec::new();
    data.push((String::from_str("item"), EventData::String(item.name.clone())));
    game.event_bus.add_event(
        GameEvent::from_type_with_data(EventType::PlayerPickupItem, data),
    );
    let index = game.entities[PLAYER].inventory.len();
    let slot = match &item.equipment {
        Some(q) => Some(q.slot),
        None => None,
    };
    {
        let player = &mut game.entities[PLAYER];
        player.inventory.push(item);
    }
    match slot {
        Some(slot) => {
            let free = {
                let player = &game.entities[PLAYER];
                get_equipped_id_in_slot(slot, player.inventory.as_slice()).is_none()
            };
            if free {
                let player = &mut game.entities[PLAYER];
                let entry = &mut player.inventory[index];
                entry.equip(&mut game.messages);
            }
        },
        None => {},
    }
}

/// Takes the item out of the player's inventory slot `inventory_id`, strips
/// its equipped flag, and drops it on the world list at the player's feet.
pub fn drop_item(inventory_id: usize, game: &mut GameEngine)
    requires
        old(game).entities@.len() >= 1,
        inventory_id < old(game).entities@[PLAYER as int].inventory@.len(),
    ensures
        *final(game) == (GameEngine {
            entities: final(game).entities,
            messages: final(game).messages,
            ..*old(game)
        }),
        ({
            let s = old(game).entities@;
            let player = s[PLAYER as int];
            let item = player.inventory@[inventory_id as int];
            let dropped = Entity {
                x: player.x,
                y: player.y,
                ..toggle_result(item, false)
            };
            &&& final(game).entities@.len() == s.len() + 1
            &&& forall|k: int|
                0 < k < s.len() ==> #[trigger] final(game).entities@[k] == s[k]
            &&& final(game).entities@.last() == dropped
            &&& ({
                let player1 = final(game).entities@[PLAYER as int];
                &&& player1 == (Entity { inventory: player1.inventory, ..player })
                &&& player1.inventory@ == player.inventory@.remove(inventory_id as int)
            })
            &&& old(game).messages@.len() < final(game).messages@.len() <= old(
                game,
            ).messages@.len() + 2
            &&& final(game).messages@.last().0@ == "You dropped the "@ + item.name@ + "."@
            &&& final(game).messages@.last().1 == crate::color::yellow()
        }),
{
    proof {
        reveal_strlit("You dropped the ");
        reveal_strlit(".");
    }
    let mut item = {
        let player = &mut game.entities[PLAYER];
        player.inventory.remove(inventory_id)
    };
    if item.equipment.is_some() {
        item.unequip(&mut game.messages);
    }
    let px = game.entities[PLAYER].x;
    let py = game.entities[PLAYER].y;
    item.set_pos(px, py);
    let mut text = String::from_str("You dropped the ");
    text.append(item.name.as_str());
    text.append(".");
    game.messages.add(text, crate::color::yellow());
    game.entities.push(item);
}

/// Drinks a healing potion: restores `HEAL_AMOUNT` hp unless the player is
/// already at the ceiling (or has no fighter), which cancels.
pub fn cast_heal(game: &mut GameEngine) -> (r: crate::item::UseResult)
    requires
        old(game).entities@.len() >= 1,
        fits_i32(spec_max_hp(old(game).entities@[PLAYER as int])),
        old(game).entities@[PLAYER as int].fighter is Some ==> fits_i32(
            old(game).entities@[PLAYER as int].fighter->Some_0.hp + crate::item::HEAL_AMOUNT,
        ),
    ensures
        *final(game) == (GameEngine { entities: final(game).entities, ..*old(game) }),
        ({
            let s = old(game).entities@;
            let player = s[PLAYER as int];
            match player.fighter {
                None => {
                    &&& r == crate::item::UseResult::Cancelled
                    &&& *final(game) == *old(game)
                },
                Some(f) => {
                    let ceiling = spec_max_hp(player);
                    if f.hp == ceiling {
                        &&& r == crate::item::UseResult::Cancelled
                        &&& *final(game) == *old(game)
                    } else {
                        let hp1 = if f.hp + crate::item::HEAL_AMOUNT > ceiling {
                            ceiling
                        } else {
                            f.hp + crate::item::HEAL_AMOUNT
                        };
                        &&& r == crate::item::UseResult::UsedUp
                        &&& final(game).entities@ == s.update(
                            PLAYER as int,
                            Entity {
                                fighter: Some(
                                    crate::fighter::Fighter { hp: hp1 as i32, ..f },
                                ),
                                ..player
                            },
                        )
                    }
                },
            }
        }),
{
    let has_fighter = game.entities[PLAYER].fighter.is_some();
    if !has_fighter {
        return crate::item::UseResult::Cancelled;
    }
    let ceiling = game.entities[PLAYER].max_hp();
    let hp = match &game.entities[PLAYER].fighter {
        Some(f) => f.hp,
        None => 0,
    };
    if hp == ceiling {
        return crate::item::UseResult::Cancelled;
    }
    let player = &mut game.entities[PLAYER];
    player.heal(crate::item::HEAL_AMOUNT);
    crate::item::UseResult::UsedUp
}

/// Whether entity `k` is a live monster the lightning spell may strike: not
/// the player, a fighter with an AI, and visible.
pub open spec fn strikable(s: Seq<Entity>, k: int, vis: crate::visibility::Visibility) -> bool {
    &&& 0 < k < s.len()
    &&& s[k].fighter is Some
    &&& s[k].ai is Some
    &&& spec_in_map_bounds(s[k].x as int, s[k].y as int)
    &&& vis.spec_visible(s[k].x as int, s[k].y as int)
}

/// The squared distance from the player to entity `k`.
pub open spec fn player_dist_sq(s: Seq<Entity>, k: int) -> int {
    dist_sq(s[PLAYER as int].x as int, s[PLAYER as int].y as int, s[k].x as int, s[k].y as int)
}

/// Finds a closest visible monster within `max_range` of the player: some
/// strikable entity strictly inside the range whose distance no other
/// strikable entity beats.
pub fn closest_monster(
    visibility: &crate::visibility::Visibility,
    game: &GameEngine,
    max_range: i32,
) -> (r: Option<usize>)
    requires
        game.entities@.len() >= 1,
        visibility.wf(),
        0 <= max_range,
    ensures
        ({
            let s = game.entities@;
            let limit = (max_range + 1) * (max_range + 1);
            match r {
                Some(i) => {
                    &&& strikable(s, i as int, *visibility)
                    &&& player_dist_sq(s, i as int) < limit
                    &&& forall|j: int|
                        strikable(s, j, *visibility) ==> #[trigger] player_dist_sq(s, j)
                            >= player_dist_sq(s, i as int)
                },
                None => forall|j: int|
                    strikable(s, j, *visibility) ==> #[trigger] player_dist_sq(s, j) >= limit,
            }
        }),
{
    let mut closest_enemy: Option<usize> = None;
    proof {
        assert((max_range as u128 + 1) * (max_range as u128 + 1) == (max_range + 1) * (max_range
            + 1) && (max_range + 1) * (max_range + 1) <= 0x1_0000_0000_0000_0000)
            by (nonlinear_arith)
            requires
                0 <= max_range <= i32::MAX,
        ;
    }
    let limit: u128 = (max_range as u128 + 1) * (max_range as u128 + 1);
    let mut closest_dist: u128 = limit;
    let n = game.entities.len();
    let mut id: usize = 0;
    while id < n
        invariant
            id <= n,
            n == game.entities@.len(),
            game.entities@.len() >= 1,
            visibility.wf(),
            limit == (max_range + 1) * (max_range + 1),
            match closest_enemy {
                Some(i) => {
                    &&& strikable(game.entities@, i as int, *visibility)
                    &&& player_dist_sq(game.entities@, i as int) == closest_dist
                    &&& closest_dist < limit
                    &&& forall|j: int|
                        0 <= j < id && strikable(game.entities@, j, *visibility)
                            ==> #[trigger] player_dist_sq(game.entities@, j) >= closest_dist
                },
                None => {
                    &&& closest_dist == limit
                    &&& forall|j: int|
                        0 <= j < id && strikable(game.entities@, j, *visibility)
                            ==> #[trigger] player_dist_sq(game.entities@, j) >= limit
                },
            },
        decreases n - id,
    {
        let e = &game.entities[id];
        let candidate = id != PLAYER && e.fighter.is_some() && e.ai.is_some()
            && crate::mapgen::in_map_bounds(e.x, e.y) && visibility.is_visible(e.x, e.y);
        proof {
            assert(player_dist_sq(game.entities@, id as int) == dist_sq(
                game.entities@[PLAYER as int].x as int,
                game.entities@[PLAYER as int].y as int,
                game.entities@[id as int].x as int,
                game.entities@[id as int].y as int,
            ));
        }
        if candidate {
            let dist = game.entities[PLAYER].distance_to_squared(&game.entities[id]);
            if dist < closest_dist {
                closest_enemy = Some(id);
                closest_dist = dist;
            }
        }
        id = id + 1;
    }
    closest_enemy
}

/// What one dose of `dmg` damage does to an entity and the bus: the full
/// `take_damage` semantics — hp drops, and a victim whose hp then sits at or
/// below zero dies by its callback, the matching event going on the bus.
pub open spec fn damage_applied(
    e0: Entity,
    e1: Entity,
    dmg: i32,
    b0: EventBus,
    b1: EventBus,
) -> bool {
    match e0.fighter {
        None => e1 == e0 && b1 == b0,
        Some(f) => {
            let f1 = damaged_fighter(f, dmg);
            if f1.hp > 0 {
                &&& e1 == (Entity { fighter: Some(f1), ..e0 })
                &&& b1 == b0
            } else {
                crate::entity::death_outcome(
                    f.on_death,
                    Entity { alive: false, fighter: Some(f1), ..e0 },
                    e1,
                    b0,
                    b1,
                )
            }
        },
    }
}

/// What the lightning bolt did, witnessed by the index it struck: a closest
/// strikable monster strictly inside the range took `LIGHTNING_DAMAGE` (the
/// full damage semantics, death event included), every other non-player
/// entity stands untouched, and the strike line was logged.
pub open spec fn lightning_strike_outcome(
    s: Seq<Entity>,
    vis: crate::visibility::Visibility,
    struck: int,
    s1: Seq<Entity>,
    b0: EventBus,
    b1: EventBus,
    m0: Seq<(String, crate::color::Rgb)>,
    m1: Seq<(String, crate::color::Rgb)>,
    limit: int,
) -> bool {
    &&& strikable(s, struck, vis)
    &&& player_dist_sq(s, struck) < limit
    &&& (forall|j: int|
        strikable(s, j, vis) ==> #[trigger] player_dist_sq(s, j) >= player_dist_sq(s, struck))
    &&& (forall|k: int| 0 < k < s.len() && k != struck ==> #[trigger] s1[k] == s[k])
    &&& damage_applied(s[struck], s1[struck], crate::item::LIGHTNING_DAMAGE, b0, b1)
    &&& crate::entity::logged_line(
        m0,
        m1,
        "A lightning bolt strikes the "@ + s[struck].name@ + "! It deals "@
            + crate::fmt::i32_chars(crate::item::LIGHTNING_DAMAGE) + " points of damage."@,
        crate::color::light_blue(),
    )
}

/// Strikes the closest visible monster within `LIGHTNING_RANGE` for
/// `LIGHTNING_DAMAGE`, crediting any xp reward to the player; with no monster
/// in range the scroll fizzles.
pub fn cast_lightning(
    visibility: &crate::visibility::Visibility,
    game: &mut GameEngine,
) -> (r: crate::item::UseResult)
    requires
        old(game).wf(),
        visibility.wf(),
        ({
            let s = old(game).entities@;
            forall|k: int|
                0 < k < s.len() && (#[trigger] s[k]).fighter is Some ==> s[k].fighter->Some_0.hp
                    - crate::item::LIGHTNING_DAMAGE >= i32::MIN && (old(
                    game,
                ).entities@[PLAYER as int].fighter is Some ==> fits_i32(
                    old(game).entities@[PLAYER as int].fighter->Some_0.xp
                        + s[k].fighter->Some_0.xp,
                ))
        }),
    ensures
        final(game).wf(),
        *final(game) == (GameEngine {
            entities: final(game).entities,
            event_bus: final(game).event_bus,
            messages: final(game).messages,
            ..*old(game)
        }),
        final(game).entities@.len() == old(game).entities@.len(),
        final(game).entities@[PLAYER as int].inventory@ == old(
            game,
        ).entities@[PLAYER as int].inventory@,
        r is UsedUp || r is Cancelled,
        ({
            let s = old(game).entities@;
            let limit = (crate::item::LIGHTNING_RANGE + 1) * (crate::item::LIGHTNING_RANGE + 1);
            if forall|j: int|
                strikable(s, j, *visibility) ==> #[trigger] player_dist_sq(s, j) >= limit {
                &&& r == crate::item::UseResult::Cancelled
                &&& final(game).entities@ == s
                &&& final(game).event_bus == old(game).event_bus
                &&& crate::entity::logged_line(
                    old(game).messages@,
                    final(game).messages@,
                    "No enemies are within range."@,
                    crate::color::red(),
                )
            } else {
                &&& r == crate::item::UseResult::UsedUp
                &&& exists|struck: int|
                    {
                        &&& #[trigger] lightning_strike_outcome(
                            s,
                            *visibility,
                            struck,
                            final(game).entities@,
                            old(game).event_bus,
                            final(game).event_bus,
                            old(game).messages@,
                            final(game).messages@,
                            limit,
                        )
                        &&& ({
                            let f = s[struck].fighter->Some_0;
                            let p = s[PLAYER as int];
                            if f.hp - crate::item::LIGHTNING_DAMAGE <= 0 && p.fighter is Some {
                                final(game).entities@[PLAYER as int] == (Entity {
                                    fighter: Some(
                                        crate::fighter::Fighter {
                                            xp: (p.fighter->Some_0.xp + f.xp) as i32,
                                            ..p.fighter->Some_0
                                        },
                                    ),
                                    ..p
                                })
                            } else {
                                final(game).entities@[PLAYER as int] == p
                            }
                        })
                    }
            }
        }),
{
    proof {
        reveal_strlit("A lightning bolt strikes the ");
        reveal_strlit("! It deals ");
        reveal_strlit(" points of damage.");
        reveal_strlit("No enemies are within range.");
    }
    let monster_id = closest_monster(visibility, game, crate::item::LIGHTNING_RANGE);
    match monster_id {
        Some(monster_id) => {
            let mut text = String::from_str("A lightning bolt strikes the ");
            text.append(game.entities[monster_id].name.as_str());
            text.append("! It deals ");
            let amount = crate::fmt::i32_string(crate::item::LIGHTNING_DAMAGE);
            text.append(amount.as_str());
            text.append(" points of damage.");
            game.messages.add(text, crate::color::light_blue());
            let xp_gain = {
                let monster = &mut game.entities[monster_id];
                monster.take_damage(crate::item::LIGHTNING_DAMAGE, &mut game.event_bus)
            };
            match xp_gain {
                Some(xp) => {
                    let player = &mut game.entities[PLAYER];
                    match &mut player.fighter {
                        Some(f) => {
                            f.xp = f.xp + xp;
                        },
                        None => {},
                    }
                },
                None => {},
            }
            proof {
                let s0 = old(game).entities@;
                let limit = (crate::item::LIGHTNING_RANGE + 1) * (crate::item::LIGHTNING_RANGE
                    + 1);
                assert(damage_applied(
                    s0[monster_id as int],
                    game.entities@[monster_id as int],
                    crate::item::LIGHTNING_DAMAGE,
                    old(game).event_bus,
                    game.event_bus,
                ));
                assert forall|k: int|
                    0 < k < s0.len() && k != monster_id implies #[trigger] game.entities@[k]
                    == s0[k] by {}
                assert(lightning_strike_outcome(
                    s0,
                    *visibility,
                    monster_id as int,
                    game.entities@,
                    old(game).event_bus,
                    game.event_bus,
                    old(game).messages@,
                    game.messages@,
                    limit,
                ));
            }
            crate::item::UseResult::UsedUp
        },
        None => {
            game.messages.add(
                String::from_str("No enemies are within range."),
                crate::color::red(),
            );
            crate::item::UseResult::Cancelled
        },
    }
}

/// Installs confusion on the chosen monster, wrapping whatever behavior it
/// had (a mindless target gains `Basic` underneath); without a target the
/// scroll fizzles.
pub fn cast_confuse(monster_id: Option<usize>, game: &mut GameEngine) -> (r:
    crate::item::UseResult)
    requires
        old(game).entities@.len() >= 1,
        monster_id matches Some(i) ==> i < old(game).entities@.len(),
    ensures
        *final(game) == (GameEngine {
            entities: final(game).entities,
            messages: final(game).messages,
            ..*old(game)
        }),
        match monster_id {
            Some(i) => {
                let s = old(game).entities@;
                let old_ai = match s[i as int].ai {
                    Some(a) => a,
                    None => crate::ai::Ai::Basic,
                };
                &&& r == crate::item::UseResult::UsedUp
                &&& final(game).entities@ == s.update(
                    i as int,
                    Entity {
                        ai: Some(
                            crate::ai::Ai::Confused {
                                previous_ai: Box::new(old_ai),
                                num_turns: crate::item::CONFUSE_NUM_TURNS,
                            },
                        ),
                        ..s[i as int]
                    },
                )
                &&& crate::entity::logged_line(
                    old(game).messages@,
                    final(game).messages@,
                    "The eyes of the "@ + s[i as int].name@
                        + " glaze over, and it starts to stumble around."@,
                    crate::color::light_green(),
                )
            },
            None => {
                &&& r == crate::item::UseResult::Cancelled
                &&& final(game).entities == old(game).entities
                &&& crate::entity::logged_line(
                    old(game).messages@,
                    final(game).messages@,
                    "No enemy is close enough to strike"@,
                    crate::color::red(),
                )
            },
        },
{
    proof {
        reveal_strlit("The eyes of the ");
        reveal_strlit(" glaze over, and it starts to stumble around.");
        reveal_strlit("No enemy is close enough to strike");
    }
    match monster_id {
        Some(monster_id) => {
            let name = game.entities[monster_id].name.clone();
            let old_ai = {
                let monster = &mut game.entities[monster_id];
                let mut slot: Option<crate::ai::Ai> = None;
                core::mem::swap(&mut monster.ai, &mut slot);
                match slot {
                    Some(a) => a,
                    None => crate::ai::Ai::Basic,
                }
            };
            {
                let monster = &mut game.entities[monster_id];
                monster.ai = Some(
                    crate::ai::Ai::Confused {
                        previous_ai: Box::new(old_ai),
                        num_turns: crate::item::CONFUSE_NUM_TURNS,
                    },
                );
            }
            let mut text = String::from_str("The eyes of the ");
            text.append(name.as_str());
            text.append(" glaze over, and it starts to stumble around.");
            game.messages.add(text, crate::color::light_green());
            crate::item::UseResult::UsedUp
        },
        None => {
            game.messages.add(
                String::from_str("No enemy is close enough to strike"),
                crate::color::red(),
            );
            crate::item::UseResult::Cancelled
        },
    }
}

/// Reads out an artifact's name and value; on anything else it reports a
/// mismatch and cancels.
pub fn examine_artifact(inventory_id: usize, game: &mut GameEngine) -> (r: crate::item::UseResult)
    requires
        old(game).entities@.len() >= 1,
        inventory_id < old(game).entities@[PLAYER as int].inventory@.len(),
    ensures
        *final(game) == (GameEngine { messages: final(game).messages, ..*old(game) }),
        ({
            let item = old(game).entities@[PLAYER as int].inventory@[inventory_id as int].item;
            match item {
                Some(crate::item::Item::Artifact { name, value }) => {
                    &&& r == crate::item::UseResult::UsedAndKept
                    &&& crate::entity::logged_line(
                        old(game).messages@,
                        final(game).messages@,
                        "This artifact is named "@ + name@ + " and has a value of "@
                            + crate::fmt::i32_chars(value),
                        crate::color::gold(),
                    )
                },
                Some(_) => {
                    &&& r == crate::item::UseResult::Cancelled
                    &&& final(game).messages@.len() == old(game).messages@.len() + 1
                },
                None => {
                    &&& r == crate::item::UseResult::Cancelled
                    &&& final(game).messages@.len() == old(game).messages@.len() + 1
                },
            }
        }),
{
    proof {
        reveal_strlit("This artifact is named ");
        reveal_strlit(" and has a value of ");
        reveal_strlit("Error: examine_artifact was called with an item that was not an artifact");
        reveal_strlit("Error: examine_artifact was called when there was no item");
    }
    let (name, value) = {
        let player = &game.entities[PLAYER];
        match &player.inventory[inventory_id].item {
            Some(crate::item::Item::Artifact { name, value }) => (Some(name.clone()), *value),
            Some(_) => {
                game.messages.add(
                    String::from_str(
                        "Error: examine_artifact was called with an item that was not an artifact",
                    ),
                    crate::color::dark_red(),
                );
                return crate::item::UseResult::Cancelled;
            },
            None => {
                game.messages.add(
                    String::from_str("Error: examine_artifact was called when there was no item"),
                    crate::color::dark_red(),
                );
                return crate::item::UseResult::Cancelled;
            },
        }
    };
    match name {
        Some(name) => {
            let mut text = String::from_str("This artifact is named ");
            text.append(name.as_str());
            text.append(" and has a value of ");
            let v = crate::fmt::i32_string(value);
            text.append(v.as_str());
            game.messages.add(text, crate::color::gold());
            crate::item::UseResult::UsedAndKept
        },
        None => crate::item::UseResult::Cancelled,
    }
}

/// Whether the fireball centered at `(x, y)` reaches the entity.
pub open spec fn in_blast(e: Entity, x: int, y: int) -> bool {
    dist_sq(e.x as int, e.y as int, x, y) <= crate::item::FIREBALL_RADIUS as int
        * crate::item::FIREBALL_RADIUS as int
}

/// The entity side of taking fireball damage: hp drops by `FIREBALL_DAMAGE`,
/// and a victim whose hp then sits at or below zero dies by its callback.
pub open spec fn burned(e0: Entity, e1: Entity) -> bool {
    match e0.fighter {
        None => e1 == e0,
        Some(f) => {
            let f1 = damaged_fighter(f, crate::item::FIREBALL_DAMAGE);
            if f1.hp > 0 {
                e1 == (Entity { fighter: Some(f1), ..e0 })
            } else {
                let dying = Entity { alive: false, fighter: Some(f1), ..e0 };
                match f.on_death {
                    crate::fighter::DeathCallback::Player => crate::entity::player_death_effect(
                        dying,
                        e1,
                    ),
                    _ => crate::entity::monster_death_effect(dying, e1),
                }
            }
        },
    }
}

/// The xp the fireball at `(x, y)` harvests: the rewards of every non-player
/// victim it kills.
pub open spec fn fireball_xp(s: Seq<Entity>, x: int, y: int) -> int
    decreases s.len(),
{
    if s.len() == 0 {
        0
    } else {
        fireball_xp(s.drop_last(), x, y) + ({
            let k = s.len() - 1;
            let e = s.last();
            if k != PLAYER && e.fighter is Some && in_blast(e, x, y)
                && e.fighter->Some_0.hp - crate::item::FIREBALL_DAMAGE <= 0 {
                e.fighter->Some_0.xp as int
            } else {
                0
            }
        })
    }
}

/// Detonates a fireball at the chosen tile: every fighter within the blast
/// radius, the player included, takes `FIREBALL_DAMAGE`; the xp of every
/// non-player kill is credited to the player.  Without a target the scroll
/// is cancelled after the prompt.
pub fn cast_fireball(target: Option<(i32, i32)>, game: &mut GameEngine) -> (r:
    crate::item::UseResult)
    requires
        old(game).wf(),
        ({
            let s = old(game).entities@;
            target matches Some((x, y)) ==> {
                &&& s[PLAYER as int].fighter is Some
                &&& fits_i32(
                    s[PLAYER as int].fighter->Some_0.xp + fireball_xp(s, x as int, y as int),
                )
                &&& fits_i32(fireball_xp(s, x as int, y as int))
                &&& forall|k: int|
                    0 <= k < s.len() && (#[trigger] s[k]).fighter is Some ==> s[k].fighter->Some_0.hp
                        - crate::item::FIREBALL_DAMAGE >= i32::MIN
                &&& (in_blast(s[PLAYER as int], x as int, y as int)
                    && s[PLAYER as int].fighter->Some_0.hp - crate::item::FIREBALL_DAMAGE <= 0
                    ==> s[PLAYER as int].fighter->Some_0.on_death
                    == crate::fighter::DeathCallback::Player)
            }
        }),
    ensures
        final(game).wf(),
        *final(game) == (GameEngine {
            entities: final(game).entities,
            event_bus: final(game).event_bus,
            messages: final(game).messages,
            ..*old(game)
        }),
        final(game).entities@[PLAYER as int].inventory@ == old(
            game,
        ).entities@[PLAYER as int].inventory@,
        ({
            let s = old(game).entities@;
            match target {
                None => {
                    &&& r == crate::item::UseResult::Cancelled
                    &&& final(game).entities@ == s
                    &&& final(game).event_bus == old(game).event_bus
                    &&& final(game).messages@.len() == old(game).messages@.len() + 1
                },
                Some((x, y)) => {
                    &&& r == crate::item::UseResult::UsedUp
                    &&& final(game).entities@.len() == s.len()
                    &&& forall|k: int|
                        0 < k < s.len() ==> (if (#[trigger] s[k]).fighter is Some && in_blast(
                            s[k],
                            x as int,
                            y as int,
                        ) {
                            burned(s[k], final(game).entities@[k])
                        } else {
                            final(game).entities@[k] == s[k]
                        })
                    &&& ({
                        let player = s[PLAYER as int];
                        let gain = fireball_xp(s, x as int, y as int);
                        exists|pmid: Entity|
                            {
                                &&& #[trigger] burned_or_spared(player, pmid, x as int, y as int)
                                &&& pmid.fighter is Some
                                &&& final(game).entities@[PLAYER as int] == (Entity {
                                    fighter: Some(
                                        crate::fighter::Fighter {
                                            xp: (pmid.fighter->Some_0.xp + gain) as i32,
                                            ..pmid.fighter->Some_0
                                        },
                                    ),
                                    ..pmid
                                })
                            }
                    })
                },
            }
        }),
{
    proof {
        reveal_strlit("Left-click a tile to cast a fireball at it; right-click or Esc to cancel");
        reveal_strlit("The fireball explodes, burning everything within ");
        reveal_strlit(" tiles.");
        reveal_strlit("The ");
        reveal_strlit(" gets burned for ");
        reveal_strlit(" hit points.");
    }
    game.messages.add(
        String::from_str(
            "Left-click a tile to cast a fireball at it; right-click or Esc to cancel",
        ),
        crate::color::light_cyan(),
    );
    let (x, y) = match target {
        Some(t) => t,
        None => {
            return crate::item::UseResult::Cancelled;
        },
    };
    let mut text = String::from_str("The fireball explodes, burning everything within ");
    let radius = crate::fmt::i32_string(crate::item::FIREBALL_RADIUS);
    text.append(radius.as_str());
    text.append(" tiles.");
    game.messages.add(text, crate::color::orange());
    let ghost s0 = game.entities@;
    let mut xp_to_gain: i128 = 0;
    let n = game.entities.len();
    let mut id: usize = 0;
    while id < n
        invariant
            old(game).wf(),
            n == game.entities@.len(),
            n == s0.len(),
            id <= n,
            game.event_bus.wf(),
            *game == (GameEngine {
                entities: game.entities,
                event_bus: game.event_bus,
                messages: game.messages,
                ..*old(game)
            }),
            xp_to_gain == fireball_xp(s0.take(id as int), x as int, y as int),
            -0x8000_0000_i128 * (id as i128) <= xp_to_gain <= 0x8000_0000_i128 * (id as i128),
            game.entities@.len() >= 1,
            crate::engine::head_ok(
                game.event_bus,
                game.processors.audio.event_bus_reader.head as int,
            ),
            crate::engine::head_ok(
                game.event_bus,
                game.processors.responder.event_bus_reader.head as int,
            ),
            crate::engine::head_ok(
                game.event_bus,
                game.processors.logger.event_bus_reader.head as int,
            ),
            crate::mapgen::map_wf(game.map),
            forall|k: int|
                id <= k < n ==> #[trigger] game.entities@[k] == s0[k],
            forall|k: int|
                0 < k < id ==> (if (#[trigger] s0[k]).fighter is Some && in_blast(
                    s0[k],
                    x as int,
                    y as int,
                ) {
                    burned(s0[k], game.entities@[k])
                } else {
                    game.entities@[k] == s0[k]
                }),
            0 < id ==> burned_or_spared(
                s0[PLAYER as int],
                game.entities@[PLAYER as int],
                x as int,
                y as int,
            ),
            0 < id && s0[PLAYER as int].fighter is Some
                ==> game.entities@[PLAYER as int].fighter is Some
                && game.entities@[PLAYER as int].fighter->Some_0.xp
                == s0[PLAYER as int].fighter->Some_0.xp,
            forall|k: int|
                0 <= k < n && (#[trigger] s0[k]).fighter is Some ==> s0[k].fighter->Some_0.hp
                    - crate::item::FIREBALL_DAMAGE >= i32::MIN,
            (in_blast(s0[PLAYER as int], x as int, y as int) && s0[PLAYER as int].fighter is Some
                && s0[PLAYER as int].fighter->Some_0.hp - crate::item::FIREBALL_DAMAGE <= 0
                ==> s0[PLAYER as int].fighter->Some_0.on_death
                == crate::fighter::DeathCallback::Player),
        decreases n - id,
    {
        proof {
            assert(s0.take(id + 1).drop_last() =~= s0.take(id as int));
            assert(s0.take(id + 1).last() == s0[id as int]);
        }
        let radius_sq: u128 = {
            let rad = crate::item::FIREBALL_RADIUS;
            proof {
                assert(0 <= rad as u128 * (rad as u128) <= 0x10000 && rad as u128 * (rad as u128)
                    == rad as int * rad as int) by (nonlinear_arith)
                    requires
                        0 <= rad <= 100,
                ;
            }
            (rad as u128) * (rad as u128)
        };
        let affected = {
            let e = &game.entities[id];
            e.distance_squared(x, y) <= radius_sq && e.fighter.is_some()
        };
        if affected {
            let mut text = String::from_str("The ");
            text.append(game.entities[id].name.as_str());
            text.append(" gets burned for ");
            let amount = crate::fmt::i32_string(crate::item::FIREBALL_DAMAGE);
            text.append(amount.as_str());
            text.append(" hit points.");
            game.messages.add(text, crate::color::orange());
            let xp_gain = {
                let e = &mut game.entities[id];
                e.take_damage(crate::item::FIREBALL_DAMAGE, &mut game.event_bus)
            };
            match xp_gain {
                Some(xp) => {
                    if id != PLAYER {
                        xp_to_gain = xp_to_gain + xp as i128;
                    }
                },
                None => {},
            }
        }
        id = id + 1;
    }
    proof {
        assert(s0.take(n as int) =~= s0);
    }
    let player = &mut game.entities[PLAYER];
    match &mut player.fighter {
        Some(f) => {
            f.xp = (f.xp as i64 + xp_to_gain as i64) as i32;
        },
        None => {
            proof {
                assert(false);
            }
        },
    }
    crate::item::UseResult::UsedUp
}

/// The player either stood outside the blast (unchanged) or took its damage.
pub open spec fn burned_or_spared(e0: Entity, e1: Entity, x: int, y: int) -> bool {
    if e0.fighter is Some && in_blast(e0, x, y) {
        burned(e0, e1)
    } else {
        e1 == e0
    }
}

/// What using the item in the player's inventory slot `inventory_id` asks of
/// the caller: the preconditions of the effect it dispatches to.
pub open spec fn use_item_requires(
    g: GameEngine,
    inventory_id: int,
    fireball_target: Option<(i32, i32)>,
    confuse_target: Option<usize>,
) -> bool {
    let s = g.entities@;
    let player = s[PLAYER as int];
    match player.inventory@[inventory_id].item {
        None => true,
        Some(crate::item::Item::Heal) => {
            &&& fits_i32(spec_max_hp(player))
            &&& (player.fighter is Some ==> fits_i32(
                player.fighter->Some_0.hp + crate::item::HEAL_AMOUNT,
            ))
        },
        Some(crate::item::Item::Lightning) => forall|k: int|
            0 < k < s.len() && (#[trigger] s[k]).fighter is Some ==> s[k].fighter->Some_0.hp
                - crate::item::LIGHTNING_DAMAGE >= i32::MIN && (player.fighter is Some
                ==> fits_i32(player.fighter->Some_0.xp + s[k].fighter->Some_0.xp)),
        Some(crate::item::Item::Confuse) => confuse_target matches Some(i) ==> i < s.len(),
        Some(crate::item::Item::Fireball) => fireball_target matches Some((x, y)) ==> {
            &&& player.fighter is Some
            &&& fits_i32(player.fighter->Some_0.xp + fireball_xp(s, x as int, y as int))
            &&& fits_i32(fireball_xp(s, x as int, y as int))
            &&& forall|k: int|
                0 <= k < s.len() && (#[trigger] s[k]).fighter is Some ==> s[k].fighter->Some_0.hp
                    - crate::item::FIREBALL_DAMAGE >= i32::MIN
            &&& (in_blast(player, x as int, y as int) && player.fighter->Some_0.hp
                - crate::item::FIREBALL_DAMAGE <= 0 ==> player.fighter->Some_0.on_death
                == crate::fighter::DeathCallback::Player)
        },
        Some(_) => true,
    }
}

/// Uses the item in the player's inventory slot `inventory_id`, dispatching
/// on its kind; a used-up item leaves the inventory, a kept one stays, a
/// cancelled use only logs.  Targeting input for fireball and confusion
/// scrolls comes from the caller.
pub fn use_item(
    inventory_id: usize,
    game: &mut GameEngine,
    visibility: &crate::visibility::Visibility,
    fireball_target: Option<(i32, i32)>,
    confuse_target: Option<usize>,
)
    requires
        old(game).wf(),
        visibility.wf(),
        inventory_id < old(game).entities@[PLAYER as int].inventory@.len(),
        use_item_requires(*old(game), inventory_id as int, fireball_target, confuse_target),
    ensures
        final(game).wf(),
        *final(game) == (GameEngine {
            entities: final(game).entities,
            event_bus: final(game).event_bus,
            messages: final(game).messages,
            ..*old(game)
        }),
        ({
            let inv = old(game).entities@[PLAYER as int].inventory@;
            let inv1 = final(game).entities@[PLAYER as int].inventory@;
            inv1.len() == inv.len() || inv1 == inv.remove(inventory_id as int)
        }),
        ({
            let s = old(game).entities@;
            let player = s[PLAYER as int];
            let inv = player.inventory@;
            let inv1 = final(game).entities@[PLAYER as int].inventory@;
            let consumed = inv1 == inv.remove(inventory_id as int) && inv1.len() == inv.len() - 1;
            match inv[inventory_id as int].item {
                None => {
                    &&& *final(game) == (GameEngine {
                        messages: final(game).messages,
                        ..*old(game)
                    })
                    &&& crate::entity::logged_line(
                        old(game).messages@,
                        final(game).messages@,
                        "The "@ + inv[inventory_id as int].name@ + " cannot be used."@,
                        crate::color::white(),
                    )
                },
                Some(crate::item::Item::Heal) => {
                    let healable = player.fighter is Some && player.fighter->Some_0.hp
                        != spec_max_hp(player);
                    &&& consumed == healable
                    &&& (healable ==> final(game).entities@[PLAYER as int].fighter->Some_0.hp
                        == ({
                        let f = player.fighter->Some_0;
                        let ceiling = spec_max_hp(player);
                        if f.hp + crate::item::HEAL_AMOUNT > ceiling {
                            ceiling
                        } else {
                            f.hp + crate::item::HEAL_AMOUNT
                        }
                    }))
                },
                Some(crate::item::Item::Lightning) => {
                    let limit = (crate::item::LIGHTNING_RANGE + 1) * (crate::item::LIGHTNING_RANGE
                        + 1);
                    &&& consumed == !(forall|j: int|
                        strikable(s, j, *visibility) ==> #[trigger] player_dist_sq(s, j) >= limit)
                    &&& (consumed ==> exists|struck: int|
                        #[trigger] lightning_strike_outcome(
                            s,
                            *visibility,
                            struck,
                            final(game).entities@,
                            old(game).event_bus,
                            final(game).event_bus,
                            old(game).messages@,
                            final(game).messages@,
                            limit,
                        ))
                },
                Some(crate::item::Item::Confuse) => {
                    &&& consumed == confuse_target is Some
                    &&& (confuse_target matches Some(i) ==> final(game).entities@[i as int].ai
                        == Some(
                        crate::ai::Ai::Confused {
                            previous_ai: Box::new(
                                match s[i as int].ai {
                                    Some(a) => a,
                                    None => crate::ai::Ai::Basic,
                                },
                            ),
                            num_turns: crate::item::CONFUSE_NUM_TURNS,
                        },
                    ))
                },
                Some(crate::item::Item::Fireball) => consumed == fireball_target is Some,
                Some(_) => !consumed,
            }
        }),
{
    proof {
        reveal_strlit("The ");
        reveal_strlit(" cannot be used.");
        reveal_strlit("Cancelled");
    }
    let kind = {
        let player = &game.entities[PLAYER];
        match &player.inventory[inventory_id].item {
            Some(crate::item::Item::Heal) => 1u8,
            Some(crate::item::Item::Lightning) => 2u8,
            Some(crate::item::Item::Confuse) => 3u8,
            Some(crate::item::Item::Fireball) => 4u8,
            Some(crate::item::Item::Artifact { .. }) => 5u8,
            Some(crate::item::Item::Sword) => 6u8,
            Some(crate::item::Item::Shield) => 6u8,
            None => 0u8,
        }
    };
    if kind == 0 {
        let mut text = String::from_str("The ");
        let name = {
            let player = &game.entities[PLAYER];
            player.inventory[inventory_id].name.clone()
        };
        text.append(name.as_str());
        text.append(" cannot be used.");
        game.messages.add(text, crate::color::white());
        return ;
    }
    let result = if kind == 1 {
        cast_heal(game)
    } else if kind == 2 {
        cast_lightning(visibility, game)
    } else if kind == 3 {
        cast_confuse(confuse_target, game)
    } else if kind == 4 {
        cast_fireball(fireball_target, game)
    } else if kind == 5 {
        examine_artifact(inventory_id, game)
    } else {
        toggle_equipment(inventory_id, game)
    };
    let ghost mid_state = *game;
    match result {
        crate::item::UseResult::UsedUp => {
            let still_there = {
                let player = &game.entities[PLAYER];
                inventory_id < player.inventory.len()
            };
            if still_there {
                let player = &mut game.entities[PLAYER];
                player.inventory.remove(inventory_id);
            }
        },
        crate::item::UseResult::UsedAndKept => {},
        crate::item::UseResult::Cancelled => {
            game.messages.add(String::from_str("Cancelled"), crate::color::white());
        },
    }
    proof {
        if kind == 2 {
            let s0 = old(game).entities@;
            let limit = (crate::item::LIGHTNING_RANGE + 1) * (crate::item::LIGHTNING_RANGE + 1);
            if !(forall|j: int|
                strikable(s0, j, *visibility) ==> #[trigger] player_dist_sq(s0, j) >= limit) {
                let struck = choose|struck: int|
                    #[trigger] lightning_strike_outcome(
                        s0,
                        *visibility,
                        struck,
                        mid_state.entities@,
                        old(game).event_bus,
                        mid_state.event_bus,
                        old(game).messages@,
                        mid_state.messages@,
                        limit,
                    );
                assert forall|k: int|
                    0 < k < s0.len() && k != struck implies #[trigger] game.entities@[k]
                    == mid_state.entities@[k] by {}
                assert(lightning_strike_outcome(
                    s0,
                    *visibility,
                    struck,
                    game.entities@,
                    old(game).event_bus,
                    game.event_bus,
                    old(game).messages@,
                    game.messages@,
                    limit,
                ));
            }
        }
    }
}

/// Advances the run one dungeon level: the player rests back to half of
/// their hp ceiling, the depth counter rises, and the algorithm the
/// level-type table selects builds the next map in place.
pub fn next_level(game: &mut GameEngine)
    requires
        old(game).wf(),
        old(game).dungeon_level < u32::MAX,
        0 <= spec_max_hp(old(game).entities@[PLAYER as int]) <= i32::MAX,
        old(game).entities@[PLAYER as int].fighter is Some ==> fits_i32(
            old(game).entities@[PLAYER as int].fighter->Some_0.hp + spec_max_hp(
                old(game).entities@[PLAYER as int],
            ) / 2,
        ),
    ensures
        final(game).wf(),
        final(game).dungeon_level == old(game).dungeon_level + 1,
        *final(game) == (GameEngine {
            entities: final(game).entities,
            messages: final(game).messages,
            dungeon_level: final(game).dungeon_level,
            map: final(game).map,
            ..*old(game)
        }),
        final(game).messages@.len() == old(game).messages@.len() + 2,
        ({
            let player = old(game).entities@[PLAYER as int];
            let rested = match player.fighter {
                None => player,
                Some(f) => {
                    let ceiling = spec_max_hp(player);
                    let hp1 = if f.hp + ceiling / 2 > ceiling {
                        ceiling
                    } else {
                        f.hp + ceiling / 2
                    };
                    Entity { fighter: Some(crate::fighter::Fighter { hp: hp1 as i32, ..f }), ..player }
                },
            };
            if crate::mapgen::spec_level_type(final(game).dungeon_level) == 1 {
                crate::mapgen::boss_level_ok(rested, final(game).entities@, final(game).map)
            } else {
                crate::mapgen::generated_level_ok(rested, final(game).entities@, final(game).map)
            }
        }),
{
    proof {
        reveal_strlit("You rest for a minute and recover your strength");
        reveal_strlit("You descend deeper into the dungeon ...");
    }
    game.messages.add(
        String::from_str("You rest for a minute and recover your strength"),
        crate::color::violet(),
    );
    let heal_hp = game.entities[PLAYER].max_hp() / 2;
    {
        let player = &mut game.entities[PLAYER];
        player.heal(heal_hp);
    }
    game.messages.add(
        String::from_str("You descend deeper into the dungeon ..."),
        crate::color::red(),
    );
    game.dungeon_level = game.dungeon_level + 1;
    let dungeon_level = game.dungeon_level;
    let level_type_tbl = crate::mapgen::level_type_table();
    let level_type = crate::transition::from_dungeon_level(
        level_type_tbl.as_slice(),
        dungeon_level,
    );
    let new_map = if level_type == 1 {
        crate::mapgen::make_boss_map(game, dungeon_level)
    } else {
        crate::mapgen::make_map(game, dungeon_level)
    };
    game.map = new_map;
}

/// An entity found standing at a fighter's square shares its coordinates, so
/// a square no `i32` can address holds no fighter.
proof fn lemma_no_fighter_outside_i32(s: Seq<Entity>, x: int, y: int)
    requires
        !fits_i32(x) || !fits_i32(y),
    ensures
        first_fighter_at(s, x, y) is None,
    decreases s.len(),
{
    if s.len() > 0 {
        lemma_no_fighter_outside_i32(s.drop_first(), x, y);
    }
}

/// The entity `first_fighter_at` names is in range, bears a fighter and
/// stands at the queried square; no entity before it does all three.
proof fn lemma_first_fighter_at_props(s: Seq<Entity>, x: int, y: int, i: int)
    requires
        first_fighter_at(s, x, y) == Some(i),
    ensures
        0 <= i < s.len(),
        s[i].fighter is Some,
        s[i].x == x,
        s[i].y == y,
    decreases s.len(),
{
    if s.len() > 0 {
        if s.first().fighter is Some && s.first().x == x && s.first().y == y {
        } else {
            lemma_first_fighter_at_props(s.drop_first(), x, y, i - 1);
        }
    }
}

} // verus!
