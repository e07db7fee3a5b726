//! The procedural level generator and map queries.
//!
//! A standard level carves randomly sampled rooms into a wall-filled grid,
//! joins consecutive room centers with L-shaped tunnels, populates each room
//! with depth-scaled monsters and items, and drops the stairs at the last
//! room's center.  A boss level is one full-map room with a single scripted
//! threat at its center.

use vstd::prelude::*;
use crate::ai::Ai;
use crate::entity::Entity;
use crate::equipment::{Equipment, Slot};
use crate::fighter::{DeathCallback, Fighter};
use crate::item::Item;
use crate::tile::{fresh_of_kind, Tile, TileType};
use crate::transition::{from_dungeon_level, Transition};

verus! {

pub const MAP_WIDTH: i32 = 80;
pub const MAP_HEIGHT: i32 = 68;

pub const ROOM_MAX_SIZE: i32 = 10;
pub const ROOM_MIN_SIZE: i32 = 6;
pub const MAX_ROOMS: i32 = 32;

/// The grid of tiles, indexed `map[x][y]`.
pub type DungeonMap = Vec<Vec<Tile>>;

/// The map is a full `MAP_WIDTH` by `MAP_HEIGHT` grid.
pub open spec fn map_wf(m: DungeonMap) -> bool {
    &&& m@.len() == MAP_WIDTH
    &&& forall|x: int| 0 <= x < m@.len() ==> #[trigger] m@[x]@.len() == MAP_HEIGHT
}

/// The tile at `(x, y)`.
pub open spec fn tile_at(m: DungeonMap, x: int, y: int) -> Tile {
    m@[x]@[y]
}

/// Whether `(x, y)` lies on the map.
pub open spec fn spec_in_map_bounds(x: int, y: int) -> bool {
    0 <= x < MAP_WIDTH && 0 <= y < MAP_HEIGHT
}

pub fn in_map_bounds(x: i32, y: i32) -> (r: bool)
    ensures
        r == spec_in_map_bounds(x as int, y as int),
{
    0 <= x && x < MAP_WIDTH && 0 <= y && y < MAP_HEIGHT
}

/// An axis-aligned room: `x1`/`y1` inclusive wall corner, `x2`/`y2` the
/// opposite wall corner, interior strictly between them.
#[derive(Clone, Copy, Debug, PartialEq, Eq, Structural)]
pub struct Rect {
    pub x1: i32,
    pub y1: i32,
    pub x2: i32,
    pub y2: i32,
}

/// Whether `(x, y)` lies strictly inside `r`'s walls.
pub open spec fn in_room_interior(r: Rect, x: int, y: int) -> bool {
    r.x1 < x < r.x2 && r.y1 < y < r.y2
}

impl Rect {
    pub fn new(x: i32, y: i32, w: i32, h: i32) -> (r: Rect)
        requires
            crate::entity::fits_i32(x + w),
            crate::entity::fits_i32(y + h),
        ensures
            r == (Rect { x1: x, y1: y, x2: (x + w) as i32, y2: (y + h) as i32 }),
    {
        Rect { x1: x, y1: y, x2: x + w, y2: y + h }
    }

    /// The room's center point.
    pub fn center(&self) -> (r: (i32, i32))
        requires
            0 <= self.x1 + self.x2,
            0 <= self.y1 + self.y2,
        ensures
            r.0 == (self.x1 + self.x2) as int / 2,
            r.1 == (self.y1 + self.y2) as int / 2,
    {
        let cx = ((self.x1 as i64 + self.x2 as i64) / 2) as i32;
        let cy = ((self.y1 as i64 + self.y2 as i64) / 2) as i32;
        (cx, cy)
    }

    /// Whether two rooms touch or overlap.
    pub fn intersects_with(&self, other: &Rect) -> (r: bool)
        ensures
            r == (self.x1 <= other.x2 && self.x2 >= other.x1 && self.y1 <= other.y2 && self.y2
                >= other.y1),
    {
        (self.x1 <= other.x2) && (self.x2 >= other.x1) && (self.y1 <= other.y2) && (self.y2
            >= other.y1)
    }
}

/// Overwrites the tile at `(x, y)`.
fn set_tile(map: &mut DungeonMap, x: usize, y: usize, t: Tile)
    requires
        map_wf(*old(map)),
        x < MAP_WIDTH,
        y < MAP_HEIGHT,
    ensures
        map_wf(*final(map)),
        tile_at(*final(map), x as int, y as int) == t,
        forall|i: int, j: int|
            spec_in_map_bounds(i, j) && !(i == x && j == y) ==> tile_at(*final(map), i, j)
                == tile_at(*old(map), i, j),
{
    let column = &mut map[x];
    column[y] = t;
}

/// Carves the interior of `room` to ground; everything else is untouched.
pub fn create_room(room: Rect, map: &mut DungeonMap)
    requires
        map_wf(*old(map)),
        room.x2 <= MAP_WIDTH,
        room.y2 <= MAP_HEIGHT,
        0 <= room.x1 <= room.x2,
        0 <= room.y1 <= room.y2,
    ensures
        map_wf(*final(map)),
        forall|i: int, j: int|
            spec_in_map_bounds(i, j) && in_room_interior(room, i, j) ==> fresh_of_kind(
                #[trigger] tile_at(*final(map), i, j),
                TileType::Ground,
            ),
        forall|i: int, j: int|
            spec_in_map_bounds(i, j) && !in_room_interior(room, i, j) ==> #[trigger] tile_at(
                *final(map),
                i,
                j,
            ) == tile_at(*old(map), i, j),
{
    let mut x = room.x1 + 1;
    while x < room.x2
        invariant
            map_wf(*map),
            room.x1 < x,
            x <= room.x2 + 1,
            room.x2 <= MAP_WIDTH,
            room.y2 <= MAP_HEIGHT,
            0 <= room.x1 <= room.x2,
            0 <= room.y1 <= room.y2,
            forall|i: int, j: int|
                spec_in_map_bounds(i, j) && in_room_interior(room, i, j) && i < x
                    ==> fresh_of_kind(#[trigger] tile_at(*map, i, j), TileType::Ground),
            forall|i: int, j: int|
                spec_in_map_bounds(i, j) && !(in_room_interior(room, i, j) && i < x)
                    ==> #[trigger] tile_at(*map, i, j) == tile_at(*old(map), i, j),
        decreases room.x2 - x,
    {
        let mut y = room.y1 + 1;
        while y < room.y2
            invariant
                map_wf(*map),
                room.x1 < x < room.x2 <= MAP_WIDTH,
                room.y1 < y,
                y <= room.y2 + 1,
                room.y2 <= MAP_HEIGHT,
                0 <= room.x1 <= room.x2,
                0 <= room.y1 <= room.y2,
                forall|i: int, j: int|
                    spec_in_map_bounds(i, j) && in_room_interior(room, i, j) && (i < x || (i == x
                        && j < y)) ==> fresh_of_kind(
                        #[trigger] tile_at(*map, i, j),
                        TileType::Ground,
                    ),
                forall|i: int, j: int|
                    spec_in_map_bounds(i, j) && !(in_room_interior(room, i, j) && (i < x || (i == x
                        && j < y))) ==> #[trigger] tile_at(*map, i, j) == tile_at(*old(map), i, j),
            decreases room.y2 - y,
        {
            let t = Tile::ground();
            set_tile(map, x as usize, y as usize, t);
            y = y + 1;
        }
        x = x + 1;
    }
}

/// Whether `(i, j)` lies on the horizontal segment at row `y` between `x1`
/// and `x2` (inclusive, either order).
pub open spec fn on_h_segment(x1: int, x2: int, y: int, i: int, j: int) -> bool {
    vstd::math::min(x1, x2) <= i <= vstd::math::max(x1, x2) && j == y
}

/// Carves a horizontal tunnel between `x1` and `x2` at row `y`.
pub fn create_h_tunnel(x1: i32, x2: i32, y: i32, map: &mut DungeonMap)
    requires
        map_wf(*old(map)),
        0 <= x1 < MAP_WIDTH,
        0 <= x2 < MAP_WIDTH,
        0 <= y < MAP_HEIGHT,
    ensures
        map_wf(*final(map)),
        forall|i: int, j: int|
            spec_in_map_bounds(i, j) && on_h_segment(x1 as int, x2 as int, y as int, i, j)
                ==> fresh_of_kind(#[trigger] tile_at(*final(map), i, j), TileType::Ground),
        forall|i: int, j: int|
            spec_in_map_bounds(i, j) && !on_h_segment(x1 as int, x2 as int, y as int, i, j)
                ==> #[trigger] tile_at(*final(map), i, j) == tile_at(*old(map), i, j),
{
    let lo = if x1 < x2 {
        x1
    } else {
        x2
    };
    let hi = if x1 < x2 {
        x2
    } else {
        x1
    };
    let mut x = lo;
    while x <= hi
        invariant
            map_wf(*map),
            lo <= x,
            x <= hi + 1,
            lo == vstd::math::min(x1 as int, x2 as int),
            hi == vstd::math::max(x1 as int, x2 as int),
            0 <= lo,
            hi < MAP_WIDTH,
            0 <= y < MAP_HEIGHT,
            forall|i: int, j: int|
                spec_in_map_bounds(i, j) && on_h_segment(x1 as int, x2 as int, y as int, i, j) && i
                    < x ==> fresh_of_kind(#[trigger] tile_at(*map, i, j), TileType::Ground),
            forall|i: int, j: int|
                spec_in_map_bounds(i, j) && !(on_h_segment(x1 as int, x2 as int, y as int, i, j)
                    && i < x) ==> #[trigger] tile_at(*map, i, j) == tile_at(*old(map), i, j),
        decreases hi + 1 - x,
    {
        let t = Tile::ground();
        set_tile(map, x as usize, y as usize, t);
        x = x + 1;
    }
}

/// Whether `(i, j)` lies on the vertical segment at column `x` between `y1`
/// and `y2` (inclusive, either order).
pub open spec fn on_v_segment(y1: int, y2: int, x: int, i: int, j: int) -> bool {
    vstd::math::min(y1, y2) <= j <= vstd::math::max(y1, y2) && i == x
}

/// Carves a vertical tunnel between `y1` and `y2` at column `x`.
pub fn create_v_tunnel(y1: i32, y2: i32, x: i32, map: &mut DungeonMap)
    requires
        map_wf(*old(map)),
        0 <= y1 < MAP_HEIGHT,
        0 <= y2 < MAP_HEIGHT,
        0 <= x < MAP_WIDTH,
    ensures
        map_wf(*final(map)),
        forall|i: int, j: int|
            spec_in_map_bounds(i, j) && on_v_segment(y1 as int, y2 as int, x as int, i, j)
                ==> fresh_of_kind(#[trigger] tile_at(*final(map), i, j), TileType::Ground),
        forall|i: int, j: int|
            spec_in_map_bounds(i, j) && !on_v_segment(y1 as int, y2 as int, x as int, i, j)
                ==> #[trigger] tile_at(*final(map), i, j) == tile_at(*old(map), i, j),
{
    let lo = if y1 < y2 {
        y1
    } else {
        y2
    };
    let hi = if y1 < y2 {
        y2
    } else {
        y1
    };
    let mut y = lo;
    while y <= hi
        invariant
            map_wf(*map),
            lo <= y,
            y <= hi + 1,
            lo == vstd::math::min(y1 as int, y2 as int),
            hi == vstd::math::max(y1 as int, y2 as int),
            0 <= lo,
            hi < MAP_HEIGHT,
            0 <= x < MAP_WIDTH,
            forall|i: int, j: int|
                spec_in_map_bounds(i, j) && on_v_segment(y1 as int, y2 as int, x as int, i, j) && j
                    < y ==> fresh_of_kind(#[trigger] tile_at(*map, i, j), TileType::Ground),
            forall|i: int, j: int|
                spec_in_map_bounds(i, j) && !(on_v_segment(y1 as int, y2 as int, x as int, i, j)
                    && j < y) ==> #[trigger] tile_at(*map, i, j) == tile_at(*old(map), i, j),
        decreases hi + 1 - y,
    {
        let t = Tile::ground();
        set_tile(map, x as usize, y as usize, t);
        y = y + 1;
    }
}

/// Builds a transition table from `(level, value)` pairs.
fn table_of(entries: &[(u32, u32)]) -> (r: Vec<Transition>)
    ensures
        r@.len() == entries@.len(),
        forall|i: int|
            0 <= i < r@.len() ==> #[trigger] r@[i] == (Transition {
                level: entries@[i].0,
                value: entries@[i].1,
            }),
{
    let n = entries.len();
    let mut r: Vec<Transition> = Vec::new();
    let mut i: usize = 0;
    while i < n
        invariant
            i <= n,
            n == entries@.len(),
            r@.len() == i,
            forall|k: int|
                0 <= k < i ==> #[trigger] r@[k] == (Transition {
                    level: entries@[k].0,
                    value: entries@[k].1,
                }),
        decreases n - i,
    {
        r.push(Transition { level: entries[i].0, value: entries[i].1 });
        i = i + 1;
    }
    r
}

/// The per-room monster cap by dungeon depth.
pub fn max_monsters_table() -> (r: Vec<Transition>)
    ensures
        r@ =~= seq![
            Transition { level: 1, value: 2 },
            Transition { level: 4, value: 3 },
            Transition { level: 6, value: 5 },
        ],
{
    table_of(&[(1, 2), (4, 3), (6, 5)])
}

/// The troll spawn weight by dungeon depth.
pub fn troll_chance_table() -> (r: Vec<Transition>)
    ensures
        r@ =~= seq![
            Transition { level: 3, value: 15 },
            Transition { level: 5, value: 30 },
            Transition { level: 7, value: 60 },
        ],
{
    table_of(&[(3, 15), (5, 30), (7, 60)])
}

/// The skeleton spawn weight by dungeon depth.
pub fn skeleton_chance_table() -> (r: Vec<Transition>)
    ensures
        r@ =~= seq![
            Transition { level: 3, value: 5 },
            Transition { level: 5, value: 10 },
            Transition { level: 7, value: 30 },
        ],
{
    table_of(&[(3, 5), (5, 10), (7, 30)])
}

/// The spectre spawn weight by dungeon depth.
pub fn spectre_chance_table() -> (r: Vec<Transition>)
    ensures
        r@ =~= seq![
            Transition { level: 6, value: 10 },
            Transition { level: 8, value: 30 },
            Transition { level: 10, value: 70 },
        ],
{
    table_of(&[(6, 10), (8, 30), (10, 70)])
}

/// The per-room item cap by dungeon depth.
pub fn max_items_table() -> (r: Vec<Transition>)
    ensures
        r@ =~= seq![Transition { level: 1, value: 1 }, Transition { level: 4, value: 2 }],
{
    table_of(&[(1, 1), (4, 2)])
}

/// Whether room overlap is allowed, by dungeon depth.
pub fn room_overlap_table() -> (r: Vec<Transition>)
    ensures
        r@ =~= seq![Transition { level: 3, value: 1 }],
{
    table_of(&[(3, 1)])
}

/// Which level algorithm runs at each dungeon depth (0: standard, 1: boss).
pub fn level_type_table() -> (r: Vec<Transition>)
    ensures
        r@ =~= seq![
            Transition { level: 1, value: 0 },
            Transition { level: 2, value: 1 },
            Transition { level: 3, value: 0 },
            Transition { level: 10, value: 2 },
        ],
{
    table_of(&[(1, 0), (2, 1), (3, 0), (10, 2)])
}

/// Whether `(x, y)` cannot be stepped onto: the tile blocks, or some blocking
/// entity stands there.
pub open spec fn spec_is_blocked(m: DungeonMap, entities: Seq<Entity>, x: int, y: int) -> bool {
    tile_at(m, x, y).blocked || exists|i: int|
        0 <= i < entities.len() && (#[trigger] entities[i]).blocks && entities[i].x == x
            && entities[i].y == y
}

pub fn is_blocked(x: i32, y: i32, map: &DungeonMap, entity: &[Entity]) -> (r: bool)
    requires
        map_wf(*map),
        spec_in_map_bounds(x as int, y as int),
    ensures
        r == spec_is_blocked(*map, entity@, x as int, y as int),
{
    if map[x as usize][y as usize].blocked {
        return true;
    }
    let n = entity.len();
    let mut i: usize = 0;
    while i < n
        invariant
            i <= n,
            n == entity@.len(),
            forall|k: int|
                0 <= k < i ==> !((#[trigger] entity@[k]).blocks && entity@[k].x == x && entity@[k].y
                    == y),
        decreases n - i,
    {
        let e = &entity[i];
        if e.blocks && e.x == x && e.y == y {
            return true;
        }
        i = i + 1;
    }
    false
}

/// None of the spawnable monster or item names is the stairs' name.
proof fn lemma_spawn_names_not_stairs()
    ensures
        "Skeleton"@ != "stairs"@,
        "Troll"@ != "stairs"@,
        "Orc"@ != "stairs"@,
        "Spectre"@ != "stairs"@,
        "health potion"@ != "stairs"@,
        "scroll of lightning bolt"@ != "stairs"@,
        "scroll of firball"@ != "stairs"@,
        "scroll of confusion"@ != "stairs"@,
        "artifact"@ != "stairs"@,
        "sword"@ != "stairs"@,
        "shield"@ != "stairs"@,
{
    reveal_strlit("stairs");
    reveal_strlit("Skeleton");
    reveal_strlit("Troll");
    reveal_strlit("Orc");
    reveal_strlit("Spectre");
    reveal_strlit("health potion");
    reveal_strlit("scroll of lightning bolt");
    reveal_strlit("scroll of firball");
    reveal_strlit("scroll of confusion");
    reveal_strlit("artifact");
    reveal_strlit("sword");
    reveal_strlit("shield");
    assert("Skeleton"@.len() == 8);
    assert("Troll"@.len() == 5);
    assert("Orc"@.len() == 3);
    assert("Spectre"@.len() == 7);
    assert("health potion"@.len() == 13);
    assert("scroll of lightning bolt"@.len() == 24);
    assert("scroll of firball"@.len() == 17);
    assert("scroll of confusion"@.len() == 19);
    assert("artifact"@.len() == 8);
    assert("sword"@.len() == 5);
    assert("shield"@ != "stairs"@) by {
        assert(("shield"@)[1] != ("stairs"@)[1]);
    }
    assert("stairs"@.len() == 6);
}

/// The shape of a stairs feature entity: a non-blocking, always-visible
/// marker with no components.
pub open spec fn stairs_entity_ok(e: Entity) -> bool {
    &&& e.name@ == "stairs"@
    &&& e.always_visible
    &&& !e.blocks
    &&& !e.alive
    &&& e.fighter is None
    &&& e.ai is None
    &&& e.item is None
    &&& e.equipment is None
    &&& e.glyph == '<'
    &&& e.color == crate::color::white()
    &&& e.inventory@.len() == 0
}

/// What holds of the `k`-th entity of `s` when the populator placed it in
/// `room`: it stands on an unblocked tile inside the room that no earlier
/// blocker occupies (the spawn draw was rejected otherwise), monsters are
/// alive fighters with an AI, everything else is a visible item, any
/// equipment starts unequipped, and nothing placed here is the stairs.
pub open spec fn placed_entity_ok(room: Rect, m: DungeonMap, s: Seq<Entity>, k: int) -> bool {
    let e = s[k];
    &&& in_room_interior(room, e.x as int, e.y as int)
    &&& spec_in_map_bounds(e.x as int, e.y as int)
    &&& !tile_at(m, e.x as int, e.y as int).blocked
    &&& (forall|j: int|
        0 <= j < k ==> !((#[trigger] s[j]).blocks && s[j].x == e.x && s[j].y == e.y))
    &&& (e.blocks ==> e.fighter is Some && e.ai is Some && e.alive)
    &&& (!e.blocks ==> e.item is Some && e.always_visible && e.fighter is None && e.ai is None)
    &&& e.name@ != "stairs"@
    &&& e.inventory@.len() == 0
    &&& (e.equipment is Some ==> !e.equipment->Some_0.equipped)
}

/// The populator only appends: everything already in `s` stays, and each
/// addition satisfies `placed_entity_ok`.
pub open spec fn populated_ok(room: Rect, m: DungeonMap, old_s: Seq<Entity>, s: Seq<Entity>) -> bool {
    &&& s.len() >= old_s.len()
    &&& s.subrange(0, old_s.len() as int) == old_s
    &&& forall|k: int| old_s.len() <= k < s.len() ==> #[trigger] placed_entity_ok(room, m, s, k)
}

/// Fills `room` with a depth-scaled number of monsters and items, each at a
/// random spot that was not blocked when it spawned.
pub fn place_objects(room: Rect, map: &DungeonMap, objects: &mut Vec<Entity>, level: u32)
    requires
        map_wf(*map),
        room.x1 + 1 < room.x2 <= MAP_WIDTH,
        room.y1 + 1 < room.y2 <= MAP_HEIGHT,
        0 <= room.x1,
        0 <= room.y1,
    ensures
        populated_ok(room, *map, old(objects)@, final(objects)@),
{
    let max_monsters_tbl = max_monsters_table();
    let max_monsters = from_dungeon_level(max_monsters_tbl.as_slice(), level);
    proof {
        crate::transition::lemma_table_value_bounded(max_monsters_tbl@, level, 5);
    }
    let num_monsters = crate::rng::range_u32(0, max_monsters + 1);

    let troll_tbl = troll_chance_table();
    let skeleton_tbl = skeleton_chance_table();
    let spectre_tbl = spectre_chance_table();
    let troll_chance = from_dungeon_level(troll_tbl.as_slice(), level);
    let skeleton_chance = from_dungeon_level(skeleton_tbl.as_slice(), level);
    let spectre_chance = from_dungeon_level(spectre_tbl.as_slice(), level);
    proof {
        crate::transition::lemma_table_value_bounded(troll_tbl@, level, 60);
        crate::transition::lemma_table_value_bounded(skeleton_tbl@, level, 30);
        crate::transition::lemma_table_value_bounded(spectre_tbl@, level, 70);
    }
    let mut monster_weights: Vec<u32> = Vec::new();
    monster_weights.push(80);
    monster_weights.push(troll_chance);
    monster_weights.push(skeleton_chance);
    monster_weights.push(spectre_chance);
    proof {
        assert(crate::rng::weight_sum(monster_weights@) == 80 + troll_chance + skeleton_chance
            + spectre_chance) by {
            reveal_with_fuel(crate::rng::weight_sum, 6);
            assert(monster_weights@.drop_last() =~= monster_weights@.take(3));
            assert(monster_weights@.take(3).drop_last() =~= monster_weights@.take(2));
            assert(monster_weights@.take(2).drop_last() =~= monster_weights@.take(1));
            assert(monster_weights@.take(1).drop_last() =~= monster_weights@.take(0));
        }
    }

    proof {
        assert(objects@.subrange(0, objects@.len() as int) =~= objects@);
    }
    let mut k: u32 = 0;
    while k < num_monsters
        invariant
            map_wf(*map),
            room.x1 + 1 < room.x2 <= MAP_WIDTH,
            room.y1 + 1 < room.y2 <= MAP_HEIGHT,
            0 <= room.x1,
            0 <= room.y1,
            monster_weights@.len() == 4,
            0 < crate::rng::weight_sum(monster_weights@) <= u32::MAX,
            populated_ok(room, *map, old(objects)@, objects@),
        decreases num_monsters - k,
    {
        let x = crate::rng::range_i32(room.x1 + 1, room.x2);
        let y = crate::rng::range_i32(room.y1 + 1, room.y2);

        if !is_blocked(x, y, map, objects.as_slice()) {
            let pick = crate::rng::weighted_pick(&monster_weights);
            let mut monster = if pick == 2 {
                let mut skeleton = Entity::new(
                    x,
                    y,
                    's',
                    crate::color::lightest_sepia(),
                    "Skeleton",
                    true,
                );
                skeleton.fighter = Some(
                    Fighter {
                        base_max_hp: 25,
                        hp: 25,
                        base_defense: 1,
                        base_power: 6,
                        xp: 200,
                        on_death: DeathCallback::Monster,
                    },
                );
                skeleton.ai = Some(Ai::Basic);
                skeleton
            } else if pick == 1 {
                let mut troll = Entity::new(x, y, 'T', crate::color::darker_amber(), "Troll", true);
                troll.fighter = Some(
                    Fighter {
                        base_max_hp: 30,
                        hp: 30,
                        base_defense: 2,
                        base_power: 4,
                        xp: 100,
                        on_death: DeathCallback::Monster,
                    },
                );
                troll.ai = Some(Ai::Basic);
                troll
            } else if pick == 0 {
                let mut orc = Entity::new(
                    x,
                    y,
                    'o',
                    crate::color::desaturated_green(),
                    "Orc",
                    true,
                );
                orc.fighter = Some(
                    Fighter {
                        base_max_hp: 10,
                        hp: 10,
                        base_defense: 0,
                        base_power: 3,
                        xp: 35,
                        on_death: DeathCallback::Monster,
                    },
                );
                orc.ai = Some(Ai::Basic);
                orc
            } else {
                let mut spectre = Entity::new(
                    x,
                    y,
                    'o',
                    crate::color::darker_azure(),
                    "Spectre",
                    true,
                );
                spectre.fighter = Some(
                    Fighter {
                        base_max_hp: 43,
                        hp: 43,
                        base_defense: 4,
                        base_power: 9,
                        xp: 250,
                        on_death: DeathCallback::Monster,
                    },
                );
                spectre.ai = Some(Ai::Basic);
                spectre
            };
            monster.alive = true;
            let ghost before = objects@;
            objects.push(monster);
            proof {
                lemma_spawn_names_not_stairs();
                assert(objects@.subrange(0, old(objects)@.len() as int) =~= old(objects)@);
                assert forall|kk: int| old(objects)@.len() <= kk < objects@.len() implies
                    #[trigger] placed_entity_ok(room, *map, objects@, kk) by {
                    assert(forall|j: int| 0 <= j < before.len() ==> objects@[j] == before[j]);
                    if kk < before.len() {
                        assert(placed_entity_ok(room, *map, before, kk));
                    }
                }
            }
        }
        k = k + 1;
    }

    let max_items_tbl = max_items_table();
    let max_items = from_dungeon_level(max_items_tbl.as_slice(), level);
    proof {
        crate::transition::lemma_table_value_bounded(max_items_tbl@, level, 2);
    }
    let num_items = crate::rng::range_u32(0, max_items + 1);

    let lightning_tbl = table_of(&[(4, 25)]);
    let confuse_tbl = table_of(&[(2, 10)]);
    let fireball_tbl = table_of(&[(6, 25)]);
    let artifact_tbl = table_of(&[(2, 0), (2, 5), (5, 15)]);
    let sword_tbl = table_of(&[(4, 5)]);
    let shield_tbl = table_of(&[(8, 15)]);
    let lightning_chance = from_dungeon_level(lightning_tbl.as_slice(), level);
    let confuse_chance = from_dungeon_level(confuse_tbl.as_slice(), level);
    let fireball_chance = from_dungeon_level(fireball_tbl.as_slice(), level);
    let artifact_chance = from_dungeon_level(artifact_tbl.as_slice(), level);
    let sword_chance = from_dungeon_level(sword_tbl.as_slice(), level);
    let shield_chance = from_dungeon_level(shield_tbl.as_slice(), level);
    proof {
        crate::transition::lemma_table_value_bounded(lightning_tbl@, level, 25);
        crate::transition::lemma_table_value_bounded(confuse_tbl@, level, 10);
        crate::transition::lemma_table_value_bounded(fireball_tbl@, level, 25);
        crate::transition::lemma_table_value_bounded(artifact_tbl@, level, 15);
        crate::transition::lemma_table_value_bounded(sword_tbl@, level, 5);
        crate::transition::lemma_table_value_bounded(shield_tbl@, level, 15);
    }
    let mut item_weights: Vec<u32> = Vec::new();
    item_weights.push(35);
    item_weights.push(lightning_chance);
    item_weights.push(confuse_chance);
    item_weights.push(fireball_chance);
    item_weights.push(artifact_chance);
    item_weights.push(sword_chance);
    item_weights.push(shield_chance);
    proof {
        assert(crate::rng::weight_sum(item_weights@) == 35 + lightning_chance + confuse_chance
            + fireball_chance + artifact_chance + sword_chance + shield_chance) by {
            reveal_with_fuel(crate::rng::weight_sum, 9);
            assert(item_weights@.drop_last() =~= item_weights@.take(6));
            assert(item_weights@.take(6).drop_last() =~= item_weights@.take(5));
            assert(item_weights@.take(5).drop_last() =~= item_weights@.take(4));
            assert(item_weights@.take(4).drop_last() =~= item_weights@.take(3));
            assert(item_weights@.take(3).drop_last() =~= item_weights@.take(2));
            assert(item_weights@.take(2).drop_last() =~= item_weights@.take(1));
            assert(item_weights@.take(1).drop_last() =~= item_weights@.take(0));
        }
    }

    let mut k2: u32 = 0;
    while k2 < num_items
        invariant
            map_wf(*map),
            room.x1 + 1 < room.x2 <= MAP_WIDTH,
            room.y1 + 1 < room.y2 <= MAP_HEIGHT,
            0 <= room.x1,
            0 <= room.y1,
            item_weights@.len() == 7,
            0 < crate::rng::weight_sum(item_weights@) <= u32::MAX,
            populated_ok(room, *map, old(objects)@, objects@),
        decreases num_items - k2,
    {
        let x = crate::rng::range_i32(room.x1 + 1, room.x2);
        let y = crate::rng::range_i32(room.y1 + 1, room.y2);

        if !is_blocked(x, y, map, objects.as_slice()) {
            let pick = crate::rng::weighted_pick(&item_weights);
            let mut item = if pick == 1 {
                let mut object = Entity::new(
                    x,
                    y,
                    '#',
                    crate::color::light_yellow(),
                    "scroll of lightning bolt",
                    false,
                );
                object.item = Some(Item::Lightning);
                object
            } else if pick == 2 {
                let mut object = Entity::new(
                    x,
                    y,
                    '#',
                    crate::color::lightest_yellow(),
                    "scroll of confusion",
                    false,
                );
                object.item = Some(Item::Confuse);
                object
            } else if pick == 3 {
                let mut object = Entity::new(
                    x,
                    y,
                    '#',
                    crate::color::light_red(),
                    "scroll of firball",
                    false,
                );
                object.item = Some(Item::Fireball);
                object
            } else if pick == 4 {
                let mut object = Entity::new(x, y, '{', crate::color::gold(), "artifact", false);
                let value = 250 * crate::rng::range_i32(1, 30);
                object.item = Some(
                    Item::Artifact { name: crate::namegen::generate_artefact_name(), value },
                );
                object
            } else if pick == 5 {
                let mut object = Entity::new(x, y, '/', crate::color::sky(), "sword", false);
                object.item = Some(Item::Sword);
                object.equipment = Some(
                    Equipment {
                        equipped: false,
                        slot: Slot::RightHand,
                        power_bonus: 3,
                        defense_bonus: 0,
                        max_hp_bonus: 0,
                    },
                );
                object
            } else if pick == 6 {
                let mut object = Entity::new(x, y, '[', crate::color::dark_orange(), "shield", false);
                object.item = Some(Item::Shield);
                object.equipment = Some(
                    Equipment {
                        equipped: false,
                        slot: Slot::LeftHand,
                        power_bonus: 0,
                        defense_bonus: 1,
                        max_hp_bonus: 0,
                    },
                );
                object
            } else {
                let mut object = Entity::new(
                    x,
                    y,
                    '!',
                    crate::color::violet(),
                    "health potion",
                    false,
                );
                object.item = Some(Item::Heal);
                object
            };
            item.always_visible = true;
            let ghost before = objects@;
            objects.push(item);
            proof {
                lemma_spawn_names_not_stairs();
                assert(objects@.subrange(0, old(objects)@.len() as int) =~= old(objects)@);
                assert forall|kk: int| old(objects)@.len() <= kk < objects@.len() implies
                    #[trigger] placed_entity_ok(room, *map, objects@, kk) by {
                    assert(forall|j: int| 0 <= j < before.len() ==> objects@[j] == before[j]);
                    if kk < before.len() {
                        assert(placed_entity_ok(room, *map, before, kk));
                    }
                }
            }
        }
        k2 = k2 + 1;
    }
}

/// A room the generator accepted: inside the map with at least the minimum
/// size, leaving the outermost map border as wall.
pub open spec fn room_ok(r: Rect) -> bool {
    &&& 0 <= r.x1
    &&& r.x1 + ROOM_MIN_SIZE <= r.x2 <= MAP_WIDTH - 1
    &&& 0 <= r.y1
    &&& r.y1 + ROOM_MIN_SIZE <= r.y2 <= MAP_HEIGHT - 1
}

/// Every interior cell of `r` is traversable in `m`.
pub open spec fn room_carved(m: DungeonMap, r: Rect) -> bool {
    forall|i: int, j: int|
        spec_in_map_bounds(i, j) && in_room_interior(r, i, j) ==> !(#[trigger] tile_at(
            m,
            i,
            j,
        )).blocked
}

/// The center of an accepted room lies strictly inside it, hence on the map.
pub proof fn lemma_center_interior(r: Rect)
    requires
        room_ok(r),
    ensures
        in_room_interior(r, (r.x1 + r.x2) as int / 2, (r.y1 + r.y2) as int / 2),
        spec_in_map_bounds((r.x1 + r.x2) as int / 2, (r.y1 + r.y2) as int / 2),
{
    let sx = r.x1 + r.x2 as int;
    let sy = r.y1 + r.y2 as int;
    assert(r.x1 < sx / 2 < r.x2 && r.y1 < sy / 2 < r.y2) by (nonlinear_arith)
        requires
            r.x1 + 3 <= r.x2,
            r.y1 + 3 <= r.y2,
            sx == r.x1 + r.x2,
            sy == r.y1 + r.y2,
            0 <= r.x1,
            0 <= r.y1,
    ;
}

/// What generation guarantees of the `k`-th entity (a monster or an item):
/// it stands on a traversable tile inside the map that no earlier-spawned
/// blocker occupies, monsters are alive fighters with an AI, everything else
/// is a visible item, and none of them is the stairs.
pub open spec fn spawned_ok(m: DungeonMap, s: Seq<Entity>, k: int) -> bool {
    let e = s[k];
    &&& spec_in_map_bounds(e.x as int, e.y as int)
    &&& !tile_at(m, e.x as int, e.y as int).blocked
    &&& (e.blocks ==> e.fighter is Some && e.ai is Some && e.alive)
    &&& (!e.blocks ==> e.item is Some && e.always_visible)
    &&& e.name@ != "stairs"@
    &&& (forall|j: int|
        1 <= j < k ==> !((#[trigger] s[j]).blocks && s[j].x == e.x && s[j].y == e.y))
}

/// The entity `e` is `p` moved to its own position: every field but the
/// coordinates is untouched.
pub open spec fn same_but_position(e: Entity, p: Entity) -> bool {
    e == (Entity { x: e.x, y: e.y, ..p })
}

/// What a generated level looks like: a full-size map; the player, kept
/// intact up to position, standing on a traversable tile; exactly one stairs
/// entity, at the end of the collection, on a traversable tile; and in
/// between only well-formed monster and item spawns.
pub open spec fn generated_level_ok(old_player: Entity, s: Seq<Entity>, m: DungeonMap) -> bool {
    &&& map_wf(m)
    &&& s.len() >= 2
    &&& same_but_position(s[0], old_player)
    &&& spec_in_map_bounds(s[0].x as int, s[0].y as int)
    &&& !tile_at(m, s[0].x as int, s[0].y as int).blocked
    &&& stairs_entity_ok(s.last())
    &&& spec_in_map_bounds(s.last().x as int, s.last().y as int)
    &&& !tile_at(m, s.last().x as int, s.last().y as int).blocked
    &&& forall|k: int| 1 <= k < s.len() - 1 ==> #[trigger] spawned_ok(m, s, k)
}

/// A full map of fresh wall tiles.
fn full_wall_grid() -> (r: DungeonMap)
    ensures
        map_wf(r),
        forall|i: int, j: int|
            spec_in_map_bounds(i, j) ==> fresh_of_kind(#[trigger] tile_at(r, i, j), TileType::Wall),
{
    let mut map: DungeonMap = Vec::new();
    let mut x: usize = 0;
    while x < MAP_WIDTH as usize
        invariant
            x <= MAP_WIDTH,
            map@.len() == x,
            forall|i: int| 0 <= i < x ==> #[trigger] map@[i]@.len() == MAP_HEIGHT,
            forall|i: int, j: int|
                0 <= i < x && 0 <= j < MAP_HEIGHT ==> fresh_of_kind(
                    #[trigger] map@[i]@[j],
                    TileType::Wall,
                ),
        decreases MAP_WIDTH - x,
    {
        let mut column: Vec<Tile> = Vec::new();
        let mut y: usize = 0;
        while y < MAP_HEIGHT as usize
            invariant
                y <= MAP_HEIGHT,
                column@.len() == y,
                forall|j: int|
                    0 <= j < y ==> fresh_of_kind(#[trigger] column@[j], TileType::Wall),
            decreases MAP_HEIGHT - y,
        {
            column.push(Tile::wall());
            y = y + 1;
        }
        map.push(column);
        x = x + 1;
    }
    map
}

/// Builds a standard level: up to `MAX_ROOMS` random rooms (overlap allowed
/// only at depths the overlap table selects), joined by L-shaped tunnels,
/// each populated by depth; the player starts at the first room's center and
/// the stairs stand at the last room's center.
pub fn make_map(game: &mut crate::engine::GameEngine, level: u32) -> (r: DungeonMap)
    requires
        old(game).entities@.len() >= 1,
    ensures
        generated_level_ok(old(game).entities@[0], final(game).entities@, r),
        *final(game) == (crate::engine::GameEngine {
            entities: final(game).entities,
            ..*old(game)
        }),
{
    let mut map = full_wall_grid();

    game.entities.truncate(1);
    proof {
        assert(game.entities@ =~= old(game).entities@.subrange(0, 1));
    }
    let ghost player0 = old(game).entities@[0];

    let mut rooms: Vec<Rect> = Vec::new();
    let overlap_tbl = room_overlap_table();
    let overlap_val = from_dungeon_level(overlap_tbl.as_slice(), level);

    let mut iter: i32 = 0;
    while iter < MAX_ROOMS
        invariant
            0 <= iter <= MAX_ROOMS,
            map_wf(map),
            game.entities@.len() >= 1,
            same_but_position(game.entities@[0], player0),
            iter > 0 ==> rooms@.len() > 0,
            forall|ri: int| 0 <= ri < rooms@.len() ==> room_ok(#[trigger] rooms@[ri]),
            forall|ri: int| 0 <= ri < rooms@.len() ==> room_carved(map, #[trigger] rooms@[ri]),
            rooms@.len() > 0 ==> spec_in_map_bounds(
                game.entities@[0].x as int,
                game.entities@[0].y as int,
            ) && !tile_at(map, game.entities@[0].x as int, game.entities@[0].y as int).blocked,
            forall|k: int|
                1 <= k < game.entities@.len() ==> #[trigger] spawned_ok(map, game.entities@, k),
            *game == (crate::engine::GameEngine { entities: game.entities, ..*old(game) }),
        decreases MAX_ROOMS - iter,
    {
        let w = crate::rng::range_i32(ROOM_MIN_SIZE, ROOM_MAX_SIZE + 1);
        let h = crate::rng::range_i32(ROOM_MIN_SIZE, ROOM_MAX_SIZE + 1);
        let x = crate::rng::range_i32(0, MAP_WIDTH - w);
        let y = crate::rng::range_i32(0, MAP_HEIGHT - h);
        let new_room = Rect::new(x, y, w, h);

        let mut failed = false;
        if overlap_val == 0 {
            let mut ri: usize = 0;
            while ri < rooms.len()
                invariant
                    ri <= rooms@.len(),
                    failed ==> rooms@.len() > 0,
                decreases rooms@.len() - ri,
            {
                if new_room.intersects_with(&rooms[ri]) {
                    failed = true;
                }
                ri = ri + 1;
            }
        }
        if !failed {
            let ghost map_before = map;
            create_room(new_room, &mut map);
            proof {
                assert forall|ri: int| 0 <= ri < rooms@.len() implies room_carved(
                    map,
                    #[trigger] rooms@[ri],
                ) by {
                    assert(room_carved(map_before, rooms@[ri]));
                }
                assert forall|k: int| 1 <= k < game.entities@.len() implies #[trigger] spawned_ok(
                    map,
                    game.entities@,
                    k,
                ) by {
                    assert(spawned_ok(map_before, game.entities@, k));
                }
            }
            let ghost ents_before = game.entities@;
            place_objects(new_room, &map, &mut game.entities, level);
            proof {
                assert(game.entities@.subrange(0, ents_before.len() as int) == ents_before);
                assert forall|j: int|
                    0 <= j < ents_before.len() implies #[trigger] game.entities@[j]
                    == ents_before[j] by {
                    assert(game.entities@.subrange(0, ents_before.len() as int)[j]
                        == ents_before[j]);
                }
                assert forall|k: int| 1 <= k < game.entities@.len() implies #[trigger] spawned_ok(
                    map,
                    game.entities@,
                    k,
                ) by {
                    if k < ents_before.len() {
                        assert(spawned_ok(map, ents_before, k));
                    } else {
                        assert(placed_entity_ok(new_room, map, game.entities@, k));
                    }
                }
            }

            let (new_x, new_y) = new_room.center();
            proof {
                lemma_center_interior(new_room);
            }
            if rooms.len() == 0 {
                let ghost ents_pre = game.entities@;
                let p = &mut game.entities[0];
                p.set_pos(new_x, new_y);
                proof {
                    assert forall|k: int|
                        1 <= k < game.entities@.len() implies #[trigger] spawned_ok(
                        map,
                        game.entities@,
                        k,
                    ) by {
                        assert(spawned_ok(map, ents_pre, k));
                        assert(forall|j: int|
                            1 <= j < game.entities@.len() ==> #[trigger] game.entities@[j]
                                == ents_pre[j]);
                    }
                }
            } else {
                let (prev_x, prev_y) = rooms[rooms.len() - 1].center();
                proof {
                    lemma_center_interior(rooms@[rooms@.len() - 1]);
                }
                let ghost map_r = map;
                if crate::rng::coin_flip() {
                    create_h_tunnel(prev_x, new_x, prev_y, &mut map);
                    let ghost map_m = map;
                    create_v_tunnel(prev_y, new_y, new_x, &mut map);
                    proof {
                        carve_preserves(map_r, map_m, map, rooms@, game.entities@);
                    }
                } else {
                    create_v_tunnel(prev_y, new_y, prev_x, &mut map);
                    let ghost map_m = map;
                    create_h_tunnel(prev_x, new_x, new_y, &mut map);
                    proof {
                        carve_preserves(map_r, map_m, map, rooms@, game.entities@);
                    }
                }
            }
            rooms.push(new_room);
        }
        iter = iter + 1;
    }

    let last_index = rooms.len() - 1;
    let (last_room_x, last_room_y) = rooms[last_index].center();
    proof {
        lemma_center_interior(rooms@[last_index as int]);
    }
    let mut stairs = Entity::new(last_room_x, last_room_y, '<', crate::color::white(), "stairs", false);
    stairs.always_visible = true;
    let ghost before_stairs = game.entities@;
    game.entities.push(stairs);
    proof {
        reveal_strlit("stairs");
        assert(game.entities@.last().name@ == "stairs"@);
        assert forall|k: int| 1 <= k < game.entities@.len() - 1 implies #[trigger] spawned_ok(
            map,
            game.entities@,
            k,
        ) by {
            assert(spawned_ok(map, before_stairs, k));
        }
    }
    map
}

/// Tile changes by two tunnel carves leave every carved room traversable and
/// every spawn standing on a traversable tile.
proof fn carve_preserves(
    m0: DungeonMap,
    m1: DungeonMap,
    m2: DungeonMap,
    rooms: Seq<Rect>,
    entities: Seq<Entity>,
)
    requires
        forall|i: int, j: int|
            spec_in_map_bounds(i, j) ==> (#[trigger] tile_at(m1, i, j) == tile_at(m0, i, j) || !tile_at(
                m1,
                i,
                j,
            ).blocked),
        forall|i: int, j: int|
            spec_in_map_bounds(i, j) ==> (#[trigger] tile_at(m2, i, j) == tile_at(m1, i, j) || !tile_at(
                m2,
                i,
                j,
            ).blocked),
        forall|ri: int| 0 <= ri < rooms.len() ==> room_carved(m0, #[trigger] rooms[ri]),
        forall|k: int| 1 <= k < entities.len() ==> #[trigger] spawned_ok(m0, entities, k),
        forall|ri: int| 0 <= ri < rooms.len() ==> room_ok(#[trigger] rooms[ri]),
    ensures
        forall|ri: int| 0 <= ri < rooms.len() ==> room_carved(m2, #[trigger] rooms[ri]),
        forall|k: int| 1 <= k < entities.len() ==> #[trigger] spawned_ok(m2, entities, k),
{
    assert forall|ri: int| 0 <= ri < rooms.len() implies room_carved(m2, #[trigger] rooms[ri]) by {
        assert(room_carved(m0, rooms[ri]));
    }
    assert forall|k: int| 1 <= k < entities.len() implies #[trigger] spawned_ok(m2, entities, k) by {
        assert(spawned_ok(m0, entities, k));
    }
}

/// The level algorithm the level-type table selects at `level` (0 or 2:
/// standard, 1: boss).
pub open spec fn spec_level_type(level: u32) -> u32 {
    crate::transition::table_value_at(
        seq![
            Transition { level: 1, value: 0 },
            Transition { level: 2, value: 1 },
            Transition { level: 3, value: 0 },
            Transition { level: 10, value: 2 },
        ],
        level,
    )
}

/// What a boss level looks like: the player near the top edge, a single
/// scripted boss at the center of one full-map room.
pub open spec fn boss_level_ok(old_player: Entity, s: Seq<Entity>, m: DungeonMap) -> bool {
    &&& map_wf(m)
    &&& s.len() == 2
    &&& same_but_position(s[0], old_player)
    &&& s[0].x == (MAP_WIDTH - 2) as int / 2
    &&& s[0].y == 3
    &&& ({
        let boss = s[1];
        &&& boss.name@ == "Boss"@
        &&& boss.blocks
        &&& boss.glyph == 'B'
        &&& boss.color == crate::color::dark_crimson()
        &&& boss.fighter == Some(
            Fighter {
                base_max_hp: 1,
                hp: 1,
                base_defense: 1,
                base_power: 1,
                xp: 1000,
                on_death: DeathCallback::Boss,
            },
        )
        &&& boss.ai == Some(Ai::Basic)
        &&& boss.x == (MAP_WIDTH - 2) as int / 2
        &&& boss.y == (MAP_HEIGHT - 2) as int / 2
    })
    &&& forall|i: int, j: int|
        spec_in_map_bounds(i, j) ==> fresh_of_kind(
            #[trigger] tile_at(m, i, j),
            if in_room_interior(
                Rect { x1: 0, y1: 0, x2: (MAP_WIDTH - 2) as i32, y2: (MAP_HEIGHT - 2) as i32 },
                i,
                j,
            ) {
                TileType::Ground
            } else {
                TileType::Wall
            },
        )
}

/// Builds a boss level: one full-map room, the player near the top edge, and
/// a single scripted boss at the center.
pub fn make_boss_map(game: &mut crate::engine::GameEngine, _level: u32) -> (r: DungeonMap)
    requires
        old(game).entities@.len() >= 1,
    ensures
        boss_level_ok(old(game).entities@[0], final(game).entities@, r),
        *final(game) == (crate::engine::GameEngine {
            entities: final(game).entities,
            ..*old(game)
        }),
{
    let mut map = full_wall_grid();
    game.entities.truncate(1);
    proof {
        assert(game.entities@ =~= old(game).entities@.subrange(0, 1));
    }

    let boss_room = Rect::new(0, 0, MAP_WIDTH - 2, MAP_HEIGHT - 2);
    create_room(boss_room, &mut map);

    let (center_x, center_y) = boss_room.center();

    let p = &mut game.entities[0];
    p.set_pos(center_x, 3);
    let mut boss = Entity::new(center_x, center_y, 'B', crate::color::dark_crimson(), "Boss", true);
    boss.fighter = Some(
        Fighter {
            base_max_hp: 1,
            hp: 1,
            base_defense: 1,
            base_power: 1,
            xp: 1000,
            on_death: DeathCallback::Boss,
        },
    );
    boss.ai = Some(Ai::Basic);
    game.entities.push(boss);
    proof {
        reveal_strlit("Boss");
    }
    map
}

} // verus!
