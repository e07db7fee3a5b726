//! The universal actor/item/feature record and its combat behavior.
//!
//! An entity owns optional Fighter, AI, Item and Equipment components plus an
//! inventory of nested entities.  Derived stats are recomputed on every
//! access from the base stat plus the bonuses of equipped inventory items.

use vstd::prelude::*;
use crate::ai::Ai;
use crate::color::Rgb;
use crate::equipment::Equipment;
use crate::event::{
    appended_event, bus_push_shape, pushed_plain_event, EventBus, EventData, EventType, GameEvent,
};
use crate::fighter::{DeathCallback, Fighter};
use crate::item::Item;
use crate::messages::Messages;

verus! {

use vstd::string::StringExecFns;

/// A generic object of the dungeon: the player, a monster, an item, the
/// stairs.  Always represented by one character on screen.
#[derive(Debug)]
pub struct Entity {
    pub x: i32,
    pub y: i32,
    pub glyph: char,
    pub color: Rgb,
    pub name: String,
    pub blocks: bool,
    pub alive: bool,
    pub fighter: Option<Fighter>,
    pub ai: Option<Ai>,
    pub item: Option<Item>,
    pub always_visible: bool,
    pub level: i32,
    pub equipment: Option<Equipment>,
    pub inventory: Vec<Entity>,
}

/// The equipment components of the equipped inventory items, in inventory
/// order.
pub open spec fn equipped_seq(inv: Seq<Entity>) -> Seq<Equipment>
    decreases inv.len(),
{
    if inv.len() == 0 {
        Seq::empty()
    } else {
        equipped_seq(inv.drop_last()) + match inv.last().equipment {
            Some(q) => if q.equipped {
                seq![q]
            } else {
                Seq::empty()
            },
            None => Seq::empty(),
        }
    }
}

/// The sum of the power bonuses of a run of equipment.
pub open spec fn sum_power_bonus(s: Seq<Equipment>) -> int
    decreases s.len(),
{
    if s.len() == 0 {
        0
    } else {
        sum_power_bonus(s.drop_last()) + s.last().power_bonus
    }
}

/// The sum of the defense bonuses of a run of equipment.
pub open spec fn sum_defense_bonus(s: Seq<Equipment>) -> int
    decreases s.len(),
{
    if s.len() == 0 {
        0
    } else {
        sum_defense_bonus(s.drop_last()) + s.last().defense_bonus
    }
}

/// The sum of the max-hp bonuses of a run of equipment.
pub open spec fn sum_max_hp_bonus(s: Seq<Equipment>) -> int
    decreases s.len(),
{
    if s.len() == 0 {
        0
    } else {
        sum_max_hp_bonus(s.drop_last()) + s.last().max_hp_bonus
    }
}

/// Effective attack power: the fighter's base power (0 without a fighter)
/// plus the power bonuses of all equipped inventory items.
pub open spec fn spec_power(e: Entity) -> int {
    (match e.fighter {
        Some(f) => f.base_power as int,
        None => 0,
    }) + sum_power_bonus(equipped_seq(e.inventory@))
}

/// Effective defense, derived like `spec_power`.
pub open spec fn spec_defense(e: Entity) -> int {
    (match e.fighter {
        Some(f) => f.base_defense as int,
        None => 0,
    }) + sum_defense_bonus(equipped_seq(e.inventory@))
}

/// Effective hp ceiling, derived like `spec_power`.
pub open spec fn spec_max_hp(e: Entity) -> int {
    (match e.fighter {
        Some(f) => f.base_max_hp as int,
        None => 0,
    }) + sum_max_hp_bonus(equipped_seq(e.inventory@))
}

/// The squared Euclidean distance between two grid points.
pub open spec fn dist_sq(ax: int, ay: int, bx: int, by: int) -> int {
    (bx - ax) * (bx - ax) + (by - ay) * (by - ay)
}

/// Whether `x` fits in an `i32`.
pub open spec fn fits_i32(x: int) -> bool {
    i32::MIN <= x <= i32::MAX
}

/// The fighter after `damage` is applied: hp drops by `damage` when positive,
/// nothing else changes.
pub open spec fn damaged_fighter(f: Fighter, damage: i32) -> Fighter {
    if damage > 0 {
        Fighter { hp: (f.hp - damage) as i32, ..f }
    } else {
        f
    }
}

/// The player's death is cosmetic: corpse glyph and color, nothing else.
pub open spec fn player_death_effect(o: Entity, n: Entity) -> bool {
    n == (Entity { glyph: '%', color: crate::color::dark_red(), ..o })
}

/// A monster's death leaves inert remains: corpse glyph and color, no longer
/// blocking, Fighter and AI stripped, and the name prefixed.
pub open spec fn monster_death_effect(o: Entity, n: Entity) -> bool {
    &&& n.name@ == "remains of "@ + o.name@
    &&& n == (Entity {
        glyph: '%',
        color: crate::color::dark_red(),
        blocks: false,
        fighter: None,
        ai: None,
        name: n.name,
        ..o
    })
}

/// A boss-death event carries the death position under the key `position`.
pub open spec fn boss_position_payload(d: Seq<(String, EventData)>, x: i32, y: i32) -> bool {
    &&& d.len() == 1
    &&& d[0].0@ == "position"@
    &&& d[0].1 == EventData::TupleI32I32(x, y)
}

/// What running the death callback `cb` does: how the corpse `n` relates to
/// the dying entity `o`, and which event the bus gains.
pub open spec fn death_outcome(
    cb: DeathCallback,
    o: Entity,
    n: Entity,
    ob: EventBus,
    nb: EventBus,
) -> bool {
    match cb {
        DeathCallback::Player => {
            &&& player_death_effect(o, n)
            &&& pushed_plain_event(ob, nb, EventType::PlayerDie)
        },
        DeathCallback::Monster => {
            &&& monster_death_effect(o, n)
            &&& pushed_plain_event(ob, nb, EventType::MonsterDie)
        },
        DeathCallback::Boss => {
            &&& monster_death_effect(o, n)
            &&& bus_push_shape(ob, nb)
            &&& appended_event(ob, nb).event_type == EventType::BossDie
            &&& boss_position_payload(appended_event(ob, nb).data@, o.x, o.y)
        },
    }
}

/// The payload carried by an `EntityAttacked` event: both combatants' names
/// and positions, the damage dealt, and whether the blow killed.
pub open spec fn attacked_payload(
    d: Seq<(String, EventData)>,
    tname: Seq<char>,
    tx: i32,
    ty: i32,
    aname: Seq<char>,
    ax: i32,
    ay: i32,
    damage: i32,
    killed: bool,
) -> bool {
    &&& d.len() == 6
    &&& d[0].0@ == "target_name"@ && (d[0].1 matches EventData::String(s) && s@ == tname)
    &&& d[1].0@ == "target_pos"@ && d[1].1 == EventData::TupleI32I32(tx, ty)
    &&& d[2].0@ == "attacker_name"@ && (d[2].1 matches EventData::String(s) && s@ == aname)
    &&& d[3].0@ == "attacker_pos"@ && d[3].1 == EventData::TupleI32I32(ax, ay)
    &&& d[4].0@ == "damage"@ && d[4].1 == EventData::I32(damage)
    &&& d[5].0@ == "killed"@ && d[5].1 == EventData::Boolean(killed)
}

/// The bus went from `ob` to `nb` by one write of an `EntityAttacked` event
/// describing attacker `a` striking target `t` for `damage`.
pub open spec fn attack_event_appended(
    ob: EventBus,
    nb: EventBus,
    a: Entity,
    t: Entity,
    damage: i32,
    killed: bool,
) -> bool {
    &&& bus_push_shape(ob, nb)
    &&& appended_event(ob, nb).event_type == EventType::EntityAttacked
    &&& attacked_payload(
        appended_event(ob, nb).data@,
        t.name@,
        t.x,
        t.y,
        a.name@,
        a.x,
        a.y,
        damage,
        killed,
    )
}

/// The message log `nm` is `om` plus one line with the given text and color.
pub open spec fn logged_line(
    om: Seq<(String, Rgb)>,
    nm: Seq<(String, Rgb)>,
    text: Seq<char>,
    color: Rgb,
) -> bool {
    &&& nm.len() == om.len() + 1
    &&& nm.subrange(0, om.len() as int) == om
    &&& nm.last().0@ == text
    &&& nm.last().1 == color
}

/// What `equip` does: an entity without an Item or Equipment component is
/// left alone and a diagnostic is logged; an unequipped equipment gains the
/// flag and the change is logged; an equipped one is a no-op.
pub open spec fn equip_outcome(
    o: Entity,
    n: Entity,
    om: Seq<(String, Rgb)>,
    nm: Seq<(String, Rgb)>,
) -> bool {
    if o.item is None {
        &&& n == o
        &&& logged_line(
            om,
            nm,
            "Cannot equip "@ + o.name@ + " because it's not an Item."@,
            crate::color::red(),
        )
    } else {
        match o.equipment {
            None => {
                &&& n == o
                &&& logged_line(
                    om,
                    nm,
                    "Cannot equip "@ + o.name@ + " because it's not an Equipment."@,
                    crate::color::red(),
                )
            },
            Some(q) => if q.equipped {
                n == o && nm == om
            } else {
                &&& n == (Entity { equipment: Some(Equipment { equipped: true, ..q }), ..o })
                &&& logged_line(
                    om,
                    nm,
                    "Equipped "@ + o.name@ + " on "@ + q.slot.spec_name() + "."@,
                    crate::color::light_green(),
                )
            },
        }
    }
}

/// What `unequip` does, mirroring `equip_outcome`.
pub open spec fn unequip_outcome(
    o: Entity,
    n: Entity,
    om: Seq<(String, Rgb)>,
    nm: Seq<(String, Rgb)>,
) -> bool {
    if o.item is None {
        &&& n == o
        &&& logged_line(
            om,
            nm,
            "Cannot unequip "@ + o.name@ + " because it's not an Item."@,
            crate::color::red(),
        )
    } else {
        match o.equipment {
            None => {
                &&& n == o
                &&& logged_line(
                    om,
                    nm,
                    "Cannot unequip "@ + o.name@ + " because it's not an Equipment."@,
                    crate::color::red(),
                )
            },
            Some(q) => if !q.equipped {
                n == o && nm == om
            } else {
                &&& n == (Entity { equipment: Some(Equipment { equipped: false, ..q }), ..o })
                &&& logged_line(
                    om,
                    nm,
                    "Unequipped "@ + o.name@ + " from "@ + q.slot.spec_name() + "."@,
                    crate::color::light_yellow(),
                )
            },
        }
    }
}

/// What `attack` asks of its caller beyond a well-formed bus: the derived
/// stats, the damage, the victim's hp after the blow and a kill's xp credit
/// all stay inside `i32`.
pub open spec fn attack_requires(a: Entity, t: Entity) -> bool {
    &&& fits_i32(spec_power(a))
    &&& fits_i32(spec_defense(t))
    &&& fits_i32(spec_power(a) - spec_defense(t))
    &&& ({
        let dmg = spec_power(a) - spec_defense(t);
        &&& ((t.fighter is Some && dmg > 0) ==> t.fighter->Some_0.hp - dmg >= i32::MIN)
        &&& ((t.fighter is Some && dmg > 0 && t.fighter->Some_0.hp - dmg <= 0) ==> {
            &&& a.fighter is Some
            &&& fits_i32(a.fighter->Some_0.xp + t.fighter->Some_0.xp)
        })
    })
}

/// What `attack` does, from attacker `a0`, target `t0` and bus `b0` to `a1`,
/// `t1` and `b1`: a kill applies the death callback and credits its xp; a
/// plain hit just lowers hp; either way an `EntityAttacked` event goes on the
/// bus last.
pub open spec fn attack_outcome(
    a0: Entity,
    a1: Entity,
    t0: Entity,
    t1: Entity,
    b0: EventBus,
    b1: EventBus,
) -> bool {
    let dmg = spec_power(a0) - spec_defense(t0);
    let killed = t0.fighter is Some && dmg > 0 && t0.fighter->Some_0.hp - dmg <= 0;
    if killed {
        let f = t0.fighter->Some_0;
        &&& a1 == (Entity {
            fighter: Some(Fighter { xp: (a0.fighter->Some_0.xp + f.xp) as i32, ..a0.fighter->Some_0 }),
            ..a0
        })
        &&& exists|mid: EventBus|
            {
                &&& death_outcome(
                    f.on_death,
                    Entity { alive: false, fighter: Some(damaged_fighter(f, dmg as i32)), ..t0 },
                    t1,
                    b0,
                    mid,
                )
                &&& #[trigger] bus_push_shape(mid, b1)
                &&& attack_event_appended(mid, b1, a1, t1, dmg as i32, true)
            }
    } else {
        &&& a1 == a0
        &&& if t0.fighter is Some && dmg > 0 {
            t1 == (Entity { fighter: Some(damaged_fighter(t0.fighter->Some_0, dmg as i32)), ..t0 })
        } else {
            t1 == t0
        }
        &&& bus_push_shape(b0, b1)
        &&& attack_event_appended(b0, b1, a1, t1, dmg as i32, false)
    }
}

/// Equipping is idempotent: running `equip` on an item that is already
/// equipped changes neither the entity nor the message log.
pub proof fn lemma_equip_idempotent(o: Entity, n: Entity, om: Seq<(String, Rgb)>, nm: Seq<(String, Rgb)>)
    requires
        equip_outcome(o, n, om, nm),
        o.item is Some,
        o.equipment is Some,
        o.equipment->Some_0.equipped,
    ensures
        n == o,
        nm == om,
{
}

/// Unequipping is idempotent: running `unequip` on an item that is not
/// equipped changes neither the entity nor the message log.
pub proof fn lemma_unequip_idempotent(
    o: Entity,
    n: Entity,
    om: Seq<(String, Rgb)>,
    nm: Seq<(String, Rgb)>,
)
    requires
        unequip_outcome(o, n, om, nm),
        o.item is Some,
        o.equipment is Some,
        !o.equipment->Some_0.equipped,
    ensures
        n == o,
        nm == om,
{
}

/// An attack whose damage is not positive changes no hp and runs no death
/// callback: both combatants come out exactly as they went in.
pub proof fn lemma_harmless_attack(
    a0: Entity,
    a1: Entity,
    t0: Entity,
    t1: Entity,
    b0: EventBus,
    b1: EventBus,
)
    requires
        attack_outcome(a0, a1, t0, t1, b0, b1),
        spec_power(a0) <= spec_defense(t0),
    ensures
        a1 == a0,
        t1 == t0,
{
}

/// A monster's remains are inert: the corpse keeps neither Fighter nor AI
/// and no longer blocks, so no further damage or death callback can reach
/// it.
pub proof fn lemma_monster_corpse_inert(o: Entity, n: Entity)
    requires
        monster_death_effect(o, n),
    ensures
        n.fighter is None,
        n.ai is None,
        !n.blocks,
{
}

impl DeathCallback {
    /// Runs the selected death behavior on `entity` and emits the matching
    /// event.
    pub fn callback(self, entity: &mut Entity, event_bus: &mut EventBus)
        requires
            old(event_bus).wf(),
        ensures
            final(event_bus).wf(),
            death_outcome(self, *old(entity), *final(entity), *old(event_bus), *final(event_bus)),
    {
        match self {
            DeathCallback::Player => player_death(entity, event_bus),
            DeathCallback::Monster => monster_death(entity, event_bus),
            DeathCallback::Boss => boss_death(entity, event_bus),
        }
    }
}

/// The player's corpse stays in place; only its look changes.
fn player_death(player: &mut Entity, event_bus: &mut EventBus)
    requires
        old(event_bus).wf(),
    ensures
        final(event_bus).wf(),
        player_death_effect(*old(player), *final(player)),
        pushed_plain_event(*old(event_bus), *final(event_bus), EventType::PlayerDie),
{
    player.glyph = '%';
    player.color = crate::color::dark_red();
    event_bus.add_event(GameEvent::from_type(EventType::PlayerDie));
}

/// Turns the monster into inert, non-blocking remains.
fn monster_death(monster: &mut Entity, event_bus: &mut EventBus)
    requires
        old(event_bus).wf(),
    ensures
        final(event_bus).wf(),
        monster_death_effect(*old(monster), *final(monster)),
        pushed_plain_event(*old(event_bus), *final(event_bus), EventType::MonsterDie),
{
    proof {
        reveal_strlit("remains of ");
    }
    monster.glyph = '%';
    monster.color = crate::color::dark_red();
    monster.blocks = false;
    monster.fighter = None;
    monster.ai = None;
    let mut renamed = String::from_str("remains of ");
    renamed.append(monster.name.as_str());
    monster.name = renamed;
    event_bus.add_event(GameEvent::from_type(EventType::MonsterDie));
}

/// Like a monster's death, and additionally broadcasts where the boss fell so
/// the world responder can place a feature there.
fn boss_death(monster: &mut Entity, event_bus: &mut EventBus)
    requires
        old(event_bus).wf(),
    ensures
        final(event_bus).wf(),
        monster_death_effect(*old(monster), *final(monster)),
        bus_push_shape(*old(event_bus), *final(event_bus)),
        appended_event(*old(event_bus), *final(event_bus)).event_type == EventType::BossDie,
        boss_position_payload(
            appended_event(*old(event_bus), *final(event_bus)).data@,
            old(monster).x,
            old(monster).y,
        ),
{
    proof {
        reveal_strlit("remains of ");
    }
    monster.glyph = '%';
    monster.color = crate::color::dark_red();
    monster.blocks = false;
    monster.fighter = None;
    monster.ai = None;
    let mut renamed = String::from_str("remains of ");
    renamed.append(monster.name.as_str());
    monster.name = renamed;
    let mut data: Vec<(String, EventData)> = Vec::new();
    data.push((String::from_str("position"), EventData::TupleI32I32(monster.x, monster.y)));
    event_bus.add_event(GameEvent::from_type_with_data(EventType::BossDie, data));
}

impl Entity {
    /// A fresh entity: not yet alive, level 1, no components, empty
    /// inventory.
    pub fn new(x: i32, y: i32, glyph: char, color: Rgb, name: &str, blocks: bool) -> (r: Entity)
        ensures
            r.x == x,
            r.y == y,
            r.glyph == glyph,
            r.color == color,
            r.name@ == name@,
            r.blocks == blocks,
            !r.alive,
            r.fighter is None,
            r.ai is None,
            r.item is None,
            !r.always_visible,
            r.level == 1,
            r.equipment is None,
            r.inventory@ =~= Seq::<Entity>::empty(),
    {
        Entity {
            x,
            y,
            glyph,
            color,
            name: String::from_str(name),
            blocks,
            alive: false,
            fighter: None,
            ai: None,
            item: None,
            always_visible: false,
            level: 1,
            equipment: None,
            inventory: Vec::new(),
        }
    }

    /// The entity's position.
    pub fn pos(&self) -> (r: (i32, i32))
        ensures
            r == (self.x, self.y),
    {
        (self.x, self.y)
    }

    /// Moves the entity to `(x, y)`.
    pub fn set_pos(&mut self, x: i32, y: i32)
        ensures
            *final(self) == (Entity { x, y, ..*old(self) }),
    {
        self.x = x;
        self.y = y;
    }

    /// The squared distance to another entity.  Distances are compared on
    /// their squares, which keeps the comparison exact where a square root
    /// would have to round.
    pub fn distance_to_squared(&self, other: &Entity) -> (r: u128)
        ensures
            r == dist_sq(self.x as int, self.y as int, other.x as int, other.y as int),
    {
        self.distance_squared(other.x, other.y)
    }

    /// The squared distance to the point `(x, y)`.
    pub fn distance_squared(&self, x: i32, y: i32) -> (r: u128)
        ensures
            r == dist_sq(self.x as int, self.y as int, x as int, y as int),
    {
        let dx: i128 = x as i128 - self.x as i128;
        let dy: i128 = y as i128 - self.y as i128;
        proof {
            assert(0 <= dx * dx + dy * dy <= u64::MAX as int * 4 && dx * dx >= 0 && dy * dy >= 0)
                by (nonlinear_arith)
                requires
                    -0x1_0000_0000 <= dx <= 0x1_0000_0000,
                    -0x1_0000_0000 <= dy <= 0x1_0000_0000,
            ;
        }
        (dx * dx + dy * dy) as u128
    }

    /// The equipment components of all equipped inventory items.
    pub fn get_all_equipped(&self) -> (r: Vec<Equipment>)
        ensures
            r@ == equipped_seq(self.inventory@),
    {
        let n = self.inventory.len();
        let mut r: Vec<Equipment> = Vec::new();
        let mut i: usize = 0;
        proof {
            assert(self.inventory@.take(0) =~= Seq::<Entity>::empty());
        }
        while i < n
            invariant
                i <= n,
                n == self.inventory@.len(),
                r@ == equipped_seq(self.inventory@.take(i as int)),
            decreases n - i,
        {
            proof {
                assert(self.inventory@.take(i + 1).drop_last() =~= self.inventory@.take(i as int));
                assert(self.inventory@.take(i + 1).last() == self.inventory@[i as int]);
            }
            match &self.inventory[i].equipment {
                Some(q) => {
                    if q.equipped {
                        r.push(*q);
                    }
                },
                None => {},
            }
            i = i + 1;
        }
        proof {
            assert(self.inventory@.take(n as int) =~= self.inventory@);
        }
        r
    }

    /// Applies `damage` to the fighter's hp (only when positive).  If hp then
    /// sits at or below zero the entity dies: `alive` clears, the death
    /// callback runs, and the fighter's xp reward is returned for the caller
    /// to credit.  Without a fighter nothing happens.
    pub fn take_damage(&mut self, damage: i32, event_bus: &mut EventBus) -> (r: Option<i32>)
        requires
            old(event_bus).wf(),
            (old(self).fighter is Some && damage > 0) ==> old(
                self,
            ).fighter->Some_0.hp - damage >= i32::MIN,
        ensures
            final(event_bus).wf(),
            match old(self).fighter {
                None => {
                    &&& *final(self) == *old(self)
                    &&& r is None
                    &&& *final(event_bus) == *old(event_bus)
                },
                Some(f) => {
                    let f1 = damaged_fighter(f, damage);
                    if f1.hp > 0 {
                        &&& *final(self) == (Entity { fighter: Some(f1), ..*old(self) })
                        &&& r is None
                        &&& *final(event_bus) == *old(event_bus)
                    } else {
                        &&& r == Some(f.xp)
                        &&& death_outcome(
                            f.on_death,
                            Entity { alive: false, fighter: Some(f1), ..*old(self) },
                            *final(self),
                            *old(event_bus),
                            *final(event_bus),
                        )
                    }
                },
            },
    {
        if damage > 0 {
            match &mut self.fighter {
                Some(fighter) => {
                    fighter.hp = fighter.hp - damage;
                },
                None => {},
            }
        }
        let fighter_now = self.fighter;
        match fighter_now {
            Some(fighter) => {
                if fighter.hp <= 0 {
                    self.alive = false;
                    fighter.on_death.callback(self, event_bus);
                    return Some(fighter.xp);
                }
            },
            None => {},
        }
        None
    }

    /// Resolves one attack: damage is the attacker's power less the target's
    /// defense; positive damage is applied to the target (whose death credits
    /// its xp reward to this attacker), and an `EntityAttacked` event always
    /// goes on the bus, carrying the combatants as they stand after the blow.
    pub fn attack(&mut self, target: &mut Entity, event_bus: &mut EventBus)
        requires
            old(event_bus).wf(),
            attack_requires(*old(self), *old(target)),
        ensures
            final(event_bus).wf(),
            attack_outcome(
                *old(self),
                *final(self),
                *old(target),
                *final(target),
                *old(event_bus),
                *final(event_bus),
            ),
    {
        let damage = self.power() - target.defense();
        let mut killed = false;
        if damage > 0 {
            match target.take_damage(damage, event_bus) {
                Some(xp) => {
                    match &mut self.fighter {
                        Some(f) => {
                            f.xp = f.xp + xp;
                        },
                        None => {
                            proof {
                                assert(false);
                            }
                        },
                    }
                    killed = true;
                },
                None => {},
            }
        }
        let ghost midb = *event_bus;
        let mut data: Vec<(String, EventData)> = Vec::new();
        data.push((String::from_str("target_name"), EventData::String(target.name.clone())));
        data.push((String::from_str("target_pos"), EventData::TupleI32I32(target.x, target.y)));
        data.push((String::from_str("attacker_name"), EventData::String(self.name.clone())));
        data.push((String::from_str("attacker_pos"), EventData::TupleI32I32(self.x, self.y)));
        data.push((String::from_str("damage"), EventData::I32(damage)));
        data.push((String::from_str("killed"), EventData::Boolean(killed)));
        proof {
            reveal_strlit("target_name");
            reveal_strlit("target_pos");
            reveal_strlit("attacker_name");
            reveal_strlit("attacker_pos");
            reveal_strlit("damage");
            reveal_strlit("killed");
        }
        event_bus.add_event(GameEvent::from_type_with_data(EventType::EntityAttacked, data));
        proof {
            if killed {
                let dmg = spec_power(*old(self)) - spec_defense(*old(target));
                let f = old(target).fighter->Some_0;
                assert(death_outcome(
                    f.on_death,
                    Entity {
                        alive: false,
                        fighter: Some(damaged_fighter(f, dmg as i32)),
                        ..*old(target)
                    },
                    *target,
                    *old(event_bus),
                    midb,
                ));
                assert(bus_push_shape(midb, *event_bus));
                assert(attack_event_appended(midb, *event_bus, *self, *target, dmg as i32, true));
            }
        }
    }

    /// Restores `amount` hp, clamped to the effective hp ceiling.  Without a
    /// fighter nothing happens.
    pub fn heal(&mut self, amount: i32)
        requires
            fits_i32(spec_max_hp(*old(self))),
            old(self).fighter is Some ==> fits_i32(old(self).fighter->Some_0.hp + amount),
        ensures
            match old(self).fighter {
                None => *final(self) == *old(self),
                Some(f) => {
                    let ceiling = spec_max_hp(*old(self));
                    let hp1 = if f.hp + amount > ceiling {
                        ceiling
                    } else {
                        f.hp + amount
                    };
                    *final(self) == (Entity {
                        fighter: Some(Fighter { hp: hp1 as i32, ..f }),
                        ..*old(self)
                    })
                },
            },
    {
        let ceiling = self.max_hp();
        match &mut self.fighter {
            Some(fighter) => {
                fighter.hp = fighter.hp + amount;
                if fighter.hp > ceiling {
                    fighter.hp = ceiling;
                }
            },
            None => {},
        }
    }

    /// Sets the equipped flag, if the entity is an item with an equipment
    /// component; an already-equipped item is left as it is.  Failures only
    /// log a diagnostic.
    pub fn equip(&mut self, messages: &mut Messages)
        ensures
            equip_outcome(*old(self), *final(self), old(messages)@, final(messages)@),
    {
        proof {
            reveal_strlit("Cannot equip ");
            reveal_strlit(" because it's not an Item.");
            reveal_strlit(" because it's not an Equipment.");
            reveal_strlit("Equipped ");
            reveal_strlit(" on ");
            reveal_strlit(".");
        }
        if self.item.is_none() {
            let mut text = String::from_str("Cannot equip ");
            text.append(self.name.as_str());
            text.append(" because it's not an Item.");
            messages.add(text, crate::color::red());
            return ;
        }
        let slot_label = match &self.equipment {
            Some(q) => Some(q.slot.name()),
            None => None,
        };
        match &mut self.equipment {
            Some(equipment) => {
                if !equipment.equipped {
                    equipment.equipped = true;
                    let mut text = String::from_str("Equipped ");
                    text.append(self.name.as_str());
                    text.append(" on ");
                    match slot_label {
                        Some(label) => text.append(label.as_str()),
                        None => {},
                    }
                    text.append(".");
                    messages.add(text, crate::color::light_green());
                }
            },
            None => {
                let mut text = String::from_str("Cannot equip ");
                text.append(self.name.as_str());
                text.append(" because it's not an Equipment.");
                messages.add(text, crate::color::red());
            },
        }
    }

    /// Clears the equipped flag, if the entity is an item with an equipment
    /// component; an already-unequipped item is left as it is.  Failures only
    /// log a diagnostic.
    pub fn unequip(&mut self, messages: &mut Messages)
        ensures
            unequip_outcome(*old(self), *final(self), old(messages)@, final(messages)@),
    {
        proof {
            reveal_strlit("Cannot unequip ");
            reveal_strlit(" because it's not an Item.");
            reveal_strlit(" because it's not an Equipment.");
            reveal_strlit("Unequipped ");
            reveal_strlit(" from ");
            reveal_strlit(".");
        }
        if self.item.is_none() {
            let mut text = String::from_str("Cannot unequip ");
            text.append(self.name.as_str());
            text.append(" because it's not an Item.");
            messages.add(text, crate::color::red());
            return ;
        }
        let slot_label = match &self.equipment {
            Some(q) => Some(q.slot.name()),
            None => None,
        };
        match &mut self.equipment {
            Some(equipment) => {
                if equipment.equipped {
                    equipment.equipped = false;
                    let mut text = String::from_str("Unequipped ");
                    text.append(self.name.as_str());
                    text.append(" from ");
                    match slot_label {
                        Some(label) => text.append(label.as_str()),
                        None => {},
                    }
                    text.append(".");
                    messages.add(text, crate::color::light_yellow());
                }
            },
            None => {
                let mut text = String::from_str("Cannot unequip ");
                text.append(self.name.as_str());
                text.append(" because it's not an Equipment.");
                messages.add(text, crate::color::red());
            },
        }
    }

    /// Effective attack power: base power plus the sum of the equipped
    /// items' power bonuses.
    pub fn power(&self) -> (r: i32)
        requires
            i32::MIN <= spec_power(*self) <= i32::MAX,
        ensures
            r == spec_power(*self),
    {
        let base: i32 = match &self.fighter {
            Some(f) => f.base_power,
            None => 0,
        };
        let n = self.inventory.len();
        let mut acc: i128 = 0;
        let mut i: usize = 0;
        proof {
            assert(self.inventory@.take(0) =~= Seq::<Entity>::empty());
        }
        while i < n
            invariant
                i <= n,
                n == self.inventory@.len(),
                acc == sum_power_bonus(equipped_seq(self.inventory@.take(i as int))),
                -0x8000_0000_i128 * (i as i128) <= acc <= 0x8000_0000_i128 * (i as i128),
            decreases n - i,
        {
            proof {
                assert(self.inventory@.take(i + 1).drop_last() =~= self.inventory@.take(i as int));
                assert(self.inventory@.take(i + 1).last() == self.inventory@[i as int]);
                let s = equipped_seq(self.inventory@.take(i as int));
                match self.inventory@[i as int].equipment {
                    Some(q) => {
                        if q.equipped {
                            assert(equipped_seq(self.inventory@.take(i + 1)) =~= s.push(q));
                            assert(s.push(q).drop_last() =~= s);
                        } else {
                            assert(equipped_seq(self.inventory@.take(i + 1)) =~= s);
                        }
                    },
                    None => {
                        assert(equipped_seq(self.inventory@.take(i + 1)) =~= s);
                    },
                }
            }
            match &self.inventory[i].equipment {
                Some(q) => {
                    if q.equipped {
                        acc = acc + q.power_bonus as i128;
                    }
                },
                None => {},
            }
            i = i + 1;
        }
        proof {
            assert(self.inventory@.take(n as int) =~= self.inventory@);
        }
        (base as i128 + acc) as i32
    }

    /// Effective defense: base defense plus the sum of the equipped items'
    /// defense bonuses.
    pub fn defense(&self) -> (r: i32)
        requires
            i32::MIN <= spec_defense(*self) <= i32::MAX,
        ensures
            r == spec_defense(*self),
    {
        let base: i32 = match &self.fighter {
            Some(f) => f.base_defense,
            None => 0,
        };
        let n = self.inventory.len();
        let mut acc: i128 = 0;
        let mut i: usize = 0;
        proof {
            assert(self.inventory@.take(0) =~= Seq::<Entity>::empty());
        }
        while i < n
            invariant
                i <= n,
                n == self.inventory@.len(),
                acc == sum_defense_bonus(equipped_seq(self.inventory@.take(i as int))),
                -0x8000_0000_i128 * (i as i128) <= acc <= 0x8000_0000_i128 * (i as i128),
            decreases n - i,
        {
            proof {
                assert(self.inventory@.take(i + 1).drop_last() =~= self.inventory@.take(i as int));
                assert(self.inventory@.take(i + 1).last() == self.inventory@[i as int]);
                let s = equipped_seq(self.inventory@.take(i as int));
                match self.inventory@[i as int].equipment {
                    Some(q) => {
                        if q.equipped {
                            assert(equipped_seq(self.inventory@.take(i + 1)) =~= s.push(q));
                            assert(s.push(q).drop_last() =~= s);
                        } else {
                            assert(equipped_seq(self.inventory@.take(i + 1)) =~= s);
                        }
                    },
                    None => {
                        assert(equipped_seq(self.inventory@.take(i + 1)) =~= s);
                    },
                }
            }
            match &self.inventory[i].equipment {
                Some(q) => {
                    if q.equipped {
                        acc = acc + q.defense_bonus as i128;
                    }
                },
                None => {},
            }
            i = i + 1;
        }
        proof {
            assert(self.inventory@.take(n as int) =~= self.inventory@);
        }
        (base as i128 + acc) as i32
    }

    /// Effective hp ceiling: base max hp plus the sum of the equipped items'
    /// max-hp bonuses.
    pub fn max_hp(&self) -> (r: i32)
        requires
            i32::MIN <= spec_max_hp(*self) <= i32::MAX,
        ensures
            r == spec_max_hp(*self),
    {
        let base: i32 = match &self.fighter {
            Some(f) => f.base_max_hp,
            None => 0,
        };
        let n = self.inventory.len();
        let mut acc: i128 = 0;
        let mut i: usize = 0;
        proof {
            assert(self.inventory@.take(0) =~= Seq::<Entity>::empty());
        }
        while i < n
            invariant
                i <= n,
                n == self.inventory@.len(),
                acc == sum_max_hp_bonus(equipped_seq(self.inventory@.take(i as int))),
                -0x8000_0000_i128 * (i as i128) <= acc <= 0x8000_0000_i128 * (i as i128),
            decreases n - i,
        {
            proof {
                assert(self.inventory@.take(i + 1).drop_last() =~= self.inventory@.take(i as int));
                assert(self.inventory@.take(i + 1).last() == self.inventory@[i as int]);
                let s = equipped_seq(self.inventory@.take(i as int));
                match self.inventory@[i as int].equipment {
                    Some(q) => {
                        if q.equipped {
                            assert(equipped_seq(self.inventory@.take(i + 1)) =~= s.push(q));
                            assert(s.push(q).drop_last() =~= s);
                        } else {
                            assert(equipped_seq(self.inventory@.take(i + 1)) =~= s);
                        }
                    },
                    None => {
                        assert(equipped_seq(self.inventory@.take(i + 1)) =~= s);
                    },
                }
            }
            match &self.inventory[i].equipment {
                Some(q) => {
                    if q.equipped {
                        acc = acc + q.max_hp_bonus as i128;
                    }
                },
                None => {},
            }
            i = i + 1;
        }
        proof {
            assert(self.inventory@.take(n as int) =~= self.inventory@);
        }
        (base as i128 + acc) as i32
    }
}

} // verus!
