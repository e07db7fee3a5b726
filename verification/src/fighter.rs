//! Combat stats and the death-callback selector.

use vstd::prelude::*;

verus! {

/// Selects which end-of-life behavior runs when a fighter's hp reaches zero.
/// The dispatch itself lives with `Entity::take_damage`.
#[derive(Clone, Copy, Debug, PartialEq, Eq, Structural)]
pub enum DeathCallback {
    Player,
    Monster,
    Boss,
}

/// Fighter component: base stats, current hp, the xp reward the entity is
/// worth (or, for the player, the xp collected so far), and the death
/// callback selector.
#[derive(Clone, Copy, Debug, PartialEq, Eq, Structural)]
pub struct Fighter {
    pub base_max_hp: i32,
    pub hp: i32,
    pub base_defense: i32,
    pub base_power: i32,
    pub xp: i32,
    pub on_death: DeathCallback,
}

} // verus!
