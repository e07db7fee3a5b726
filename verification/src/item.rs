//! Item kinds and the outcome of using one.

use vstd::prelude::*;

verus! {

pub const HEAL_AMOUNT: i32 = 4;
pub const LIGHTNING_DAMAGE: i32 = 40;
pub const LIGHTNING_RANGE: i32 = 5;
pub const CONFUSE_RANGE: i32 = 8;
pub const CONFUSE_NUM_TURNS: i32 = 10;
pub const FIREBALL_RADIUS: i32 = 3;
pub const FIREBALL_DAMAGE: i32 = 12;

/// What an item does when used.
#[derive(Clone, Debug, PartialEq, Eq)]
pub enum Item {
    Heal,
    Lightning,
    Confuse,
    Fireball,
    Artifact { name: String, value: i32 },
    Sword,
    Shield,
}

/// The outcome of a use attempt: consumed, kept, or aborted.
#[derive(Clone, Copy, Debug, PartialEq, Eq, Structural)]
pub enum UseResult {
    UsedUp,
    UsedAndKept,
    Cancelled,
}

} // verus!
