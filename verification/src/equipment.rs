//! Wearable equipment: a slot plus stat bonuses, toggled by an equipped flag.

use vstd::prelude::*;

verus! {

use vstd::string::StringExecFns;

/// The body slot a piece of equipment occupies.  At most one equipped item
/// per slot is a protocol-level invariant enforced by `toggle_equipment`,
/// not by the data structure itself.
#[derive(Clone, Copy, Debug, PartialEq, Eq, Structural)]
pub enum Slot {
    LeftHand,
    RightHand,
    Head,
}

impl Slot {
    /// The slot's name as shown in messages.
    pub fn name(&self) -> (r: String)
        ensures
            r@ == self.spec_name(),
    {
        match self {
            Slot::LeftHand => String::from_str("left hand"),
            Slot::RightHand => String::from_str("right hand"),
            Slot::Head => String::from_str("head"),
        }
    }

    pub open spec fn spec_name(self) -> Seq<char> {
        match self {
            Slot::LeftHand => "left hand"@,
            Slot::RightHand => "right hand"@,
            Slot::Head => "head"@,
        }
    }
}

/// Equipment component: bonuses count toward the owner's derived stats while
/// `equipped` is true.
#[derive(Clone, Copy, Debug, PartialEq, Eq, Structural)]
pub struct Equipment {
    pub slot: Slot,
    pub equipped: bool,
    pub max_hp_bonus: i32,
    pub power_bonus: i32,
    pub defense_bonus: i32,
}

} // verus!
