//! Depth-indexed step functions.
//!
//! A transition table is an ordered list of `(level, value)` pairs used as a
//! step function: the effective value at a dungeon depth is the value of the
//! last entry whose `level` is at most the queried depth, or 0 when no entry
//! qualifies.  Spawn caps, monster weights and the level-type selector are all
//! such tables.

use vstd::prelude::*;

verus! {

/// One step of a depth-indexed table: from dungeon depth `level` upward the
/// table yields `value`, until a later entry overrides it.
#[derive(Clone, Copy, Debug, PartialEq, Eq, Structural)]
pub struct Transition {
    pub level: u32,
    pub value: u32,
}

/// A step function never yields more than the largest value in its table.
pub proof fn lemma_table_value_bounded(table: Seq<Transition>, level: u32, bound: u32)
    requires
        forall|i: int| 0 <= i < table.len() ==> #[trigger] table[i].value <= bound,
    ensures
        table_value_at(table, level) <= bound,
    decreases table.len(),
{
    if table.len() > 0 && table.last().level > level {
        lemma_table_value_bounded(table.drop_last(), level, bound);
    }
}

/// The value a table holds at `level`: the value of the last entry whose
/// `level` field is at most `level`, or 0 when there is none.
pub open spec fn table_value_at(table: Seq<Transition>, level: u32) -> u32
    decreases table.len(),
{
    if table.len() == 0 {
        0u32
    } else if table.last().level <= level {
        table.last().value
    } else {
        table_value_at(table.drop_last(), level)
    }
}

/// Returns the effective value of `table` at dungeon depth `level`.
pub fn from_dungeon_level(table: &[Transition], level: u32) -> (r: u32)
    ensures
        r == table_value_at(table@, level),
{
    let n = table.len();
    let mut i = n;
    assert(table@.take(n as int) =~= table@);
    while i > 0
        invariant
            i <= n,
            n == table@.len(),
            table_value_at(table@.take(i as int), level) == table_value_at(table@, level),
        decreases i,
    {
        i = i - 1;
        if table[i].level <= level {
            assert(table@.take(i + 1).last() == table@[i as int]);
            return table[i].value;
        }
        assert(table@.take(i + 1).drop_last() =~= table@.take(i as int));
    }
    0
}

} // verus!
