//! Borrowing helpers.

use vstd::prelude::*;

verus! {

/// Mutable references to two distinct slots of one slice, obtained by
/// splitting it at the larger index.
pub fn mut_two<T>(first_index: usize, second_index: usize, items: &mut [T]) -> (r: (
    &mut T,
    &mut T,
))
    requires
        first_index != second_index,
        first_index < old(items)@.len(),
        second_index < old(items)@.len(),
    ensures
        *r.0 == old(items)@[first_index as int],
        *r.1 == old(items)@[second_index as int],
        final(items)@ =~= old(items)@.update(first_index as int, *final(r.0)).update(
            second_index as int,
            *final(r.1),
        ),
{
    if first_index < second_index {
        let (first_slice, second_slice) = items.split_at_mut(second_index);
        (&mut first_slice[first_index], &mut second_slice[0])
    } else {
        let (first_slice, second_slice) = items.split_at_mut(first_index);
        (&mut second_slice[0], &mut first_slice[second_index])
    }
}

} // verus!
