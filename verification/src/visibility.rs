//! Field-of-view data handed in by the visibility collaborator.
//!
//! The core never computes visibility itself; the collaborator fills a grid
//! of flags after each player move and the AI reads it as plain values.

use vstd::prelude::*;
use crate::mapgen::{spec_in_map_bounds, MAP_HEIGHT, MAP_WIDTH};

verus! {

/// A map-sized grid of visibility flags, indexed `grid[x][y]`.
pub struct Visibility {
    pub grid: Vec<Vec<bool>>,
}

impl Visibility {
    /// The grid covers the whole map.
    pub open spec fn wf(self) -> bool {
        &&& self.grid@.len() == MAP_WIDTH
        &&& forall|x: int| 0 <= x < self.grid@.len() ==> #[trigger] self.grid@[x]@.len()
            == MAP_HEIGHT
    }

    /// Whether `(x, y)` is visible.
    pub open spec fn spec_visible(self, x: int, y: int) -> bool {
        self.grid@[x]@[y]
    }

    /// A grid with nothing visible.
    pub fn new_dark() -> (r: Visibility)
        ensures
            r.wf(),
            forall|x: int, y: int| spec_in_map_bounds(x, y) ==> !r.spec_visible(x, y),
    {
        let mut grid: Vec<Vec<bool>> = Vec::new();
        let mut x: usize = 0;
        while x < MAP_WIDTH as usize
            invariant
                x <= MAP_WIDTH,
                grid@.len() == x,
                forall|i: int| 0 <= i < x ==> #[trigger] grid@[i]@.len() == MAP_HEIGHT,
                forall|i: int, j: int|
                    0 <= i < x && 0 <= j < MAP_HEIGHT ==> !(#[trigger] grid@[i]@[j]),
            decreases MAP_WIDTH - x,
        {
            let mut column: Vec<bool> = Vec::new();
            let mut y: usize = 0;
            while y < MAP_HEIGHT as usize
                invariant
                    y <= MAP_HEIGHT,
                    column@.len() == y,
                    forall|j: int| 0 <= j < y ==> !(#[trigger] column@[j]),
                decreases MAP_HEIGHT - y,
            {
                column.push(false);
                y = y + 1;
            }
            grid.push(column);
            x = x + 1;
        }
        Visibility { grid }
    }

    /// Marks `(x, y)` visible or not.
    pub fn set_visible(&mut self, x: i32, y: i32, v: bool)
        requires
            old(self).wf(),
            spec_in_map_bounds(x as int, y as int),
        ensures
            final(self).wf(),
            final(self).spec_visible(x as int, y as int) == v,
            forall|i: int, j: int|
                spec_in_map_bounds(i, j) && !(i == x && j == y) ==> final(self).spec_visible(i, j)
                    == old(self).spec_visible(i, j),
    {
        let column = &mut self.grid[x as usize];
        column[y as usize] = v;
    }

    /// Reads the flag at `(x, y)`.
    pub fn is_visible(&self, x: i32, y: i32) -> (r: bool)
        requires
            self.wf(),
            spec_in_map_bounds(x as int, y as int),
        ensures
            r == self.spec_visible(x as int, y as int),
    {
        self.grid[x as usize][y as usize]
    }
}

} // verus!
