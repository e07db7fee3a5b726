//! The view window: translates between map and screen coordinates.

use vstd::prelude::*;
use crate::entity::Entity;

verus! {

/// A movable window onto the map, kept centered on the player.
#[derive(Clone, Copy, Debug, PartialEq, Eq, Structural)]
pub struct Camera {
    pub x: i32,
    pub y: i32,
    pub width: i32,
    pub height: i32,
    pub map_width: i32,
    pub map_height: i32,
}

impl Camera {
    /// Translates a map position into camera space.
    pub fn get_pos_in_camera(&self, x: i32, y: i32) -> (r: (i32, i32))
        requires
            crate::entity::fits_i32(x + self.x),
            crate::entity::fits_i32(y + self.y),
        ensures
            r.0 == x + self.x,
            r.1 == y + self.y,
    {
        (x + self.x, y + self.y)
    }

    /// Translates a camera position back into map space.
    pub fn get_map_pos(&self, x: i32, y: i32) -> (r: (i32, i32))
        requires
            crate::entity::fits_i32(x - self.x),
            crate::entity::fits_i32(y - self.y),
        ensures
            r.0 == x - self.x,
            r.1 == y - self.y,
    {
        (x - self.x, y - self.y)
    }

    /// Whether a camera-space position lies inside the view window.
    pub fn in_bounds(&self, x: i32, y: i32) -> (r: bool)
        ensures
            r == (0 <= x < self.width && 0 <= y < self.height),
    {
        0 <= x && x < self.width && 0 <= y && y < self.height
    }

    /// Re-centers the window on `entity`.
    pub fn update(&mut self, entity: &Entity)
        requires
            0 <= old(self).width,
            0 <= old(self).height,
            crate::entity::fits_i32(-(entity.x as int) + old(self).width as int / 2),
            crate::entity::fits_i32(-(entity.y as int) + old(self).height as int / 2),
        ensures
            *final(self) == (Camera {
                x: (-(entity.x as int) + old(self).width as int / 2) as i32,
                y: (-(entity.y as int) + old(self).height as int / 2) as i32,
                ..*old(self)
            }),
    {
        let x = -(entity.x as i64) + (self.width / 2) as i64;
        let y = -(entity.y as i64) + (self.height / 2) as i64;
        self.x = x as i32;
        self.y = y as i32;
    }
}

} // verus!
