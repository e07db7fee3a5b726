//! Map tiles: traversability and visibility flags plus display hints.
//!
//! A tile is immutable once generated except for `explored`, which flips to
//! true the first time the visibility collaborator reports it visible.

use vstd::prelude::*;
use crate::color::Rgb;

verus! {

#[verifier::allow_in_spec]
pub fn color_dark_wall_surface() -> Rgb
    returns
        (Rgb { r: 43, g: 0, b: 0 }),
{
    Rgb { r: 43, g: 0, b: 0 }
}

#[verifier::allow_in_spec]
pub fn color_dark_wall() -> Rgb
    returns
        (Rgb { r: 139, g: 0, b: 0 }),
{
    Rgb { r: 139, g: 0, b: 0 }
}

#[verifier::allow_in_spec]
pub fn color_light_wall_surface() -> Rgb
    returns
        (Rgb { r: 93, g: 10, b: 10 }),
{
    Rgb { r: 93, g: 10, b: 10 }
}

#[verifier::allow_in_spec]
pub fn color_light_wall() -> Rgb
    returns
        (Rgb { r: 127, g: 30, b: 20 }),
{
    Rgb { r: 127, g: 30, b: 20 }
}

#[verifier::allow_in_spec]
pub fn color_dark_ground_surface() -> Rgb
    returns
        (Rgb { r: 15, g: 8, b: 8 }),
{
    Rgb { r: 15, g: 8, b: 8 }
}

#[verifier::allow_in_spec]
pub fn color_dark_ground() -> Rgb
    returns
        (Rgb { r: 20, g: 10, b: 10 }),
{
    Rgb { r: 20, g: 10, b: 10 }
}

#[verifier::allow_in_spec]
pub fn color_light_ground_surface() -> Rgb
    returns
        (Rgb { r: 150, g: 101, b: 90 }),
{
    Rgb { r: 150, g: 101, b: 90 }
}

#[verifier::allow_in_spec]
pub fn color_light_ground() -> Rgb
    returns
        (Rgb { r: 170, g: 131, b: 96 }),
{
    Rgb { r: 170, g: 131, b: 96 }
}

/// The two kinds of tile a map holds.
#[derive(Clone, Copy, Debug, PartialEq, Eq, Structural)]
pub enum TileType {
    Ground,
    Wall,
}

/// One cell of the map grid.  The surface fields are decorative hints for the
/// renderer; the simulation reads only `tile_type`, `blocked`, `block_sight`
/// and `explored`.
#[derive(Clone, Copy, Debug)]
pub struct Tile {
    pub tile_type: TileType,
    pub blocked: bool,
    pub block_sight: bool,
    pub explored: bool,
    pub lit_color: Rgb,
    pub dark_color: Rgb,
    pub surface_char: char,
    pub surface_lit_color: Rgb,
    pub surface_dark_color: Rgb,
}

/// A freshly generated tile is unexplored and its flags agree with its kind:
/// ground is traversable and see-through, wall is neither.
pub open spec fn fresh_of_kind(t: Tile, kind: TileType) -> bool {
    &&& t.tile_type == kind
    &&& t.blocked == (kind is Wall)
    &&& t.block_sight == (kind is Wall)
    &&& !t.explored
}

impl Tile {
    /// A traversable tile with a randomly decorated surface.
    pub fn ground() -> (t: Tile)
        ensures
            fresh_of_kind(t, TileType::Ground),
    {
        let x = crate::rng::range_u32(0, 100);
        let (c, lit, dark): (char, Rgb, Rgb) = if x >= 95 {
            ('(', color_light_ground_surface(), color_dark_ground_surface())
        } else if x >= 90 {
            ('-', color_light_ground_surface(), color_dark_ground_surface())
        } else if x >= 85 {
            ('"', color_light_ground_surface(), color_dark_ground_surface())
        } else {
            ('.', color_light_ground(), color_dark_ground())
        };
        Tile {
            tile_type: TileType::Ground,
            blocked: false,
            block_sight: false,
            explored: false,
            lit_color: color_light_ground(),
            dark_color: color_dark_ground(),
            surface_char: c,
            surface_lit_color: lit,
            surface_dark_color: dark,
        }
    }

    /// A blocking, sight-blocking tile with a randomly decorated surface.
    pub fn wall() -> (t: Tile)
        ensures
            fresh_of_kind(t, TileType::Wall),
    {
        let x = crate::rng::range_u32(0, 100);
        let (c, lit, dark): (char, Rgb, Rgb) = if x >= 95 {
            ('.', color_light_wall_surface(), color_dark_wall_surface())
        } else if x >= 90 {
            ('#', color_light_wall_surface(), color_dark_wall_surface())
        } else if x >= 85 {
            (':', color_light_wall_surface(), color_dark_wall_surface())
        } else if x >= 80 {
            ('/', color_light_wall_surface(), color_dark_wall_surface())
        } else if x >= 75 {
            ('`', color_light_wall_surface(), color_dark_wall_surface())
        } else if x >= 70 {
            ('*', color_light_wall_surface(), color_dark_wall_surface())
        } else if x >= 65 {
            ('%', color_light_wall_surface(), color_dark_wall_surface())
        } else if x >= 60 {
            ('\'', color_light_wall_surface(), color_dark_wall_surface())
        } else if x >= 55 {
            ('^', color_light_wall_surface(), color_dark_wall_surface())
        } else if x >= 50 {
            ('[', color_light_wall_surface(), color_dark_wall_surface())
        } else {
            ('.', color_light_wall(), color_dark_wall())
        };
        Tile {
            tile_type: TileType::Wall,
            blocked: true,
            block_sight: true,
            explored: false,
            lit_color: color_light_wall(),
            dark_color: color_dark_wall(),
            surface_char: c,
            surface_lit_color: lit,
            surface_dark_color: dark,
        }
    }
}

} // verus!
