//! Display colors carried as opaque hints on tiles and entities.
//!
//! The core never interprets a color; it only stores one and hands it to the
//! rendering collaborator.

use vstd::prelude::*;

verus! {

/// An 8-bit-per-channel color hint.
#[derive(Clone, Copy, PartialEq, Eq, Structural, Debug)]
pub struct Rgb {
    pub r: u8,
    pub g: u8,
    pub b: u8,
}

impl Rgb {
    #[verifier::allow_in_spec]
    pub fn new(r: u8, g: u8, b: u8) -> Rgb
        returns
            (Rgb { r, g, b }),
    {
        Rgb { r, g, b }
    }
}

#[verifier::allow_in_spec]
pub fn white() -> Rgb
    returns
        (Rgb { r: 255, g: 255, b: 255 }),
{
    Rgb { r: 255, g: 255, b: 255 }
}

#[verifier::allow_in_spec]
pub fn red() -> Rgb
    returns
        (Rgb { r: 255, g: 0, b: 0 }),
{
    Rgb { r: 255, g: 0, b: 0 }
}

#[verifier::allow_in_spec]
pub fn dark_red() -> Rgb
    returns
        (Rgb { r: 139, g: 0, b: 0 }),
{
    Rgb { r: 139, g: 0, b: 0 }
}

#[verifier::allow_in_spec]
pub fn dark_crimson() -> Rgb
    returns
        (Rgb { r: 110, g: 15, b: 38 }),
{
    Rgb { r: 110, g: 15, b: 38 }
}

#[verifier::allow_in_spec]
pub fn light_green() -> Rgb
    returns
        (Rgb { r: 144, g: 238, b: 144 }),
{
    Rgb { r: 144, g: 238, b: 144 }
}

#[verifier::allow_in_spec]
pub fn light_yellow() -> Rgb
    returns
        (Rgb { r: 255, g: 255, b: 128 }),
{
    Rgb { r: 255, g: 255, b: 128 }
}

#[verifier::allow_in_spec]
pub fn lightest_yellow() -> Rgb
    returns
        (Rgb { r: 255, g: 255, b: 191 }),
{
    Rgb { r: 255, g: 255, b: 191 }
}

#[verifier::allow_in_spec]
pub fn light_red() -> Rgb
    returns
        (Rgb { r: 255, g: 128, b: 128 }),
{
    Rgb { r: 255, g: 128, b: 128 }
}

#[verifier::allow_in_spec]
pub fn light_blue() -> Rgb
    returns
        (Rgb { r: 128, g: 128, b: 255 }),
{
    Rgb { r: 128, g: 128, b: 255 }
}

#[verifier::allow_in_spec]
pub fn light_cyan() -> Rgb
    returns
        (Rgb { r: 128, g: 255, b: 255 }),
{
    Rgb { r: 128, g: 255, b: 255 }
}

#[verifier::allow_in_spec]
pub fn blue() -> Rgb
    returns
        (Rgb { r: 0, g: 0, b: 255 }),
{
    Rgb { r: 0, g: 0, b: 255 }
}

#[verifier::allow_in_spec]
pub fn green() -> Rgb
    returns
        (Rgb { r: 0, g: 255, b: 0 }),
{
    Rgb { r: 0, g: 255, b: 0 }
}

#[verifier::allow_in_spec]
pub fn yellow() -> Rgb
    returns
        (Rgb { r: 255, g: 255, b: 0 }),
{
    Rgb { r: 255, g: 255, b: 0 }
}

#[verifier::allow_in_spec]
pub fn orange() -> Rgb
    returns
        (Rgb { r: 255, g: 127, b: 0 }),
{
    Rgb { r: 255, g: 127, b: 0 }
}

#[verifier::allow_in_spec]
pub fn gold() -> Rgb
    returns
        (Rgb { r: 229, g: 191, b: 0 }),
{
    Rgb { r: 229, g: 191, b: 0 }
}

#[verifier::allow_in_spec]
pub fn violet() -> Rgb
    returns
        (Rgb { r: 127, g: 0, b: 255 }),
{
    Rgb { r: 127, g: 0, b: 255 }
}

#[verifier::allow_in_spec]
pub fn sky() -> Rgb
    returns
        (Rgb { r: 0, g: 191, b: 255 }),
{
    Rgb { r: 0, g: 191, b: 255 }
}

#[verifier::allow_in_spec]
pub fn desaturated_green() -> Rgb
    returns
        (Rgb { r: 63, g: 127, b: 63 }),
{
    Rgb { r: 63, g: 127, b: 63 }
}

#[verifier::allow_in_spec]
pub fn darker_amber() -> Rgb
    returns
        (Rgb { r: 191, g: 143, b: 0 }),
{
    Rgb { r: 191, g: 143, b: 0 }
}

#[verifier::allow_in_spec]
pub fn darker_azure() -> Rgb
    returns
        (Rgb { r: 0, g: 95, b: 191 }),
{
    Rgb { r: 0, g: 95, b: 191 }
}

#[verifier::allow_in_spec]
pub fn lightest_sepia() -> Rgb
    returns
        (Rgb { r: 222, g: 211, b: 195 }),
{
    Rgb { r: 222, g: 211, b: 195 }
}

#[verifier::allow_in_spec]
pub fn dark_orange() -> Rgb
    returns
        (Rgb { r: 191, g: 95, b: 0 }),
{
    Rgb { r: 191, g: 95, b: 0 }
}

} // verus!
