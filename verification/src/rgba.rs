//! The RGBA color value type and the default two-stop gradient.

use vstd::prelude::*;

verus! {

/// An RGBA color: four 8-bit channels. Immutable value type; equality is
/// exact channel equality.
#[derive(Clone, Copy, PartialEq, Eq, Structural, Debug)]
pub struct RGBA {
    pub r: u8,
    pub g: u8,
    pub b: u8,
    pub a: u8,
}

impl RGBA {
    pub fn new(r: u8, g: u8, b: u8, a: u8) -> (c: RGBA)
        ensures
            c == (RGBA { r, g, b, a }),
    {
        RGBA { r, g, b, a }
    }
}

/// The default gradient ramp: opaque white followed by opaque black.
pub fn default_gradients() -> (g: Vec<RGBA>)
    ensures
        g@.len() == 2,
        g@[0] == (RGBA { r: 255, g: 255, b: 255, a: 255 }),
        g@[1] == (RGBA { r: 0, g: 0, b: 0, a: 255 }),
{
    let mut g: Vec<RGBA> = Vec::new();
    g.push(RGBA { r: 255, g: 255, b: 255, a: 255 });
    g.push(RGBA { r: 0, g: 0, b: 0, a: 255 });
    g
}

} // verus!
