//! An RGB color with three 8-bit channels.
use vstd::prelude::*;

verus! {

/// A color as three 8-bit channels: red, green and blue.
#[derive(Clone, Copy, Debug, PartialEq, Eq, Structural)]
pub struct Color {
    pub r: u8,
    pub g: u8,
    pub b: u8,
}

impl Color {
    /// Builds a color from its channels, in the order red, green, blue.
    pub fn new(rgb: [u8; 3]) -> (c: Color)
        ensures
            c.r == rgb[0],
            c.g == rgb[1],
            c.b == rgb[2],
    {
        Color { r: rgb[0], g: rgb[1], b: rgb[2] }
    }

    pub fn red(self) -> (v: u8)
        ensures
            v == self.r,
    {
        self.r
    }

    pub fn green(self) -> (v: u8)
        ensures
            v == self.g,
    {
        self.g
    }

    pub fn blue(self) -> (v: u8)
        ensures
            v == self.b,
    {
        self.b
    }

    /// The channels in the order red, green, blue.
    pub fn channels(self) -> (rgb: [u8; 3])
        ensures
            rgb[0] == self.r,
            rgb[1] == self.g,
            rgb[2] == self.b,
    {
        [self.r, self.g, self.b]
    }
}

} // verus!
