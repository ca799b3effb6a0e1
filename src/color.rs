use vstd::prelude::*;

verus! {

/// An 8-bit-per-channel color.
#[derive(Clone, Copy, Debug, PartialEq, Eq, Structural)]
pub struct Color {
    pub r: u8,
    pub g: u8,
    pub b: u8,
    pub a: u8,
}

/// The packed form of four channels: red in the most significant byte, alpha in the least.
pub open spec fn pack(r: int, g: int, b: int, a: int) -> int {
    r * 0x1000000 + g * 0x10000 + b * 0x100 + a
}

impl Color {
    pub open spec fn packed(&self) -> int {
        pack(self.r as int, self.g as int, self.b as int, self.a as int)
    }

    /// Packs the color into one word, red first.
    pub fn to_u32(&self) -> (r: u32)
        ensures
            r as int == self.packed(),
    {
        (self.r as u32) * 0x1000000 + (self.g as u32) * 0x10000 + (self.b as u32) * 0x100 + (
        self.a as u32)
    }
}

impl From<(u8, u8, u8)> for Color {
    /// An opaque color.
    fn from(v: (u8, u8, u8)) -> (r: Color)
        ensures
            r == (Color { r: v.0, g: v.1, b: v.2, a: 255 }),
    {
        Color { r: v.0, g: v.1, b: v.2, a: 255 }
    }
}

impl vstd::std_specs::convert::FromSpecImpl<(u8, u8, u8)> for Color {
    open spec fn obeys_from_spec() -> bool {
        true
    }

    open spec fn from_spec(v: (u8, u8, u8)) -> Color {
        Color { r: v.0, g: v.1, b: v.2, a: 255 }
    }
}

impl From<(u8, u8, u8, u8)> for Color {
    fn from(v: (u8, u8, u8, u8)) -> (r: Color)
        ensures
            r == (Color { r: v.0, g: v.1, b: v.2, a: v.3 }),
    {
        Color { r: v.0, g: v.1, b: v.2, a: v.3 }
    }
}

impl vstd::std_specs::convert::FromSpecImpl<(u8, u8, u8, u8)> for Color {
    open spec fn obeys_from_spec() -> bool {
        true
    }

    open spec fn from_spec(v: (u8, u8, u8, u8)) -> Color {
        Color { r: v.0, g: v.1, b: v.2, a: v.3 }
    }
}

} // verus!
