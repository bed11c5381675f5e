use vstd::prelude::*;

verus! {

/// An RGB color with 8-bit channels.
#[derive(Clone, Copy, Debug, PartialEq, Eq, Structural)]
pub struct Rgb {
    pub r: u8,
    pub g: u8,
    pub b: u8,
}

/// An RGBA pixel; alpha 0 marks a pixel that nothing has written.
#[derive(Clone, Copy, Debug, PartialEq, Eq, Structural)]
pub struct Rgba {
    pub r: u8,
    pub g: u8,
    pub b: u8,
    pub a: u8,
}

/// The pixel that nothing has written.
pub open spec fn transparent() -> Rgba {
    Rgba { r: 0, g: 0, b: 0, a: 0 }
}

/// A fully opaque pixel of the given color.
pub open spec fn opaque_of(c: Rgb) -> Rgba {
    Rgba { r: c.r, g: c.g, b: c.b, a: 255 }
}

impl Rgba {
    pub fn transparent() -> (r: Rgba)
        ensures
            r == transparent(),
    {
        Rgba { r: 0, g: 0, b: 0, a: 0 }
    }

    pub fn opaque(c: Rgb) -> (r: Rgba)
        ensures
            r == opaque_of(c),
    {
        Rgba { r: c.r, g: c.g, b: c.b, a: 255 }
    }

    pub fn is_written(&self) -> (r: bool)
        ensures
            r == (self.a != 0),
    {
        self.a != 0
    }

    pub fn rgb(&self) -> (r: Rgb)
        ensures
            r == self.spec_rgb(),
    {
        Rgb { r: self.r, g: self.g, b: self.b }
    }

    pub open spec fn spec_rgb(self) -> Rgb {
        Rgb { r: self.r, g: self.g, b: self.b }
    }
}

} // verus!
